use bertram::crash::analyze::{parse_bounds, parse_symbols, CsvBounds, CsvSymbol, Symbols};
use bertram::crash::saltwater::Region;
use bertram::crash::CrashError;

fn sym(name: &str, location: u32) -> CsvSymbol {
    CsvSymbol { name: name.to_string(), location, namespace: None }
}

fn us_bounds(rodata: u32) -> Vec<CsvBounds> {
    vec![CsvBounds {
        version: "US".to_string(),
        code: 0x00100000,
        rodata,
        data: 0x00300000,
        bss_offset: 0x00400000,
        bss_size: 0x1000,
    }]
}

#[test]
fn parses_symbol_table_from_csv() {
    let csv = b"Name,Location,Namespace\nalpha,00100000,\nbeta,00100010,Global\ngamma,00100020,agb\n"
        .to_vec();
    let syms = parse_symbols(&csv).unwrap();
    assert_eq!(syms.len(), 3);
    assert_eq!(syms[0].name, "alpha");
    assert_eq!(syms[0].location, 0x00100000);
    assert_eq!(syms[0].namespace, None);
    assert_eq!(syms[1].namespace, Some("Global".to_string()));
    assert_eq!(syms[2].namespace, Some("agb".to_string()));
    assert_eq!(syms[0].full_name(), "alpha");
    assert_eq!(syms[1].full_name(), "beta");
    assert_eq!(syms[2].full_name(), "agb::gamma");
}

#[test]
fn symbol_fields_are_trimmed() {
    let csv = b"Name,Location\n  alpha  , 00100000 \n".to_vec();
    let syms = parse_symbols(&csv).unwrap();
    assert_eq!(syms[0].name, "alpha");
    assert_eq!(syms[0].location, 0x00100000);
}

#[test]
fn symbol_table_needs_fixed_width_hex() {
    // too short, prefixed, and non-hex location fields are all rejected
    for bad in ["100000", "0x100000", "0010000g"] {
        let csv = format!("Name,Location\na,{}\n", bad).into_bytes();
        assert_eq!(parse_symbols(&csv).unwrap_err(), CrashError::InvalidField);
    }
    // both cases of hexadecimal digits are accepted
    let csv = b"Name,Location\na,0011E764\nb,0011e768\n".to_vec();
    let syms = parse_symbols(&csv).unwrap();
    assert_eq!(syms[0].location, 0x0011e764);
    assert_eq!(syms[1].location, 0x0011e768);
}

#[test]
fn symbol_table_needs_name_and_location_columns() {
    let csv = b"Name,Place\na,00100000\n".to_vec();
    assert_eq!(parse_symbols(&csv).unwrap_err(), CrashError::InvalidField);
}

#[test]
fn parses_bounds_table_from_csv() {
    let csv = b"Version,Code offset,Rodata offset,Data offset,BSS start,BSS size\nUS,00100000,00200000,00300000,00400000,00001000\n"
        .to_vec();
    let rows = parse_bounds(&csv).unwrap();
    assert_eq!(rows.len(), 1);
    assert_eq!(rows[0].version, "US");
    assert_eq!(rows[0].code, 0x00100000);
    assert_eq!(rows[0].rodata, 0x00200000);
    assert_eq!(rows[0].data, 0x00300000);
    assert_eq!(rows[0].bss_offset, 0x00400000);
    assert_eq!(rows[0].bss_size, 0x1000);
}

#[test]
fn bounds_table_accepts_bss_offset_header() {
    let csv = b"Version,Code offset,Rodata offset,Data offset,BSS offset,BSS size\nEU,00100000,00200000,00300000,00400000,00001000\n"
        .to_vec();
    let rows = parse_bounds(&csv).unwrap();
    assert_eq!(rows[0].bss_offset, 0x00400000);
}

#[test]
fn finds_nearest_preceding_symbol() {
    // table [(0x100000,"a"),(0x100010,"b")], bounds end 0x200000
    let mut symbols = Symbols::new(vec![sym("a", 0x00100000), sym("b", 0x00100010)], None);
    symbols.init_bounds(Region::US, &us_bounds(0x00200000)).unwrap();

    let f = symbols.find_symbol(0x00100005).unwrap().unwrap();
    assert_eq!(f.symbol, "a");
    assert_eq!(f.func_pos, 0x00100000);
    assert_eq!(f.reg_pos, 0x00100005);

    // below the lower bound of the primary space: no match
    assert!(symbols.find_symbol(0x000fffff).unwrap().is_none());

    // at and beyond the second entry
    let g = symbols.find_symbol(0x00100010).unwrap().unwrap();
    assert_eq!(g.symbol, "b");
    let h = symbols.find_symbol(0x001fffff).unwrap().unwrap();
    assert_eq!(h.symbol, "b");

    // at or past the rodata bound: no match
    assert!(symbols.find_symbol(0x00200000).unwrap().is_none());
}

#[test]
fn find_symbol_is_idempotent() {
    let mut symbols = Symbols::new(vec![sym("a", 0x00100000), sym("b", 0x00100010)], None);
    symbols.init_bounds(Region::US, &us_bounds(0x00200000)).unwrap();
    let first = symbols.find_symbol(0x00100012).unwrap().unwrap();
    let second = symbols.find_symbol(0x00100012).unwrap().unwrap();
    assert_eq!(first.symbol, second.symbol);
    assert_eq!(first.func_pos, second.func_pos);
    assert_eq!(first.reg_pos, second.reg_pos);
}

#[test]
fn lookup_before_bounds_is_a_contract_violation() {
    let symbols = Symbols::new(vec![sym("a", 0x00100000)], None);
    assert_eq!(
        symbols.find_symbol(0x00100005).unwrap_err(),
        CrashError::ContractViolation
    );
}

#[test]
fn unsorted_table_is_a_contract_violation() {
    let mut symbols = Symbols::new(vec![sym("b", 0x00100010), sym("a", 0x00100000)], None);
    symbols.init_bounds(Region::US, &us_bounds(0x00200000)).unwrap();
    assert_eq!(
        symbols.find_symbol(0x00100020).unwrap_err(),
        CrashError::ContractViolation
    );
}

#[test]
fn init_bounds_rejects_unlisted_region() {
    let mut symbols = Symbols::new(vec![sym("a", 0x00100000)], None);
    let mut rows = us_bounds(0x00200000);
    rows[0].version = "EU".to_string();
    assert_eq!(
        symbols.init_bounds(Region::US, &rows).unwrap_err(),
        CrashError::UnknownRegion
    );
}

#[test]
fn init_bounds_needs_the_sentinel_in_the_secondary_table() {
    let secondary = vec![sym("plugin_fn", 0x07000100)];
    let mut symbols = Symbols::new(vec![sym("a", 0x00100000)], Some(secondary));
    assert_eq!(
        symbols.init_bounds(Region::US, &us_bounds(0x00200000)).unwrap_err(),
        CrashError::MissingSentinelSymbol
    );
}

#[test]
fn secondary_space_resolves_up_to_the_sentinel() {
    let secondary = vec![
        sym("plugin_a", 0x07000100),
        sym("plugin_b", 0x07000200),
        sym("_TEXT_END", 0x07000300),
    ];
    let mut symbols = Symbols::new(vec![sym("a", 0x00100000)], Some(secondary));
    symbols.init_bounds(Region::US, &us_bounds(0x00200000)).unwrap();

    let f = symbols.find_symbol(0x07000250).unwrap().unwrap();
    assert_eq!(f.symbol, "plugin_b");
    assert_eq!(f.func_pos, 0x07000200);

    // past the sentinel: outside the secondary space
    assert!(symbols.find_symbol(0x07000301).unwrap().is_none());
    // before the first entry of the secondary table
    assert!(symbols.find_symbol(0x07000000).unwrap().is_none());
}

#[test]
fn namespaced_sentinel_is_accepted() {
    let secondary = vec![CsvSymbol {
        name: "_TEXT_END".to_string(),
        location: 0x07000300,
        namespace: Some("Global".to_string()),
    }];
    let mut symbols = Symbols::new(vec![sym("a", 0x00100000)], Some(secondary));
    symbols.init_bounds(Region::US, &us_bounds(0x00200000)).unwrap();
    let f = symbols.find_symbol(0x07000300).unwrap().unwrap();
    assert_eq!(f.symbol, "_TEXT_END");
}

#[test]
fn addresses_between_the_spaces_do_not_resolve() {
    let mut symbols = Symbols::new(vec![sym("a", 0x00100000)], None);
    symbols.init_bounds(Region::US, &us_bounds(0x00200000)).unwrap();
    assert!(symbols.find_symbol(0x05000000).unwrap().is_none());
    // no secondary table: secondary-space addresses do not resolve
    assert!(symbols.find_symbol(0x07000100).unwrap().is_none());
}
