use bertram::crash::analyze::{ctrplugin_symbols, get_3gx_commit_hash, CrashAnalysis, CsvBounds,
    CsvSymbol, MaybeFunction, Symbols};
use bertram::crash::saltwater::{Region, SWDType, SWDVersion};
use bertram::crash::{CrashError, CrashInfo, ModdingEngine};

fn sym(name: &str, location: u32) -> CsvSymbol {
    CsvSymbol { name: name.to_string(), location, namespace: None }
}

fn us_bounds(rodata: u32) -> Vec<CsvBounds> {
    vec![CsvBounds {
        version: "US".to_string(),
        code: 0x00100000,
        rodata,
        data: 0x00300000,
        bss_offset: 0x00400000,
        bss_size: 0x1000,
    }]
}

fn crash_with(pc: u32, lr: u32, call_stack: Option<Vec<u32>>) -> CrashInfo {
    CrashInfo {
        engine: ModdingEngine::RHMPatch,
        r: None,
        sp: None,
        lr,
        pc,
        cpsr: 0,
        dfsr: None,
        ifsr: None,
        far: None,
        fpexc: None,
        fpinst: None,
        fpinst2: None,
        stack: None,
        call_stack,
    }
}

#[test]
fn analysis_resolves_pc_lr_and_call_stack() {
    let mut symbols = Symbols::new(
        vec![sym("boot", 0x00100000), sym("tick", 0x00150000)],
        None,
    );
    symbols.init_bounds(Region::US, &us_bounds(0x00200000)).unwrap();

    let crash = crash_with(
        0x00150010,
        0x00100004,
        Some(vec![0x00150020, 0x05000000]),
    );
    let a = CrashAnalysis::from(&crash, &symbols).unwrap();
    assert!(matches!(a.ctype, ModdingEngine::RHMPatch));
    assert_eq!(a.region(), Region::US);

    match &a.pc {
        MaybeFunction::Function(f) => {
            assert_eq!(f.symbol, "tick");
            assert_eq!(f.func_pos, 0x00150000);
            assert_eq!(f.reg_pos, 0x00150010);
        }
        MaybeFunction::Oob(_) => panic!("pc should resolve"),
    }
    match &a.lr {
        MaybeFunction::Function(f) => assert_eq!(f.symbol, "boot"),
        MaybeFunction::Oob(_) => panic!("lr should resolve"),
    }
    assert_eq!(a.call_stack.len(), 2);
    match &a.call_stack[0] {
        MaybeFunction::Function(f) => assert_eq!(f.symbol, "tick"),
        MaybeFunction::Oob(_) => panic!("first entry should resolve"),
    }
    match &a.call_stack[1] {
        MaybeFunction::Oob(pos) => assert_eq!(*pos, 0x05000000),
        MaybeFunction::Function(_) => panic!("second entry lies outside both spaces"),
    }
    assert_eq!(a.pc.get_raw_pos(), 0x00150010);
    assert_eq!(a.call_stack[1].get_raw_pos(), 0x05000000);
}

#[test]
fn analysis_without_call_stack_is_empty() {
    let mut symbols = Symbols::new(vec![sym("boot", 0x00100000)], None);
    symbols.init_bounds(Region::US, &us_bounds(0x00200000)).unwrap();
    let a = CrashAnalysis::from(&crash_with(0x00000000, 0x00000000, None), &symbols).unwrap();
    assert!(a.call_stack.is_empty());
    assert!(matches!(a.pc, MaybeFunction::Oob(0)));
}

#[test]
fn analysis_rejects_the_unknown_region() {
    let mut symbols = Symbols::new(vec![sym("boot", 0x00100000)], None);
    symbols.init_bounds(Region::US, &us_bounds(0x00200000)).unwrap();
    let mut crash = crash_with(0x00150010, 0, None);
    crash.engine = ModdingEngine::SpiceRack(
        SWDType::Short,
        SWDVersion::Release { major: 0, minor: 1, patch: 0 },
        Region::UNK,
    );
    assert_eq!(
        CrashAnalysis::from(&crash, &symbols).unwrap_err(),
        CrashError::ContractViolation
    );
}

#[test]
fn analysis_needs_initialized_bounds() {
    let symbols = Symbols::new(vec![sym("boot", 0x00100000)], None);
    assert_eq!(
        CrashAnalysis::from(&crash_with(0x00150010, 0, None), &symbols).unwrap_err(),
        CrashError::ContractViolation
    );
}

fn container(entries: &[(u32, &str)], count_override: Option<u32>) -> Vec<u8> {
    let mut buf = Vec::new();
    buf.extend_from_slice(b"3GX$0002");
    buf.resize(0x88, 0);
    let count = count_override.unwrap_or(entries.len() as u32);
    let sym_off: u32 = 0x94;
    let name_tab: u32 = sym_off + 12 * entries.len() as u32;
    buf.extend_from_slice(&count.to_le_bytes());
    buf.extend_from_slice(&sym_off.to_le_bytes());
    buf.extend_from_slice(&name_tab.to_le_bytes());
    let mut names = Vec::new();
    for (addr, name) in entries {
        buf.extend_from_slice(&addr.to_le_bytes());
        buf.extend_from_slice(&0u32.to_le_bytes()); // size, flags
        buf.extend_from_slice(&(names.len() as u32).to_le_bytes());
        names.extend_from_slice(name.as_bytes());
        names.push(0);
    }
    buf.extend_from_slice(&names);
    buf
}

#[test]
fn extracts_container_symbols() {
    let buf = container(&[(0x07000100, "plugin_a"), (0x07000200, "plugin_b")], None);
    let syms = ctrplugin_symbols(&buf).unwrap();
    assert_eq!(syms.len(), 2);
    assert_eq!(syms[0].name, "plugin_a");
    assert_eq!(syms[0].location, 0x07000100);
    assert_eq!(syms[0].namespace, None);
    assert_eq!(syms[1].name, "plugin_b");
}

#[test]
fn extraction_stops_after_the_sentinel() {
    let buf = container(
        &[
            (0x07000100, "plugin_a"),
            (0x07000300, "_TEXT_END"),
            (0x07000400, "data_thing"),
        ],
        None,
    );
    let syms = ctrplugin_symbols(&buf).unwrap();
    assert_eq!(syms.len(), 2);
    assert_eq!(syms[1].name, "_TEXT_END");
}

#[test]
fn extraction_rejects_wrong_magic_and_short_input() {
    let mut buf = container(&[(0x07000100, "plugin_a")], None);
    buf[3] = b'!';
    assert_eq!(
        ctrplugin_symbols(&buf).unwrap_err(),
        CrashError::NotThisFormat
    );
    assert_eq!(
        ctrplugin_symbols(&b"3GX$0002".to_vec()).unwrap_err(),
        CrashError::Truncated
    );
    // the header claims one more entry than the buffer holds
    let over = container(&[(0x07000100, "plugin_a")], Some(2));
    assert_eq!(ctrplugin_symbols(&over).unwrap_err(), CrashError::Truncated);
}

#[test]
fn commit_hash_is_found_after_the_rev_marker() {
    let buf = b"some padding rev 1a2b3c4 more".to_vec();
    assert_eq!(get_3gx_commit_hash(&buf).unwrap(), "1a2b3c4");

    // the first occurrence wins
    let twice = b"rev abcdef0 and rev 1111111".to_vec();
    assert_eq!(get_3gx_commit_hash(&twice).unwrap(), "abcdef0");

    // too few hexadecimal digits: no match
    let short = b"rev abc and nothing else".to_vec();
    assert!(get_3gx_commit_hash(&short).is_none());

    // uppercase digits do not match the pattern
    let upper = b"rev ABCDEF0".to_vec();
    assert!(get_3gx_commit_hash(&upper).is_none());

    assert!(get_3gx_commit_hash(&b"".to_vec()).is_none());
}
