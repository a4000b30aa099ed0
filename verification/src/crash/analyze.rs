//! Symbol resolution: tabular symbol and bounds inputs, the two bounded
//! address spaces, nearest-preceding-address lookup, the plugin-container
//! symbol extractor, and the symbolized crash report.

use vstd::prelude::*;

use crate::binary::{copy_range, le32_at, read_u32_le};
use crate::crash::{CrashError, CrashInfo, ModdingEngine};
use crate::crash::saltwater::Region;
use crate::text::{parse_hex_u32, spec_parse_hex_u32, str_eq};

verus! {

/// One row of a tabular symbol source: a name, its address, and an optional
/// namespace qualifier.
#[derive(Debug, Clone)]
pub struct CsvSymbol {
    pub name: String,
    pub location: u32,
    pub namespace: Option<String>,
}

/// The view a symbol row presents to specifications: name characters,
/// address, and namespace characters if any.
pub open spec fn spec_sym_view(s: CsvSymbol) -> (Seq<char>, u32, Option<Seq<char>>) {
    (
        s.name@,
        s.location,
        match s.namespace {
            Some(ns) => Some(ns@),
            None => None,
        },
    )
}

impl CsvSymbol {
    /// The display form of the symbol: the plain name when the namespace is
    /// absent or the literal `"Global"`, else `namespace::name`.
    pub open spec fn spec_full_name(self) -> Seq<char> {
        match self.namespace {
            Some(ns) => if ns@ == "Global"@ {
                self.name@
            } else {
                ns@ + "::"@ + self.name@
            },
            None => self.name@,
        }
    }

    /// Renders the namespace-qualified display form of the symbol.
    pub fn full_name(&self) -> (r: String)
        ensures
            r@ == self.spec_full_name(),
    {
        match &self.namespace {
            Some(ns) => {
                if str_eq(ns.as_str(), "Global") {
                    self.name.clone()
                } else {
                    let mut out = ns.clone();
                    out.append("::");
                    out.append(self.name.as_str());
                    out
                }
            },
            None => self.name.clone(),
        }
    }
}

/// One row of the bounds table: the image offsets of one game version.
#[derive(Debug, Clone)]
pub struct CsvBounds {
    pub version: String,
    pub code: u32,
    pub rodata: u32,
    pub data: u32,
    pub bss_offset: u32,
    pub bss_size: u32,
}

/// What the outside tabular reader yields for a byte input: the header row
/// followed by the record rows, or nothing if the input is malformed.
pub uninterp spec fn csv_rows_of(b: Seq<u8>) -> Option<Seq<Seq<Seq<char>>>>;

/// Relies on csv's `ReaderBuilder` and `Reader`: parses comma-separated
/// rows, treating the first row as headers and trimming whitespace from the
/// record fields (`Trim::Fields`); rows of unequal arity or other parse
/// faults yield `None`.
#[verifier::external_body]
fn csv_rows(b: &Vec<u8>) -> (r: Option<Vec<Vec<String>>>)
    ensures
        r.deep_view() == csv_rows_of(b@),
{
    let mut rdr = csv::ReaderBuilder::new().trim(csv::Trim::Fields).from_reader(b.as_slice());
    let mut rows: Vec<Vec<String>> = Vec::new();
    match rdr.headers() {
        Ok(h) => rows.push(h.iter().map(|f| f.to_string()).collect()),
        Err(_) => return None,
    }
    for rec in rdr.records() {
        match rec {
            Ok(rr) => rows.push(rr.iter().map(|f| f.to_string()).collect()),
            Err(_) => return None,
        }
    }
    Some(rows)
}

/// The first column whose header is `a`, scanning from `i`.
pub open spec fn spec_find_col(headers: Seq<Seq<char>>, a: Seq<char>, i: int) -> Option<int>
    decreases headers.len() - i,
{
    if i < 0 || i >= headers.len() {
        None
    } else if headers[i] == a {
        Some(i)
    } else {
        spec_find_col(headers, a, i + 1)
    }
}

/// Finds the column with header `a`.
fn find_col(headers: &Vec<String>, a: &str) -> (r: Option<usize>)
    ensures
        match r {
            Some(k) => spec_find_col(headers.deep_view(), a@, 0) == Some(k as int),
            None => spec_find_col(headers.deep_view(), a@, 0) is None,
        },
{
    let n = headers.len();
    let mut i: usize = 0;
    while i < n
        invariant
            n == headers@.len(),
            i <= n,
            spec_find_col(headers.deep_view(), a@, 0) == spec_find_col(
                headers.deep_view(),
                a@,
                i as int,
            ),
        decreases n - i,
    {
        if str_eq(headers[i].as_str(), a) {
            proof {
                assert(headers.deep_view()[i as int] == headers@[i as int]@);
            }
            return Some(i);
        }
        proof {
            assert(headers.deep_view()[i as int] == headers@[i as int]@);
        }
        i = i + 1;
    }
    None
}

/// The columns a symbol table names: `Name`, `Location`, and optionally
/// `Namespace`.
pub open spec fn spec_sym_cols(headers: Seq<Seq<char>>) -> Option<(int, int, Option<int>)> {
    match (spec_find_col(headers, "Name"@, 0), spec_find_col(headers, "Location"@, 0)) {
        (Some(ni), Some(li)) => Some((ni, li, spec_find_col(headers, "Namespace"@, 0))),
        _ => None,
    }
}

/// The symbol a record row denotes under the given columns: the name field,
/// the fixed-width hexadecimal location, and the namespace field when the
/// column exists and the field is nonempty.
pub open spec fn spec_sym_of_row(row: Seq<Seq<char>>, cols: (int, int, Option<int>)) -> Option<
    (Seq<char>, u32, Option<Seq<char>>),
> {
    if row.len() <= cols.0 || row.len() <= cols.1 {
        None
    } else {
        match spec_parse_hex_u32(row[cols.1]) {
            None => None,
            Some(loc) => Some(
                (
                    row[cols.0],
                    loc,
                    match cols.2 {
                        Some(k) => if 0 <= k < row.len() && row[k].len() > 0 {
                            Some(row[k])
                        } else {
                            None
                        },
                        None => None,
                    },
                ),
            ),
        }
    }
}

/// The symbol views rows `i..` denote, or `None` if any row is malformed.
pub open spec fn spec_syms_from(
    rows: Seq<Seq<Seq<char>>>,
    i: int,
    cols: (int, int, Option<int>),
) -> Option<Seq<(Seq<char>, u32, Option<Seq<char>>)>>
    decreases rows.len() - i,
{
    if i < 0 || i >= rows.len() {
        Some(Seq::empty())
    } else {
        match spec_sym_of_row(rows[i], cols) {
            None => None,
            Some(v) => match spec_syms_from(rows, i + 1, cols) {
                None => None,
                Some(rest) => Some(seq![v] + rest),
            },
        }
    }
}

/// The symbol table a tabular input denotes: `None` if the input is
/// malformed, lacks the `Name` or `Location` column, or has a bad row.
pub open spec fn spec_symbols_of(b: Seq<u8>) -> Option<Seq<(Seq<char>, u32, Option<Seq<char>>)>> {
    match csv_rows_of(b) {
        None => None,
        Some(rows) => if rows.len() == 0 {
            None
        } else {
            match spec_sym_cols(rows[0]) {
                None => None,
                Some(cols) => spec_syms_from(rows, 1, cols),
            }
        },
    }
}

/// Parses a tabular symbol source into symbol rows. Any malformation (a bad
/// header, a location that is not fixed-width hexadecimal) is an
/// [`CrashError::InvalidField`].
#[verifier::rlimit(60)]
pub fn parse_symbols(b: &Vec<u8>) -> (r: Result<Vec<CsvSymbol>, CrashError>)
    ensures
        match r {
            Ok(syms) => spec_symbols_of(b@) == Some(syms@.map_values(|s: CsvSymbol| spec_sym_view(s))),
            Err(e) => e == CrashError::InvalidField && spec_symbols_of(b@) is None,
        },
{
    let rows = match csv_rows(b) {
        Some(rows) => rows,
        None => {
            return Err(CrashError::InvalidField);
        },
    };
    if rows.len() == 0 {
        return Err(CrashError::InvalidField);
    }
    let ni = match find_col(&rows[0], "Name") {
        Some(k) => k,
        None => {
            return Err(CrashError::InvalidField);
        },
    };
    let li = match find_col(&rows[0], "Location") {
        Some(k) => k,
        None => {
            return Err(CrashError::InvalidField);
        },
    };
    let nsi = find_col(&rows[0], "Namespace");
    let ghost cols: (int, int, Option<int>) = (
        ni as int,
        li as int,
        match nsi {
            Some(k) => Some(k as int),
            None => None,
        },
    );
    proof {
        assert(rows.deep_view()[0] =~= rows@[0].deep_view());
        assert(spec_sym_cols(rows.deep_view()[0]) == Some(cols));
    }
    let n = rows.len();
    let mut out: Vec<CsvSymbol> = Vec::new();
    let mut i: usize = 1;
    while i < n
        invariant
            n == rows@.len(),
            1 <= i <= n,
            cols == (
                ni as int,
                li as int,
                match nsi {
                    Some(k) => Some(k as int),
                    None => None::<int>,
                },
            ),
            csv_rows_of(b@) == Some(rows.deep_view()),
            spec_sym_cols(rows.deep_view()[0]) == Some(cols),
            spec_syms_from(rows.deep_view(), 1, cols) == (match spec_syms_from(
                rows.deep_view(),
                i as int,
                cols,
            ) {
                None => None::<Seq<(Seq<char>, u32, Option<Seq<char>>)>>,
                Some(rest) => Some(out@.map_values(|s: CsvSymbol| spec_sym_view(s)) + rest),
            }),
        decreases n - i,
    {
        let row = &rows[i];
        proof {
            assert(rows.deep_view()[i as int] =~= row.deep_view());
        }
        if row.len() <= ni || row.len() <= li {
            return Err(CrashError::InvalidField);
        }
        proof {
            assert(row.deep_view()[li as int] == row@[li as int]@);
            assert(row.deep_view()[ni as int] == row@[ni as int]@);
        }
        let location = match parse_hex_u32(row[li].as_str()) {
            Some(loc) => loc,
            None => {
                return Err(CrashError::InvalidField);
            },
        };
        let namespace = match nsi {
            Some(k) => {
                if k < row.len() && !row[k].as_str().is_empty() {
                    proof {
                        assert(row.deep_view()[k as int] == row@[k as int]@);
                    }
                    Some(row[k].clone())
                } else {
                    proof {
                        if k < row.len() {
                            assert(row.deep_view()[k as int] == row@[k as int]@);
                        }
                    }
                    None
                }
            },
            None => None,
        };
        let sym = CsvSymbol { name: row[ni].clone(), location, namespace };
        proof {
            assert(rows.deep_view()[i as int].len() == row@.len());
            assert(rows.deep_view()[i as int][li as int] == row@[li as int]@);
            assert(rows.deep_view()[i as int][ni as int] == row@[ni as int]@);
            assert(spec_sym_of_row(rows.deep_view()[i as int], cols) == Some(spec_sym_view(sym)));
        }
        let ghost prev = out@;
        out.push(sym);
        i = i + 1;
        proof {
            assert(out@.map_values(|s: CsvSymbol| spec_sym_view(s)) =~= prev.map_values(
                |s: CsvSymbol| spec_sym_view(s),
            ).push(spec_sym_view(sym)));
            if let Some(rest) = spec_syms_from(rows.deep_view(), i as int, cols) {
                assert(prev.map_values(|s: CsvSymbol| spec_sym_view(s)) + (seq![
                    spec_sym_view(sym),
                ] + rest) =~= out@.map_values(|s: CsvSymbol| spec_sym_view(s)) + rest);
            }
        }
    }
    proof {
        assert(spec_syms_from(rows.deep_view(), i as int, cols) == Some(
            Seq::<(Seq<char>, u32, Option<Seq<char>>)>::empty(),
        ));
        assert(out@.map_values(|s: CsvSymbol| spec_sym_view(s)) + Seq::<
            (Seq<char>, u32, Option<Seq<char>>),
        >::empty() =~= out@.map_values(|s: CsvSymbol| spec_sym_view(s)));
    }
    Ok(out)
}

/// The view a bounds row presents to specifications.
pub open spec fn spec_bounds_view(b: CsvBounds) -> (Seq<char>, u32, u32, u32, u32, u32) {
    (b.version@, b.code, b.rodata, b.data, b.bss_offset, b.bss_size)
}

/// The columns a bounds table names: `Version`, the three image offsets, the
/// BSS start (under either of its two accepted headers), and the BSS size.
pub open spec fn spec_bounds_cols(headers: Seq<Seq<char>>) -> Option<(int, int, int, int, int, int)> {
    let bi = match spec_find_col(headers, "BSS start"@, 0) {
        Some(k) => Some(k),
        None => spec_find_col(headers, "BSS offset"@, 0),
    };
    match (
        spec_find_col(headers, "Version"@, 0),
        spec_find_col(headers, "Code offset"@, 0),
        spec_find_col(headers, "Rodata offset"@, 0),
        spec_find_col(headers, "Data offset"@, 0),
        bi,
        spec_find_col(headers, "BSS size"@, 0),
    ) {
        (Some(vi), Some(ci), Some(ri), Some(di), Some(bi), Some(si)) => Some(
            (vi, ci, ri, di, bi, si),
        ),
        _ => None,
    }
}

/// The bounds row a record denotes under the given columns: the version
/// field verbatim and five fixed-width hexadecimal offsets.
pub open spec fn spec_bounds_of_row(row: Seq<Seq<char>>, cols: (int, int, int, int, int, int)) -> Option<
    (Seq<char>, u32, u32, u32, u32, u32),
> {
    if row.len() <= cols.0 || row.len() <= cols.1 || row.len() <= cols.2 || row.len() <= cols.3
        || row.len() <= cols.4 || row.len() <= cols.5 {
        None
    } else {
        match (
            spec_parse_hex_u32(row[cols.1]),
            spec_parse_hex_u32(row[cols.2]),
            spec_parse_hex_u32(row[cols.3]),
            spec_parse_hex_u32(row[cols.4]),
            spec_parse_hex_u32(row[cols.5]),
        ) {
            (Some(code), Some(rodata), Some(data), Some(bss_offset), Some(bss_size)) => Some(
                (row[cols.0], code, rodata, data, bss_offset, bss_size),
            ),
            _ => None,
        }
    }
}

/// The bounds views rows `i..` denote, or `None` if any row is malformed.
pub open spec fn spec_bounds_from(
    rows: Seq<Seq<Seq<char>>>,
    i: int,
    cols: (int, int, int, int, int, int),
) -> Option<Seq<(Seq<char>, u32, u32, u32, u32, u32)>>
    decreases rows.len() - i,
{
    if i < 0 || i >= rows.len() {
        Some(Seq::empty())
    } else {
        match spec_bounds_of_row(rows[i], cols) {
            None => None,
            Some(v) => match spec_bounds_from(rows, i + 1, cols) {
                None => None,
                Some(rest) => Some(seq![v] + rest),
            },
        }
    }
}

/// The bounds table a tabular input denotes: `None` if the input is
/// malformed, lacks a required column, or has a bad row.
pub open spec fn spec_bounds_of(b: Seq<u8>) -> Option<Seq<(Seq<char>, u32, u32, u32, u32, u32)>> {
    match csv_rows_of(b) {
        None => None,
        Some(rows) => if rows.len() == 0 {
            None
        } else {
            match spec_bounds_cols(rows[0]) {
                None => None,
                Some(cols) => spec_bounds_from(rows, 1, cols),
            }
        },
    }
}

/// Parses the bounds table from a tabular input. Any malformation (a
/// missing column, an offset that is not fixed-width hexadecimal) is an
/// [`CrashError::InvalidField`].
#[verifier::rlimit(60)]
pub fn parse_bounds(b: &Vec<u8>) -> (r: Result<Vec<CsvBounds>, CrashError>)
    ensures
        match r {
            Ok(bounds) => spec_bounds_of(b@) == Some(
                bounds@.map_values(|x: CsvBounds| spec_bounds_view(x)),
            ),
            Err(e) => e == CrashError::InvalidField && spec_bounds_of(b@) is None,
        },
{
    let rows = match csv_rows(b) {
        Some(rows) => rows,
        None => {
            return Err(CrashError::InvalidField);
        },
    };
    if rows.len() == 0 {
        return Err(CrashError::InvalidField);
    }
    let vi = match find_col(&rows[0], "Version") {
        Some(k) => k,
        None => {
            return Err(CrashError::InvalidField);
        },
    };
    let ci = match find_col(&rows[0], "Code offset") {
        Some(k) => k,
        None => {
            return Err(CrashError::InvalidField);
        },
    };
    let ri = match find_col(&rows[0], "Rodata offset") {
        Some(k) => k,
        None => {
            return Err(CrashError::InvalidField);
        },
    };
    let di = match find_col(&rows[0], "Data offset") {
        Some(k) => k,
        None => {
            return Err(CrashError::InvalidField);
        },
    };
    let bi = match find_col(&rows[0], "BSS start") {
        Some(k) => k,
        None => match find_col(&rows[0], "BSS offset") {
            Some(k) => k,
            None => {
                return Err(CrashError::InvalidField);
            },
        },
    };
    let si = match find_col(&rows[0], "BSS size") {
        Some(k) => k,
        None => {
            return Err(CrashError::InvalidField);
        },
    };
    let ghost cols: (int, int, int, int, int, int) = (
        vi as int,
        ci as int,
        ri as int,
        di as int,
        bi as int,
        si as int,
    );
    proof {
        assert(rows.deep_view()[0] =~= rows@[0].deep_view());
        assert(spec_bounds_cols(rows.deep_view()[0]) == Some(cols));
    }
    let n = rows.len();
    let mut out: Vec<CsvBounds> = Vec::new();
    let mut i: usize = 1;
    while i < n
        invariant
            n == rows@.len(),
            1 <= i <= n,
            cols == (vi as int, ci as int, ri as int, di as int, bi as int, si as int),
            csv_rows_of(b@) == Some(rows.deep_view()),
            spec_bounds_cols(rows.deep_view()[0]) == Some(cols),
            spec_bounds_from(rows.deep_view(), 1, cols) == (match spec_bounds_from(
                rows.deep_view(),
                i as int,
                cols,
            ) {
                None => None::<Seq<(Seq<char>, u32, u32, u32, u32, u32)>>,
                Some(rest) => Some(out@.map_values(|x: CsvBounds| spec_bounds_view(x)) + rest),
            }),
        decreases n - i,
    {
        let row = &rows[i];
        proof {
            assert(rows.deep_view()[i as int] =~= row.deep_view());
            assert(rows.deep_view()[i as int].len() == row@.len());
        }
        if row.len() <= vi || row.len() <= ci || row.len() <= ri || row.len() <= di || row.len()
            <= bi || row.len() <= si {
            return Err(CrashError::InvalidField);
        }
        proof {
            assert(row.deep_view()[vi as int] == row@[vi as int]@);
            assert(row.deep_view()[ci as int] == row@[ci as int]@);
            assert(row.deep_view()[ri as int] == row@[ri as int]@);
            assert(row.deep_view()[di as int] == row@[di as int]@);
            assert(row.deep_view()[bi as int] == row@[bi as int]@);
            assert(row.deep_view()[si as int] == row@[si as int]@);
        }
        let code = match parse_hex_u32(row[ci].as_str()) {
            Some(x) => x,
            None => {
                return Err(CrashError::InvalidField);
            },
        };
        let rodata = match parse_hex_u32(row[ri].as_str()) {
            Some(x) => x,
            None => {
                return Err(CrashError::InvalidField);
            },
        };
        let data = match parse_hex_u32(row[di].as_str()) {
            Some(x) => x,
            None => {
                return Err(CrashError::InvalidField);
            },
        };
        let bss_offset = match parse_hex_u32(row[bi].as_str()) {
            Some(x) => x,
            None => {
                return Err(CrashError::InvalidField);
            },
        };
        let bss_size = match parse_hex_u32(row[si].as_str()) {
            Some(x) => x,
            None => {
                return Err(CrashError::InvalidField);
            },
        };
        let bounds_row = CsvBounds {
            version: row[vi].clone(),
            code,
            rodata,
            data,
            bss_offset,
            bss_size,
        };
        proof {
            assert(spec_bounds_of_row(rows.deep_view()[i as int], cols) == Some(
                spec_bounds_view(bounds_row),
            ));
        }
        let ghost prev = out@;
        out.push(bounds_row);
        i = i + 1;
        proof {
            assert(out@.map_values(|x: CsvBounds| spec_bounds_view(x)) =~= prev.map_values(
                |x: CsvBounds| spec_bounds_view(x),
            ).push(spec_bounds_view(bounds_row)));
            if let Some(rest) = spec_bounds_from(rows.deep_view(), i as int, cols) {
                assert(prev.map_values(|x: CsvBounds| spec_bounds_view(x)) + (seq![
                    spec_bounds_view(bounds_row),
                ] + rest) =~= out@.map_values(|x: CsvBounds| spec_bounds_view(x)) + rest);
            }
        }
    }
    proof {
        assert(spec_bounds_from(rows.deep_view(), i as int, cols) == Some(
            Seq::<(Seq<char>, u32, u32, u32, u32, u32)>::empty(),
        ));
        assert(out@.map_values(|x: CsvBounds| spec_bounds_view(x)) + Seq::<
            (Seq<char>, u32, u32, u32, u32, u32),
        >::empty() =~= out@.map_values(|x: CsvBounds| spec_bounds_view(x)));
    }
    Ok(out)
}

/// A resolved address: the queried position, the matched symbol's own
/// address, and its display name.
#[derive(Debug, Clone)]
pub struct Function {
    pub reg_pos: u32,
    pub func_pos: u32,
    pub symbol: String,
}

/// A resolution outcome: a matched symbol, or the raw address when it lies
/// outside both bounded address spaces or precedes every symbol.
#[derive(Debug, Clone)]
pub enum MaybeFunction {
    Function(Function),
    Oob(u32),
}

impl MaybeFunction {
    /// The queried address either outcome carries.
    pub open spec fn spec_raw_pos(&self) -> u32 {
        match self {
            MaybeFunction::Function(c) => c.reg_pos,
            MaybeFunction::Oob(pos) => *pos,
        }
    }

    /// Returns the queried address either outcome carries.
    pub fn get_raw_pos(&self) -> (r: u32)
        ensures
            r == self.spec_raw_pos(),
    {
        match self {
            MaybeFunction::Function(c) => c.reg_pos,
            MaybeFunction::Oob(pos) => *pos,
        }
    }
}

/// The two independently opened symbol tables (the secondary one optional)
/// and the two resolved address-space upper bounds, unset until
/// [`Symbols::init_bounds`] runs.
#[derive(Debug, Clone)]
pub struct Symbols {
    pub megamix: Vec<CsvSymbol>,
    pub saltwater: Option<Vec<CsvSymbol>>,
    pub megamix_end: Option<u32>,
    pub saltwater_end: Option<u32>,
}

/// The nearest-preceding-address scan over one table from index `i`,
/// carrying the best entry so far: it keeps the most recent entry whose
/// address is at most `pos`, stops at the first entry beyond `pos`, and
/// reports a contract violation the moment the assumed-ascending order is
/// seen broken.
pub open spec fn spec_scan_syms(
    tbl: Seq<CsvSymbol>,
    pos: u32,
    i: int,
    cur: Option<(u32, Seq<char>)>,
) -> Result<Option<(u32, Seq<char>)>, CrashError>
    decreases tbl.len() - i,
{
    if i < 0 || i >= tbl.len() {
        Ok(cur)
    } else if cur matches Some(c) && tbl[i].location < c.0 {
        Err(CrashError::ContractViolation)
    } else if tbl[i].location > pos {
        Ok(cur)
    } else {
        spec_scan_syms(tbl, pos, i + 1, Some((tbl[i].location, tbl[i].spec_full_name())))
    }
}

/// The predecessor lookup over one whole table.
pub open spec fn spec_lookup(tbl: Seq<CsvSymbol>, pos: u32) -> Result<
    Option<(u32, Seq<char>)>,
    CrashError,
> {
    spec_scan_syms(tbl, pos, 0, None)
}

/// What [`Symbols::find_symbol`] returns for an address: a lookup in the
/// primary space `[0x0010_0000, megamix_end)`, a lookup in the secondary
/// space `[0x0700_0000, saltwater_end]` when a secondary table is present,
/// `None` outside both, and a contract violation when the needed bound was
/// never established.
pub open spec fn spec_find_symbol(s: Symbols, pos: u32) -> Result<
    Option<(u32, Seq<char>)>,
    CrashError,
> {
    match s.megamix_end {
        None => Err(CrashError::ContractViolation),
        Some(mm_end) => if 0x00100000 <= pos && pos < mm_end {
            spec_lookup(s.megamix@, pos)
        } else if pos >= 0x07000000 && s.saltwater is Some {
            match s.saltwater_end {
                None => Err(CrashError::ContractViolation),
                Some(sw_end) => if pos <= sw_end {
                    spec_lookup(s.saltwater->Some_0@, pos)
                } else {
                    Ok(None)
                },
            }
        } else {
            Ok(None)
        },
    }
}

/// The view of a partial scan result.
pub open spec fn spec_cur_view(cur: Option<(u32, String)>) -> Option<(u32, Seq<char>)> {
    match cur {
        Some(c) => Some((c.0, c.1@)),
        None => None,
    }
}

/// Scans one table for the entry with the greatest address at most `pos`.
fn scan_table(tbl: &Vec<CsvSymbol>, pos: u32) -> (r: Result<Option<(u32, String)>, CrashError>)
    ensures
        match r {
            Ok(cur) => spec_lookup(tbl@, pos) == Ok::<_, CrashError>(spec_cur_view(cur)),
            Err(e) => spec_lookup(tbl@, pos) == Err::<Option<(u32, Seq<char>)>, _>(e),
        },
{
    let n = tbl.len();
    let mut cur: Option<(u32, String)> = None;
    let mut i: usize = 0;
    while i < n
        invariant
            n == tbl@.len(),
            i <= n,
            spec_lookup(tbl@, pos) == spec_scan_syms(tbl@, pos, i as int, spec_cur_view(cur)),
            (cur matches Some(c) ==> c.0 <= pos),
        decreases n - i,
    {
        let sym = &tbl[i];
        if let Some(c) = &cur {
            if sym.location < c.0 {
                return Err(CrashError::ContractViolation);
            }
        }
        if sym.location > pos {
            return Ok(cur);
        }
        cur = Some((sym.location, sym.full_name()));
        i = i + 1;
    }
    Ok(cur)
}

impl Symbols {
    /// Builds a resolver over an already-parsed primary table and an
    /// optional secondary one; both bounds start unset.
    pub fn new(megamix: Vec<CsvSymbol>, saltwater: Option<Vec<CsvSymbol>>) -> (r: Symbols)
        ensures
            r.megamix == megamix,
            r.saltwater == saltwater,
            r.megamix_end is None,
            r.saltwater_end is None,
    {
        Symbols { megamix, saltwater, megamix_end: None, saltwater_end: None }
    }

    /// Establishes the two address-space bounds: the primary bound is the
    /// rodata offset of the first bounds row matching the region
    /// ([`CrashError::UnknownRegion`] if none does), and the secondary
    /// bound, when a secondary table is present, is the address of its
    /// first end-of-text sentinel symbol
    /// ([`CrashError::MissingSentinelSymbol`] if the table has none).
    pub fn init_bounds(&mut self, region: Region, bounds: &Vec<CsvBounds>) -> (r: Result<
        (),
        CrashError,
    >)
        ensures
            final(self).megamix == old(self).megamix,
            final(self).saltwater == old(self).saltwater,
            match r {
                Ok(_) => {
                    &&& (spec_first_bounds(bounds@, region) matches Some(j) && final(self).megamix_end == Some(bounds@[j].rodata))
                    &&& (match old(self).saltwater {
                        Some(tbl) => spec_first_sentinel(tbl@) matches Some(k) && final(self).saltwater_end == Some(tbl@[k].location),
                        None => final(self).saltwater_end is None,
                    })
                },
                Err(e) => {
                    &&& (e == CrashError::UnknownRegion || e == CrashError::MissingSentinelSymbol)
                    &&& (e == CrashError::UnknownRegion ==> spec_first_bounds(bounds@, region)
                        is None && *final(self) == *old(self))
                    &&& (e == CrashError::MissingSentinelSymbol ==> {
                        &&& (spec_first_bounds(bounds@, region) matches Some(j) && final(self).megamix_end == Some(bounds@[j].rodata))
                        &&& (old(self).saltwater matches Some(tbl) && spec_first_sentinel(tbl@)
                            is None)
                        &&& final(self).saltwater_end == old(self).saltwater_end
                    })
                },
            },
    {
        let rodata = match find_bounds_rodata(bounds, region) {
            Some(rd) => rd,
            None => {
                return Err(CrashError::UnknownRegion);
            },
        };
        self.megamix_end = Some(rodata);
        match &self.saltwater {
            None => {
                self.saltwater_end = None;
                Ok(())
            },
            Some(tbl) => {
                match find_sentinel_location(tbl) {
                    Some(loc) => {
                        self.saltwater_end = Some(loc);
                        Ok(())
                    },
                    None => Err(CrashError::MissingSentinelSymbol),
                }
            },
        }
    }

    /// Resolves an address to the symbol with the greatest address not
    /// exceeding it, within whichever bounded address space contains it;
    /// an address outside both spaces, or preceding every symbol of its
    /// table, resolves to nothing, which is a normal outcome.
    pub fn find_symbol(&self, pos: u32) -> (r: Result<Option<Function>, CrashError>)
        ensures
            match r {
                Ok(opt) => {
                    &&& spec_find_symbol(*self, pos) == Ok::<_, CrashError>(
                        match opt {
                            Some(f) => Some((f.func_pos, f.symbol@)),
                            None => None::<(u32, Seq<char>)>,
                        },
                    )
                    &&& (opt matches Some(f) ==> f.reg_pos == pos)
                },
                Err(e) => spec_find_symbol(*self, pos) == Err::<Option<(u32, Seq<char>)>, _>(e),
            },
    {
        let mm_end = match self.megamix_end {
            Some(e) => e,
            None => {
                return Err(CrashError::ContractViolation);
            },
        };
        if 0x00100000 <= pos && pos < mm_end {
            match scan_table(&self.megamix, pos) {
                Err(e) => Err(e),
                Ok(None) => Ok(None),
                Ok(Some(c)) => Ok(
                    Some(Function { reg_pos: pos, func_pos: c.0, symbol: c.1 }),
                ),
            }
        } else if pos >= 0x07000000 {
            match &self.saltwater {
                None => Ok(None),
                Some(tbl) => {
                    let sw_end = match self.saltwater_end {
                        Some(e) => e,
                        None => {
                            return Err(CrashError::ContractViolation);
                        },
                    };
                    if pos <= sw_end {
                        match scan_table(tbl, pos) {
                            Err(e) => Err(e),
                            Ok(None) => Ok(None),
                            Ok(Some(c)) => Ok(
                                Some(Function { reg_pos: pos, func_pos: c.0, symbol: c.1 }),
                            ),
                        }
                    } else {
                        Ok(None)
                    }
                },
            }
        } else {
            Ok(None)
        }
    }
}

/// The rodata offset of the first bounds row matching the region.
pub fn find_bounds_rodata(bounds: &Vec<CsvBounds>, region: Region) -> (r: Option<u32>)
    ensures
        match r {
            Some(rd) => spec_first_bounds(bounds@, region) matches Some(j) && bounds@[j].rodata
                == rd,
            None => spec_first_bounds(bounds@, region) is None,
        },
{
    let nb = bounds.len();
    let mut j: usize = 0;
    while j < nb
        invariant
            nb == bounds@.len(),
            j <= nb,
            spec_first_bounds(bounds@, region) == spec_first_bounds_from(bounds@, region, j as int),
        decreases nb - j,
    {
        if region.matches(bounds[j].version.as_str()) {
            return Some(bounds[j].rodata);
        }
        j = j + 1;
    }
    None
}

/// The address of the first end-of-text sentinel of a table.
fn find_sentinel_location(tbl: &Vec<CsvSymbol>) -> (r: Option<u32>)
    ensures
        match r {
            Some(loc) => spec_first_sentinel(tbl@) matches Some(k) && tbl@[k].location == loc,
            None => spec_first_sentinel(tbl@) is None,
        },
{
    let nt = tbl.len();
    let mut k: usize = 0;
    while k < nt
        invariant
            nt == tbl@.len(),
            k <= nt,
            spec_first_sentinel(tbl@) == spec_first_sentinel_from(tbl@, k as int),
        decreases nt - k,
    {
        let full = tbl[k].full_name();
        if str_eq(full.as_str(), "_TEXT_END") {
            return Some(tbl[k].location);
        }
        k = k + 1;
    }
    None
}

/// The first bounds row matching the region, scanning from `j`.
pub open spec fn spec_first_bounds_from(rows: Seq<CsvBounds>, region: Region, j: int) -> Option<
    int,
>
    decreases rows.len() - j,
{
    if j < 0 || j >= rows.len() {
        None
    } else if region.spec_matches(rows[j].version@) {
        Some(j)
    } else {
        spec_first_bounds_from(rows, region, j + 1)
    }
}

/// The first bounds row matching the region.
pub open spec fn spec_first_bounds(rows: Seq<CsvBounds>, region: Region) -> Option<int> {
    spec_first_bounds_from(rows, region, 0)
}

/// The first end-of-text sentinel of a table, scanning from `k`.
pub open spec fn spec_first_sentinel_from(tbl: Seq<CsvSymbol>, k: int) -> Option<int>
    decreases tbl.len() - k,
{
    if k < 0 || k >= tbl.len() {
        None
    } else if tbl[k].spec_full_name() == "_TEXT_END"@ {
        Some(k)
    } else {
        spec_first_sentinel_from(tbl, k + 1)
    }
}

/// The first end-of-text sentinel of a table.
pub open spec fn spec_first_sentinel(tbl: Seq<CsvSymbol>) -> Option<int> {
    spec_first_sentinel_from(tbl, 0)
}

/// Whether a table is sorted ascending by address, as every symbol input
/// must be.
pub open spec fn spec_sorted_by_addr(tbl: Seq<CsvSymbol>) -> bool {
    forall|i: int, j: int|
        0 <= i < j < tbl.len() ==> #[trigger] tbl[i].location <= #[trigger] tbl[j].location
}

/// The scan from `i` with best-so-far `cur` over a sorted table never
/// reports a violation and ends on the entry with the greatest address not
/// exceeding `pos`.
proof fn lemma_scan_sorted(tbl: Seq<CsvSymbol>, pos: u32, i: int, cur: Option<(u32, Seq<char>)>)
    requires
        spec_sorted_by_addr(tbl),
        0 <= i <= tbl.len(),
        cur matches Some(c) ==> c.0 <= pos && (exists|k: int|
            0 <= k < i && #[trigger] tbl[k].location == c.0 && tbl[k].spec_full_name() == c.1)
            && (forall|j: int|
            0 <= j < i && #[trigger] tbl[j].location <= pos ==> tbl[j].location <= c.0),
        cur is None ==> (forall|j: int| 0 <= j < i ==> #[trigger] tbl[j].location > pos),
    ensures
        spec_scan_syms(tbl, pos, i, cur) is Ok,
        match spec_scan_syms(tbl, pos, i, cur) {
            Ok(None) => forall|j: int| 0 <= j < tbl.len() ==> #[trigger] tbl[j].location > pos,
            Ok(Some(v)) => v.0 <= pos && (exists|k: int|
                0 <= k < tbl.len() && #[trigger] tbl[k].location == v.0 && tbl[k].spec_full_name()
                    == v.1) && (forall|j: int|
                0 <= j < tbl.len() && #[trigger] tbl[j].location <= pos ==> tbl[j].location
                    <= v.0),
            Err(_) => false,
        },
    decreases tbl.len() - i,
{
    if i < tbl.len() {
        if cur is Some {
            let c = cur->Some_0;
            if tbl[i].location < c.0 {
                let k = choose|k: int|
                    0 <= k < i && #[trigger] tbl[k].location == c.0 && tbl[k].spec_full_name()
                        == c.1;
                assert(tbl[k].location <= tbl[i].location);
                assert(false);
            }
        }
        if tbl[i].location > pos {
            assert forall|j: int| i <= j < tbl.len() implies #[trigger] tbl[j].location > pos by {
                assert(tbl[i].location <= tbl[j].location);
            }
        } else {
            assert forall|j: int|
                0 <= j < i + 1 && #[trigger] tbl[j].location <= pos implies tbl[j].location
                <= tbl[i].location by {
                if j < i {
                    assert(tbl[j].location <= tbl[i].location);
                }
            }
            lemma_scan_sorted(tbl, pos, i + 1, Some((tbl[i].location, tbl[i].spec_full_name())));
        }
    }
}

/// Over a table sorted ascending by address, the predecessor lookup never
/// reports a violation and returns exactly the entry with the greatest
/// address not exceeding the queried one — or nothing, when every entry
/// lies beyond it.
pub proof fn lemma_lookup_nearest_preceding(tbl: Seq<CsvSymbol>, pos: u32)
    requires
        spec_sorted_by_addr(tbl),
    ensures
        spec_lookup(tbl, pos) is Ok,
        match spec_lookup(tbl, pos) {
            Ok(None) => forall|j: int| 0 <= j < tbl.len() ==> #[trigger] tbl[j].location > pos,
            Ok(Some(v)) => v.0 <= pos && (exists|k: int|
                0 <= k < tbl.len() && #[trigger] tbl[k].location == v.0 && tbl[k].spec_full_name()
                    == v.1) && (forall|j: int|
                0 <= j < tbl.len() && #[trigger] tbl[j].location <= pos ==> tbl[j].location
                    <= v.0),
            Err(_) => false,
        },
{
    lemma_scan_sorted(tbl, pos, 0, None);
}

/// The table [`Symbols::find_symbol`] consults for an address: the primary
/// table inside the primary space, the secondary table inside the secondary
/// space when one is present, none elsewhere.
pub open spec fn spec_governing_table(s: Symbols, pos: u32) -> Option<Seq<CsvSymbol>> {
    if 0x00100000 <= pos && pos < s.megamix_end->Some_0 {
        Some(s.megamix@)
    } else if pos >= 0x07000000 && s.saltwater is Some && pos <= s.saltwater_end->Some_0 {
        Some(s.saltwater->Some_0@)
    } else {
        None
    }
}

/// Over sorted tables with established bounds, `find_symbol` never fails,
/// returns no match for every address outside both configured spaces, and
/// inside a space returns exactly the governing table's entry with the
/// greatest address not exceeding the queried one — or no match when every
/// entry lies beyond it.
pub proof fn lemma_find_symbol_nearest_preceding(s: Symbols, pos: u32)
    requires
        s.megamix_end is Some,
        s.saltwater is Some ==> s.saltwater_end is Some,
        spec_sorted_by_addr(s.megamix@),
        (s.saltwater matches Some(t) ==> spec_sorted_by_addr(t@)),
    ensures
        spec_find_symbol(s, pos) is Ok,
        match spec_governing_table(s, pos) {
            None => spec_find_symbol(s, pos) == Ok::<_, CrashError>(None::<(u32, Seq<char>)>),
            Some(t) => match spec_find_symbol(s, pos) {
                Ok(None) => forall|j: int| 0 <= j < t.len() ==> #[trigger] t[j].location > pos,
                Ok(Some(v)) => v.0 <= pos && (exists|k: int|
                    0 <= k < t.len() && #[trigger] t[k].location == v.0 && t[k].spec_full_name()
                        == v.1) && (forall|j: int|
                    0 <= j < t.len() && #[trigger] t[j].location <= pos ==> t[j].location <= v.0),
                Err(_) => false,
            },
        },
{
    if 0x00100000 <= pos && pos < s.megamix_end->Some_0 {
        lemma_lookup_nearest_preceding(s.megamix@, pos);
    } else if pos >= 0x07000000 && s.saltwater is Some && pos <= s.saltwater_end->Some_0 {
        lemma_lookup_nearest_preceding(s.saltwater->Some_0@, pos);
    }
}

/// Lookup is idempotent: what `find_symbol` returns is a function of the
/// resolver state and the queried address alone, so repeated calls with the
/// same address over unchanged tables return identical results.
pub proof fn lemma_find_symbol_idempotent(
    s: Symbols,
    pos: u32,
    r1: Result<Option<(u32, Seq<char>)>, CrashError>,
    r2: Result<Option<(u32, Seq<char>)>, CrashError>,
)
    requires
        r1 == spec_find_symbol(s, pos),
        r2 == spec_find_symbol(s, pos),
    ensures
        r1 == r2,
{
}

/// Whether `mf` is the correct resolution of `pos` against `s`: the matched
/// symbol when the lookup finds one, the raw address marked out of bounds
/// when it does not.
pub open spec fn spec_resolved(s: Symbols, pos: u32, mf: MaybeFunction) -> bool {
    match spec_find_symbol(s, pos) {
        Ok(opt) => match opt {
            Some(v) => mf matches MaybeFunction::Function(f) && f.reg_pos == pos && f.func_pos
                == v.0 && f.symbol@ == v.1,
            None => mf == MaybeFunction::Oob(pos),
        },
        Err(_) => false,
    }
}

/// The call-stack addresses of a crash, empty when none were reconstructed.
pub open spec fn spec_cs(crash: CrashInfo) -> Seq<u32> {
    match crash.call_stack {
        Some(cs) => cs@,
        None => Seq::empty(),
    }
}

/// The symbolized report: the engine identity and the program counter, link
/// register, and call-stack entries, each resolved to the nearest preceding
/// symbol or marked out of bounds.
#[derive(Debug, Clone)]
pub struct CrashAnalysis {
    pub ctype: ModdingEngine,
    pub pc: MaybeFunction,
    pub lr: MaybeFunction,
    pub call_stack: Vec<MaybeFunction>,
}

impl CrashAnalysis {
    /// The region the analyzed crash belongs to.
    pub fn region(&self) -> (r: Region)
        ensures
            r == self.ctype.spec_region(),
    {
        self.ctype.region()
    }

    /// Builds the symbolized report for a crash over an initialized
    /// resolver: the program counter, link register, and every call-stack
    /// entry are each resolved or marked out of bounds. The unknown-region
    /// sentinel is a valid decode result but an invalid input to
    /// resolution, so such a crash is rejected outright as a contract
    /// violation; otherwise the analysis fails only as a lookup does, that
    /// is when the resolver's bounds were never established or a table is
    /// seen out of order.
    pub fn from(crash: &CrashInfo, symbols: &Symbols) -> (r: Result<CrashAnalysis, CrashError>)
        ensures
            match r {
                Ok(a) => {
                    &&& !(crash.engine.spec_region() is UNK)
                    &&& a.ctype == crash.engine
                    &&& spec_resolved(*symbols, crash.pc, a.pc)
                    &&& spec_resolved(*symbols, crash.lr, a.lr)
                    &&& a.call_stack@.len() == spec_cs(*crash).len()
                    &&& (forall|i: int|
                        0 <= i < a.call_stack@.len() ==> spec_resolved(
                            *symbols,
                            spec_cs(*crash)[i],
                            a.call_stack@[i],
                        ))
                },
                Err(e) => (crash.engine.spec_region() is UNK && e
                    == CrashError::ContractViolation) || (!(crash.engine.spec_region() is UNK)
                    && (spec_find_symbol(*symbols, crash.pc) == Err::<
                    Option<(u32, Seq<char>)>,
                    _,
                >(e) || spec_find_symbol(*symbols, crash.lr) == Err::<
                    Option<(u32, Seq<char>)>,
                    _,
                >(e) || (exists|i: int|
                    0 <= i < spec_cs(*crash).len() && #[trigger] spec_find_symbol(
                        *symbols,
                        spec_cs(*crash)[i],
                    ) == Err::<Option<(u32, Seq<char>)>, _>(e)))),
            },
            (!(crash.engine.spec_region() is UNK) && spec_find_symbol(*symbols, crash.pc) is Ok
                && spec_find_symbol(*symbols, crash.lr) is Ok && (forall|i: int|
                0 <= i < spec_cs(*crash).len() ==> #[trigger] spec_find_symbol(
                    *symbols,
                    spec_cs(*crash)[i],
                ) is Ok)) ==> r is Ok,
    {
        let region = crash.region();
        if let Region::UNK = region {
            return Err(CrashError::ContractViolation);
        }
        let pc = match symbols.find_symbol(crash.pc) {
            Err(e) => {
                return Err(e);
            },
            Ok(Some(f)) => MaybeFunction::Function(f),
            Ok(None) => MaybeFunction::Oob(crash.pc),
        };
        let lr = match symbols.find_symbol(crash.lr) {
            Err(e) => {
                return Err(e);
            },
            Ok(Some(f)) => MaybeFunction::Function(f),
            Ok(None) => MaybeFunction::Oob(crash.lr),
        };
        let mut call_stack: Vec<MaybeFunction> = Vec::new();
        match &crash.call_stack {
            None => {},
            Some(cs) => {
                let n = cs.len();
                let mut i: usize = 0;
                while i < n
                    invariant
                        !(crash.engine.spec_region() is UNK),
                        n == cs@.len(),
                        i <= n,
                        cs@ == spec_cs(*crash),
                        call_stack@.len() == i,
                        forall|j: int|
                            0 <= j < i ==> spec_resolved(*symbols, cs@[j], call_stack@[j]),
                    decreases n - i,
                {
                    let entry = match symbols.find_symbol(cs[i]) {
                        Err(e) => {
                            return Err(e);
                        },
                        Ok(Some(f)) => MaybeFunction::Function(f),
                        Ok(None) => MaybeFunction::Oob(cs[i]),
                    };
                    call_stack.push(entry);
                    i = i + 1;
                }
            },
        }
        Ok(CrashAnalysis { ctype: crash.engine.duplicate(), pc, lr, call_stack })
    }
}

/// What `String::from_utf8` yields for a byte input, as a function of the
/// bytes alone.
pub uninterp spec fn utf8_decode_of(bytes: Seq<u8>) -> Option<Seq<char>>;

/// Relies on `String::from_utf8`: bytes that are not valid UTF-8 are
/// rejected, and bytes that are all ASCII decode to exactly those
/// characters.
#[verifier::external_body]
fn utf8_string(bytes: Vec<u8>) -> (r: Option<String>)
    ensures
        (r matches Some(s) ==> utf8_decode_of(bytes@) == Some(s@)),
        (r is None ==> utf8_decode_of(bytes@) is None),
        (r matches Some(s) ==> ((forall|i: int| 0 <= i < bytes@.len() ==> bytes@[i] < 0x80) ==> s@
            == bytes@.map_values(|x: u8| x as char))),
        (forall|i: int| 0 <= i < bytes@.len() ==> bytes@[i] < 0x80) ==> r is Some,
{
    String::from_utf8(bytes).ok()
}

/// The index of the first zero byte at or after `k`, if any.
pub open spec fn spec_nul_from(b: Seq<u8>, k: int) -> Option<int>
    decreases b.len() - k,
{
    if k < 0 || k >= b.len() {
        None
    } else if b[k] == 0 {
        Some(k)
    } else {
        spec_nul_from(b, k + 1)
    }
}

/// Scanning onward from a run of nonzero bytes lands on the first zero.
proof fn lemma_nul_from(b: Seq<u8>, k: int, j: int)
    requires
        0 <= k <= j <= b.len(),
        forall|m: int| k <= m < j ==> b[m] != 0,
        j < b.len() ==> b[j] == 0,
    ensures
        j < b.len() ==> spec_nul_from(b, k) == Some(j),
        j == b.len() ==> spec_nul_from(b, k) is None,
    decreases j - k,
{
    if k < j {
        lemma_nul_from(b, k + 1, j);
    }
}

/// Whether the 8-byte ASCII magic of the plugin container is present.
pub open spec fn spec_3gx_magic_ok(b: Seq<u8>) -> bool {
    &&& b[0] == 0x33u8  // '3'
    &&& b[1] == 0x47u8  // 'G'
    &&& b[2] == 0x58u8  // 'X'
    &&& b[3] == 0x24u8  // '$'
    &&& b[4] == 0x30u8  // '0'
    &&& b[5] == 0x30u8  // '0'
    &&& b[6] == 0x30u8  // '0'
    &&& b[7] == 0x32u8  // '2'
}

/// One symbol-table entry of the container: its address and the
/// null-terminated name the entry's offset points into the name table, or
/// the error reading it fails with (a short buffer or a name that is not
/// valid text).
pub open spec fn spec_extract_entry(b: Seq<u8>, sym_off: int, name_tab: int, i: int) -> Result<
    (u32, Seq<char>),
    CrashError,
> {
    let off = sym_off + 12 * i;
    if off + 12 > b.len() {
        Err(CrashError::Truncated)
    } else {
        let npos = name_tab + le32_at(b, off + 8);
        match spec_nul_from(b, npos) {
            None => Err(CrashError::Truncated),
            Some(end) => match utf8_decode_of(b.subrange(npos, end)) {
                None => Err(CrashError::InvalidField),
                Some(name) => Ok((le32_at(b, off), name)),
            },
        }
    }
}

/// The entries the extractor emits from index `i` on: it stops without
/// error right after an end-of-text sentinel, since container entries are
/// known to be address-sorted and nothing beyond the sentinel is needed.
pub open spec fn spec_extract_from(b: Seq<u8>, sym_off: int, name_tab: int, i: int, n: int) -> Result<
    Seq<(u32, Seq<char>)>,
    CrashError,
>
    decreases n - i,
{
    if i < 0 || i >= n {
        Ok(Seq::empty())
    } else {
        match spec_extract_entry(b, sym_off, name_tab, i) {
            Err(e) => Err(e),
            Ok(ent) => if ent.1 == "_TEXT_END"@ {
                Ok(seq![ent])
            } else {
                match spec_extract_from(b, sym_off, name_tab, i + 1, n) {
                    Err(e) => Err(e),
                    Ok(rest) => Ok(seq![ent] + rest),
                }
            },
        }
    }
}

/// The symbols a plugin container denotes: after the magic, three header
/// words (entry count, symbol-table offset, name-table offset) at the fixed
/// header position, then one 12-byte record per entry.
pub open spec fn spec_extract_3gx(b: Seq<u8>) -> Result<Seq<(u32, Seq<char>)>, CrashError> {
    if b.len() < 8 {
        Err(CrashError::Truncated)
    } else if !spec_3gx_magic_ok(b) {
        Err(CrashError::NotThisFormat)
    } else if b.len() < 0x94 {
        Err(CrashError::Truncated)
    } else {
        spec_extract_from(
            b,
            le32_at(b, 0x8c) as int,
            le32_at(b, 0x90) as int,
            0,
            le32_at(b, 0x88) as int,
        )
    }
}

/// The view of an extracted symbol row.
pub open spec fn spec_extracted_view(s: CsvSymbol) -> (u32, Seq<char>) {
    (s.location, s.name@)
}

/// Extracts the symbol table of a plugin container into symbol rows (no
/// namespaces), stopping right after the end-of-text sentinel when one is
/// reached.
#[verifier::rlimit(60)]
pub fn ctrplugin_symbols(buf: &Vec<u8>) -> (r: Result<Vec<CsvSymbol>, CrashError>)
    ensures
        match r {
            Ok(syms) => {
                &&& spec_extract_3gx(buf@) == Ok::<_, CrashError>(
                    syms@.map_values(|s: CsvSymbol| spec_extracted_view(s)),
                )
                &&& (forall|i: int| 0 <= i < syms@.len() ==> syms@[i].namespace is None)
            },
            Err(e) => spec_extract_3gx(buf@) == Err::<Seq<(u32, Seq<char>)>, _>(e),
        },
{
    let len = buf.len();
    if len < 8 {
        return Err(CrashError::Truncated);
    }
    if !(buf[0] == 0x33 && buf[1] == 0x47 && buf[2] == 0x58 && buf[3] == 0x24 && buf[4] == 0x30
        && buf[5] == 0x30 && buf[6] == 0x30 && buf[7] == 0x32) {
        return Err(CrashError::NotThisFormat);
    }
    if len < 0x94 {
        return Err(CrashError::Truncated);
    }
    let num_symbols = read_u32_le(buf, 0x88);
    let symbols_offset = read_u32_le(buf, 0x8c);
    let name_table = read_u32_le(buf, 0x90);
    let ghost so: int = symbols_offset as int;
    let ghost nt: int = name_table as int;
    let ghost nn: int = num_symbols as int;

    let mut out: Vec<CsvSymbol> = Vec::new();
    let mut i: u32 = 0;
    while i < num_symbols
        invariant
            len == buf@.len(),
            i <= num_symbols,
            so == symbols_offset as int,
            nt == name_table as int,
            nn == num_symbols as int,
            forall|j: int| 0 <= j < out@.len() ==> out@[j].namespace is None,
            spec_extract_3gx(buf@) == spec_extract_from(buf@, so, nt, 0, nn),
            spec_extract_from(buf@, so, nt, 0, nn) == (match spec_extract_from(
                buf@,
                so,
                nt,
                i as int,
                nn,
            ) {
                Err(e) => Err::<Seq<(u32, Seq<char>)>, _>(e),
                Ok(rest) => Ok(
                    out@.map_values(|s: CsvSymbol| spec_extracted_view(s)) + rest,
                ),
            }),
        decreases num_symbols - i,
    {
        let off64: u64 = symbols_offset as u64 + 12 * (i as u64);
        if off64 + 12 > len as u64 {
            return Err(CrashError::Truncated);
        }
        let off: usize = off64 as usize;
        let location = read_u32_le(buf, off);
        let name_pos = read_u32_le(buf, off + 8);
        let npos64: u64 = name_table as u64 + name_pos as u64;
        let ghost npos: int = nt + le32_at(buf@, off as int + 8);

        if npos64 >= len as u64 {
            proof {
                assert(spec_nul_from(buf@, npos) is None);
            }
            return Err(CrashError::Truncated);
        }
        let start: usize = npos64 as usize;
        let mut j: usize = start;
        while j < len && buf[j] != 0
            invariant
                len == buf@.len(),
                start <= j <= len,
                start == npos,
                forall|m: int| start <= m < j ==> buf@[m] != 0,
            decreases len - j,
        {
            j = j + 1;
        }
        proof {
            lemma_nul_from(buf@, npos, j as int);
        }
        if j == len {
            return Err(CrashError::Truncated);
        }
        let name_bytes = copy_range(buf, start, j - start);
        let name = match utf8_string(name_bytes) {
            Some(s) => s,
            None => {
                return Err(CrashError::InvalidField);
            },
        };
        let sym = CsvSymbol { name, location, namespace: None };
        proof {
            assert(spec_extract_entry(buf@, so, nt, i as int) == Ok::<_, CrashError>(
                spec_extracted_view(sym),
            ));
        }
        let is_sentinel = str_eq(sym.name.as_str(), "_TEXT_END");
        let ghost prev = out@;
        out.push(sym);
        proof {
            assert(out@.map_values(|s: CsvSymbol| spec_extracted_view(s)) =~= prev.map_values(
                |s: CsvSymbol| spec_extracted_view(s),
            ).push((location, out@[out@.len() - 1].name@)));
        }
        if is_sentinel {
            proof {
                assert(spec_extract_from(buf@, so, nt, i as int, nn) == Ok::<_, CrashError>(
                    seq![(location, out@[out@.len() - 1].name@)],
                ));
                assert(prev.map_values(|s: CsvSymbol| spec_extracted_view(s)) + seq![
                    (location, out@[out@.len() - 1].name@),
                ] =~= out@.map_values(|s: CsvSymbol| spec_extracted_view(s)));
            }
            return Ok(out);
        }
        i = i + 1;
        proof {
            if let Ok(rest) = spec_extract_from(buf@, so, nt, i as int, nn) {
                assert(prev.map_values(|s: CsvSymbol| spec_extracted_view(s)) + (seq![
                    (location, out@[out@.len() - 1].name@),
                ] + rest) =~= out@.map_values(|s: CsvSymbol| spec_extracted_view(s)) + rest);
            }
        }
    }
    proof {
        assert(spec_extract_from(buf@, so, nt, i as int, nn) == Ok::<_, CrashError>(
            Seq::<(u32, Seq<char>)>::empty(),
        ));
        assert(out@.map_values(|s: CsvSymbol| spec_extracted_view(s)) + Seq::<
            (u32, Seq<char>),
        >::empty() =~= out@.map_values(|s: CsvSymbol| spec_extracted_view(s)));
    }
    Ok(out)
}

/// Whether a byte is a lowercase hexadecimal digit character.
pub open spec fn spec_lhex_byte(x: u8) -> bool {
    (0x30 <= x && x <= 0x39) || (0x61 <= x && x <= 0x66)
}

/// Whether the commit-reference pattern (`rev ` followed by seven lowercase
/// hexadecimal digits) starts at offset `i`.
pub open spec fn spec_rev_at(b: Seq<u8>, i: int) -> bool {
    &&& 0 <= i
    &&& i + 11 <= b.len()
    &&& b[i] == 0x72u8  // 'r'
    &&& b[i + 1] == 0x65u8  // 'e'
    &&& b[i + 2] == 0x76u8  // 'v'
    &&& b[i + 3] == 0x20u8  // ' '
    &&& (forall|k: int| i + 4 <= k < i + 11 ==> spec_lhex_byte(b[k]))
}

/// The first offset where the commit-reference pattern starts, if any.
pub open spec fn spec_first_rev(b: Seq<u8>, i: int) -> Option<int>
    decreases b.len() - i,
{
    if i < 0 || i + 11 > b.len() {
        None
    } else if spec_rev_at(b, i) {
        Some(i)
    } else {
        spec_first_rev(b, i + 1)
    }
}

/// Finds the commit hash a debug plugin build embeds: the seven lowercase
/// hexadecimal digits after the first occurrence of the `rev ` marker.
pub fn get_3gx_commit_hash(buf: &Vec<u8>) -> (r: Option<String>)
    ensures
        match r {
            Some(s) => spec_first_rev(buf@, 0) matches Some(f) && s@ == Seq::new(
                7,
                |k: int| buf@[f + 4 + k] as char,
            ),
            None => spec_first_rev(buf@, 0) is None,
        },
{
    let len = buf.len();
    if len < 11 {
        return None;
    }
    let mut i: usize = 0;
    while i <= len - 11
        invariant
            len == buf@.len(),
            11 <= len,
            i <= len - 10,
            spec_first_rev(buf@, 0) == spec_first_rev(buf@, i as int),
        decreases len - i,
    {
        if buf[i] == 0x72 && buf[i + 1] == 0x65 && buf[i + 2] == 0x76 && buf[i + 3] == 0x20 {
            let mut k: usize = 0;
            let mut all_hex = true;
            while k < 7
                invariant
                    len == buf@.len(),
                    i + 11 <= len,
                    k <= 7,
                    all_hex ==> (forall|m: int|
                        0 <= m < k ==> #[trigger] spec_lhex_byte(buf@[i + 4 + m])),
                    !all_hex ==> !spec_rev_at(buf@, i as int),
                decreases 7 - k,
            {
                let x = buf[i + 4 + k];
                if !((0x30 <= x && x <= 0x39) || (0x61 <= x && x <= 0x66)) {
                    all_hex = false;
                }
                k = k + 1;
            }
            if all_hex {
                proof {
                    assert forall|k2: int| i + 4 <= k2 < i + 11 implies spec_lhex_byte(
                        buf@[k2],
                    ) by {
                        assert(spec_lhex_byte(buf@[i + 4 + (k2 - i - 4)]));
                    }
                }
                assert(spec_rev_at(buf@, i as int));
                let mut s = String::new();
                let mut m: usize = 0;
                while m < 7
                    invariant
                        len == buf@.len(),
                        i + 11 <= len,
                        m <= 7,
                        s@ == Seq::new(m as nat, |q: int| buf@[i + 4 + q] as char),
                    decreases 7 - m,
                {
                    let c: char = buf[i + 4 + m] as char;
                    s.push(c);
                    m = m + 1;
                    proof {
                        assert(s@ =~= Seq::new(m as nat, |q: int| buf@[i + 4 + q] as char));
                    }
                }
                return Some(s);
            }
        }
        proof {
            assert(!spec_rev_at(buf@, i as int));
        }
        i = i + 1;
    }
    None
}

} // verus!
