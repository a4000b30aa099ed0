use bertram::crash::analyze::CsvBounds;
use bertram::crash::saltwater::{Region, SWDType, SWDVersion};
use bertram::crash::solve::{SceneLoadDiagnosis, SolveDiagnosis};
use bertram::crash::{CrashError, CrashInfo, ModdingEngine};

fn us_crash(pc: u32, far: Option<u32>) -> CrashInfo {
    CrashInfo {
        engine: ModdingEngine::RHMPatch,
        r: None,
        sp: None,
        lr: 0,
        pc,
        cpsr: 0,
        dfsr: None,
        ifsr: None,
        far,
        fpexc: None,
        fpinst: None,
        fpinst2: None,
        stack: None,
        call_stack: None,
    }
}

fn bounds_row(version: &str, rodata: u32) -> CsvBounds {
    CsvBounds {
        version: version.to_string(),
        code: 0x00100000,
        rodata,
        data: 0x00300000,
        bss_offset: 0x00400000,
        bss_size: 0x1000,
    }
}

#[test]
fn dispatch_signature_fires_alone() {
    // pc equals the invalid-dispatch signature, far = 0x12345678:
    // exactly the dispatch diagnosis, carrying the fault address, and no
    // null-read fallback
    let crash = us_crash(0x0011e764, Some(0x12345678));
    let rows = vec![bounds_row("US", 0x00200000)];
    let out = SolveDiagnosis::find_matches(&crash, &rows).unwrap();
    assert_eq!(
        out,
        vec![SolveDiagnosis::InvalidTickflowAddress(Some(0x12345678))]
    );
}

#[test]
fn no_effect_memory_signature_fires() {
    let crash = us_crash(0x001392c4, None);
    let rows = vec![bounds_row("US", 0x00200000)];
    let out = SolveDiagnosis::find_matches(&crash, &rows).unwrap();
    assert_eq!(out, vec![SolveDiagnosis::NoEffectMemory]);
}

#[test]
fn non_executable_region_fires_past_rodata() {
    let crash = us_crash(0x00250000, None);
    let rows = vec![bounds_row("US", 0x00200000)];
    let out = SolveDiagnosis::find_matches(&crash, &rows).unwrap();
    assert_eq!(out, vec![SolveDiagnosis::NonExecRegion(0x00250000)]);
}

#[test]
fn forbidden_layout_fires_with_other_rules() {
    // the forbidden-layout signature is independent of the first three
    // rules: with a low rodata bound it fires together with the
    // non-executable-region rule, in the fixed enumeration order
    let crash = us_crash(0x0020b494, Some(0x10));
    let rows = vec![bounds_row("US", 0x00200000)];
    let out = SolveDiagnosis::find_matches(&crash, &rows).unwrap();
    assert_eq!(out.len(), 2);
    assert!(out.contains(&SolveDiagnosis::NonExecRegion(0x0020b494)));
    assert!(out.contains(&SolveDiagnosis::SceneLoadingError(
        SceneLoadDiagnosis::LowSlotLayout
    )));
    // the fallback stayed quiet although the fault address is low
    assert!(!out.contains(&SolveDiagnosis::NullRead));
}

#[test]
fn forbidden_layout_fires_alone_below_rodata() {
    let crash = us_crash(0x0020b494, None);
    let rows = vec![bounds_row("US", 0x00300000)];
    let out = SolveDiagnosis::find_matches(&crash, &rows).unwrap();
    assert_eq!(
        out,
        vec![SolveDiagnosis::SceneLoadingError(SceneLoadDiagnosis::LowSlotLayout)]
    );
}

#[test]
fn null_read_fires_only_when_nothing_else_did() {
    let rows = vec![bounds_row("US", 0x00200000)];

    let quiet = us_crash(0x00150000, Some(0x00000050));
    assert_eq!(
        SolveDiagnosis::find_matches(&quiet, &rows).unwrap(),
        vec![SolveDiagnosis::NullRead]
    );

    // a fault address at or past the code-space floor is no null read
    let high_far = us_crash(0x00150000, Some(0x00100000));
    assert_eq!(SolveDiagnosis::find_matches(&high_far, &rows).unwrap(), vec![]);

    // no fault address register, no fallback
    let no_far = us_crash(0x00150000, None);
    assert_eq!(SolveDiagnosis::find_matches(&no_far, &rows).unwrap(), vec![]);
}

#[test]
fn unknown_region_is_a_contract_violation() {
    let mut crash = us_crash(0x00150000, None);
    crash.engine = ModdingEngine::SpiceRack(
        SWDType::Short,
        SWDVersion::Release { major: 0, minor: 1, patch: 0 },
        Region::UNK,
    );
    let rows = vec![bounds_row("US", 0x00200000)];
    assert_eq!(
        SolveDiagnosis::find_matches(&crash, &rows).unwrap_err(),
        CrashError::ContractViolation
    );
}

#[test]
fn region_without_bounds_row_is_unknown() {
    let mut crash = us_crash(0x00150000, None);
    crash.engine = ModdingEngine::SpiceRack(
        SWDType::Short,
        SWDVersion::Release { major: 0, minor: 1, patch: 0 },
        Region::EU,
    );
    let rows = vec![bounds_row("US", 0x00200000)];
    assert_eq!(
        SolveDiagnosis::find_matches(&crash, &rows).unwrap_err(),
        CrashError::UnknownRegion
    );
}

#[test]
fn uncatalogued_region_is_unsupported() {
    let mut crash = us_crash(0x00150000, None);
    crash.engine = ModdingEngine::SpiceRack(
        SWDType::Short,
        SWDVersion::Release { major: 0, minor: 1, patch: 0 },
        Region::EU,
    );
    let rows = vec![bounds_row("US", 0x00200000), bounds_row("EU", 0x00200000)];
    assert_eq!(
        SolveDiagnosis::find_matches(&crash, &rows).unwrap_err(),
        CrashError::UnsupportedRegion
    );
}

#[test]
fn signature_addresses_are_catalogued_for_us() {
    assert_eq!(SolveDiagnosis::invalid_tickflow_address_pc(Region::US), 0x0011e764);
    assert_eq!(SolveDiagnosis::no_effect_memory_pc(Region::US), 0x001392c4);
    assert_eq!(SolveDiagnosis::scene_loading_lr(Region::US), 0x002471dc);
    assert_eq!(SolveDiagnosis::forbidden_layout_pc(Region::US), 0x0020b494);
}
