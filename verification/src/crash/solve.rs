//! The diagnosis engine: a region-scoped, ordered set of pattern rules
//! matched against the shared crash representation, producing zero or more
//! diagnosis tags.

use vstd::prelude::*;

use crate::crash::analyze::{spec_first_bounds, CsvBounds};
use crate::crash::saltwater::Region;
use crate::crash::{CrashError, CrashInfo};

verus! {

/// The program counter of the invalid-dispatch signature in the North
/// American image.
pub const INVALID_TICKFLOW_PC_US: u32 = 0x0011e764;

/// The program counter of the exhausted-auxiliary-memory signature in the
/// North American image.
pub const NO_EFFECT_MEMORY_PC_US: u32 = 0x001392c4;

/// The link register of the scene-loading signature in the North American
/// image.
pub const SCENE_LOADING_LR_US: u32 = 0x002471dc;

/// The program counter of the forbidden-layout-slot signature in the North
/// American image.
pub const FORBIDDEN_LAYOUT_PC_US: u32 = 0x0020b494;

/// The lower bound of the primary code space: a fault address below it is a
/// null-pointer read.
pub const NULL_READ_BOUND: u32 = 0x00100000;

/// One diagnosis tag.
#[derive(Debug, Clone, PartialEq, Eq, Structural)]
pub enum SolveDiagnosis {
    /// The engine tried to run tickflow at an invalid address; carries the
    /// fault address register when the dump recorded one.
    InvalidTickflowAddress(Option<u32>),
    /// The engine ran out of effect-file memory.
    NoEffectMemory,
    /// Something went wrong while loading a scene.
    SceneLoadingError(SceneLoadDiagnosis),
    /// Code ran in a non-executable region; carries the program counter.
    NonExecRegion(u32),
    /// A read through a null pointer.
    NullRead,
}

/// The flavor of a scene-loading diagnosis.
#[derive(Debug, Clone, Copy, PartialEq, Eq, Structural)]
pub enum SceneLoadDiagnosis {
    Generic,
    LowSlotLayout,
}

impl SolveDiagnosis {
    /// The invalid-dispatch signature address; catalogued for the North
    /// American region only.
    pub fn invalid_tickflow_address_pc(region: Region) -> (r: u32)
        requires
            region is US,
        ensures
            r == INVALID_TICKFLOW_PC_US,
    {
        INVALID_TICKFLOW_PC_US
    }

    /// The exhausted-auxiliary-memory signature address; catalogued for the
    /// North American region only.
    pub fn no_effect_memory_pc(region: Region) -> (r: u32)
        requires
            region is US,
        ensures
            r == NO_EFFECT_MEMORY_PC_US,
    {
        NO_EFFECT_MEMORY_PC_US
    }

    /// The scene-loading signature address; catalogued for the North
    /// American region only.
    pub fn scene_loading_lr(region: Region) -> (r: u32)
        requires
            region is US,
        ensures
            r == SCENE_LOADING_LR_US,
    {
        SCENE_LOADING_LR_US
    }

    /// The forbidden-layout-slot signature address; catalogued for the
    /// North American region only.
    pub fn forbidden_layout_pc(region: Region) -> (r: u32)
        requires
            region is US,
        ensures
            r == FORBIDDEN_LAYOUT_PC_US,
    {
        FORBIDDEN_LAYOUT_PC_US
    }

    /// Matches the crash against the catalogued signatures. The unknown
    /// region is rejected as a contract violation, a region without a
    /// bounds row as unknown, and a known region whose signatures are not
    /// yet catalogued as unsupported.
    pub fn find_matches(crash: &CrashInfo, bounds_rows: &Vec<CsvBounds>) -> (r: Result<
        Vec<SolveDiagnosis>,
        CrashError,
    >)
        ensures
            match r {
                Ok(out) => {
                    &&& crash.engine.spec_region() is US
                    &&& (spec_first_bounds(bounds_rows@, crash.engine.spec_region())
                        matches Some(j) && out@ == spec_diagnoses(
                        crash.pc,
                        crash.far,
                        bounds_rows@[j].rodata,
                    ))
                },
                Err(e) => {
                    &&& (e == CrashError::ContractViolation <==> crash.engine.spec_region()
                        is UNK)
                    &&& (e == CrashError::UnknownRegion <==> !(crash.engine.spec_region() is UNK)
                        && spec_first_bounds(bounds_rows@, crash.engine.spec_region()) is None)
                    &&& (e == CrashError::UnsupportedRegion <==> !(crash.engine.spec_region()
                        is UNK) && !(crash.engine.spec_region() is US) && spec_first_bounds(
                        bounds_rows@,
                        crash.engine.spec_region(),
                    ) is Some)
                    &&& (e == CrashError::ContractViolation || e == CrashError::UnknownRegion
                        || e == CrashError::UnsupportedRegion)
                },
            },
    {
        let region = crash.region();
        if let Region::UNK = region {
            return Err(CrashError::ContractViolation);
        }
        let rodata = match crate::crash::analyze::find_bounds_rodata(bounds_rows, region) {
            Some(rd) => rd,
            None => {
                return Err(CrashError::UnknownRegion);
            },
        };
        if !(region == Region::US) {
            return Err(CrashError::UnsupportedRegion);
        }

        let mut out: Vec<SolveDiagnosis> = Vec::new();
        if crash.pc == INVALID_TICKFLOW_PC_US {
            out.push(SolveDiagnosis::InvalidTickflowAddress(crash.far));
        } else if crash.pc == NO_EFFECT_MEMORY_PC_US {
            out.push(SolveDiagnosis::NoEffectMemory);
        } else if crash.pc >= rodata {
            out.push(SolveDiagnosis::NonExecRegion(crash.pc));
        }
        if crash.pc == FORBIDDEN_LAYOUT_PC_US {
            out.push(SolveDiagnosis::SceneLoadingError(SceneLoadDiagnosis::LowSlotLayout));
        }
        let far_is_null = match crash.far {
            Some(f) => f < NULL_READ_BOUND,
            None => false,
        };
        if out.len() == 0 && far_is_null {
            out.push(SolveDiagnosis::NullRead);
        }
        proof {
            assert(out@ =~= spec_diagnoses(crash.pc, crash.far, rodata));
        }
        Ok(out)
    }
}

/// The diagnoses the engine produces for a North American crash with the
/// given program counter, fault address register, and rodata bound: the
/// first three rules are tried in turn, the forbidden-layout rule fires
/// independently, and the null-read fallback fires only when nothing else
/// did and the fault address lies below the primary code space.
pub open spec fn spec_diagnoses(pc: u32, far: Option<u32>, rodata: u32) -> Seq<SolveDiagnosis> {
    let first = if pc == INVALID_TICKFLOW_PC_US {
        seq![SolveDiagnosis::InvalidTickflowAddress(far)]
    } else if pc == NO_EFFECT_MEMORY_PC_US {
        seq![SolveDiagnosis::NoEffectMemory]
    } else if pc >= rodata {
        seq![SolveDiagnosis::NonExecRegion(pc)]
    } else {
        Seq::empty()
    };
    let second = if pc == FORBIDDEN_LAYOUT_PC_US {
        first.push(SolveDiagnosis::SceneLoadingError(SceneLoadDiagnosis::LowSlotLayout))
    } else {
        first
    };
    if second.len() == 0 && (far matches Some(f) && f < NULL_READ_BOUND) {
        second.push(SolveDiagnosis::NullRead)
    } else {
        second
    }
}

/// The signature rules are order-independent: the diagnosis list contains
/// each tag exactly when its own condition holds, regardless of how many
/// rules match at once, and the null-read fallback appears only when none
/// of the four rules fired. This holds for every program counter, fault
/// address, and rodata bound; the one rule whose exact condition mentions
/// the others is the non-executable-region rule, which the first two
/// signatures shadow — and whenever those two signature addresses lie below
/// the rodata bound, as they do in the real bounds tables, even that rule
/// depends on the program counter and the bound alone.
pub proof fn lemma_diagnoses_order_independent(pc: u32, far: Option<u32>, rodata: u32)
    ensures
        spec_diagnoses(pc, far, rodata).contains(SolveDiagnosis::InvalidTickflowAddress(far))
            <==> pc == INVALID_TICKFLOW_PC_US,
        spec_diagnoses(pc, far, rodata).contains(SolveDiagnosis::NoEffectMemory) <==> pc
            == NO_EFFECT_MEMORY_PC_US,
        spec_diagnoses(pc, far, rodata).contains(SolveDiagnosis::NonExecRegion(pc)) <==> (pc
            != INVALID_TICKFLOW_PC_US && pc != NO_EFFECT_MEMORY_PC_US && pc >= rodata),
        (INVALID_TICKFLOW_PC_US < rodata && NO_EFFECT_MEMORY_PC_US < rodata) ==> (spec_diagnoses(
            pc,
            far,
            rodata,
        ).contains(SolveDiagnosis::NonExecRegion(pc)) <==> pc >= rodata),
        spec_diagnoses(pc, far, rodata).contains(
            SolveDiagnosis::SceneLoadingError(SceneLoadDiagnosis::LowSlotLayout),
        ) <==> pc == FORBIDDEN_LAYOUT_PC_US,
        spec_diagnoses(pc, far, rodata).contains(SolveDiagnosis::NullRead) <==> (pc
            != INVALID_TICKFLOW_PC_US && pc != NO_EFFECT_MEMORY_PC_US && pc < rodata && pc
            != FORBIDDEN_LAYOUT_PC_US && (far matches Some(f) && f < NULL_READ_BOUND)),
{
    let out = spec_diagnoses(pc, far, rodata);
    assert forall|d: SolveDiagnosis| out.contains(d) implies exists|i: int|
        0 <= i < out.len() && out[i] == d by {}
    if pc == INVALID_TICKFLOW_PC_US {
        assert(out[0] == SolveDiagnosis::InvalidTickflowAddress(far));
        assert(out.contains(SolveDiagnosis::InvalidTickflowAddress(far)));
    }
    if pc == NO_EFFECT_MEMORY_PC_US {
        assert(out[0] == SolveDiagnosis::NoEffectMemory);
        assert(out.contains(SolveDiagnosis::NoEffectMemory));
    }
    if pc != INVALID_TICKFLOW_PC_US && pc != NO_EFFECT_MEMORY_PC_US && pc >= rodata {
        assert(out[0] == SolveDiagnosis::NonExecRegion(pc));
        assert(out.contains(SolveDiagnosis::NonExecRegion(pc)));
    }
    if pc == FORBIDDEN_LAYOUT_PC_US {
        let first_len: int = if pc == INVALID_TICKFLOW_PC_US || pc == NO_EFFECT_MEMORY_PC_US || pc
            >= rodata {
            1
        } else {
            0
        };
        assert(out[first_len] == SolveDiagnosis::SceneLoadingError(
            SceneLoadDiagnosis::LowSlotLayout,
        ));
        assert(out.contains(
            SolveDiagnosis::SceneLoadingError(SceneLoadDiagnosis::LowSlotLayout),
        ));
    }
    if pc != INVALID_TICKFLOW_PC_US && pc != NO_EFFECT_MEMORY_PC_US && pc < rodata && pc
        != FORBIDDEN_LAYOUT_PC_US && (far matches Some(f) && f < NULL_READ_BOUND) {
        assert(out[0] == SolveDiagnosis::NullRead);
        assert(out.contains(SolveDiagnosis::NullRead));
    }
}

} // verus!
