//! The shared crash representation: exception kinds, the engine identity,
//! the normalized register file, and the fault-status code table.

pub mod analyze;
pub mod luma;
pub mod saltwater;
pub mod solve;

use vstd::prelude::*;

verus! {

/// One typed failure for every decode, resolve, or diagnose operation.
#[derive(Debug, Clone, Copy, PartialEq, Eq, Structural)]
pub enum CrashError {
    /// The magic bytes do not match: the caller should try the other decoder.
    NotThisFormat,
    /// A value lies outside its allowed domain (a bad enum byte or field).
    InvalidField,
    /// The buffer is shorter than the format demands.
    Truncated,
    /// No bounds-table row matches the active region.
    UnknownRegion,
    /// A secondary symbol table is present but holds no end-of-text sentinel.
    MissingSentinelSymbol,
    /// A caller broke an internal contract: lookup before bounds were set up,
    /// an unsorted symbol table, or diagnosis of an unresolved region.
    ContractViolation,
    /// The region is known but its failure signatures are not yet catalogued.
    UnsupportedRegion,
}

/// The four exception kinds a dump can carry.
#[derive(Debug, Clone, Copy, PartialEq, Eq, Structural)]
pub enum ExcType {
    FloatingPoint,
    UndefinedInst,
    PrefetchAbort,
    DataAbort,
}

impl ExcType {
    /// The exception kind a dump encodes as `value`, if any.
    pub fn try_from_u32(value: u32) -> (r: Option<ExcType>)
        ensures
            r == spec_exc_from_u32(value),
    {
        match value {
            0 => Some(ExcType::FloatingPoint),
            1 => Some(ExcType::UndefinedInst),
            2 => Some(ExcType::PrefetchAbort),
            3 => Some(ExcType::DataAbort),
            _ => None,
        }
    }

    /// The exception kind a dump encodes as byte `value`, if any.
    pub fn try_from_u8(value: u8) -> (r: Option<ExcType>)
        ensures
            r == spec_exc_from_u32(value as u32),
    {
        ExcType::try_from_u32(value as u32)
    }

    /// The code under which each kind is stored in a dump.
    pub fn code(&self) -> (r: u32)
        ensures
            r == spec_exc_code(*self),
            spec_exc_from_u32(r) == Some(*self),
    {
        match self {
            ExcType::FloatingPoint => 0,
            ExcType::UndefinedInst => 1,
            ExcType::PrefetchAbort => 2,
            ExcType::DataAbort => 3,
        }
    }

    /// Display labels of the two status slots of a plugin-runtime dump, per
    /// exception kind: none for undefined instructions, `fpexc`/`fpinst` for
    /// floating point, `ifsr` for prefetch aborts, `dfsr`/`far` for data
    /// aborts.
    pub fn status_reg_names(&self) -> (r: [Option<&'static str>; 2])
        ensures
            *self is UndefinedInst ==> r@ =~= seq![None::<&'static str>, None::<&'static str>],
            *self is FloatingPoint ==> r@ =~= seq![
                Some("fpexc"),
                Some("fpinst"),
            ],
            *self is PrefetchAbort ==> r@ =~= seq![Some("ifsr"), None::<&'static str>],
            *self is DataAbort ==> r@ =~= seq![Some("dfsr"), Some("far")],
    {
        match self {
            ExcType::UndefinedInst => [None, None],
            ExcType::FloatingPoint => [Some("fpexc"), Some("fpinst")],
            ExcType::PrefetchAbort => [Some("ifsr"), None],
            ExcType::DataAbort => [Some("dfsr"), Some("far")],
        }
    }

    /// The exception kind stored in an error-function code byte, if any.
    pub fn from_errf_code(errf: u8) -> (r: Option<ExcType>)
        ensures
            errf == 0 ==> r == Some(ExcType::PrefetchAbort),
            errf == 1 ==> r == Some(ExcType::DataAbort),
            errf == 2 ==> r == Some(ExcType::UndefinedInst),
            errf == 3 ==> r == Some(ExcType::FloatingPoint),
            errf > 3 ==> r is None,
    {
        match errf {
            0 => Some(ExcType::PrefetchAbort),
            1 => Some(ExcType::DataAbort),
            2 => Some(ExcType::UndefinedInst),
            3 => Some(ExcType::FloatingPoint),
            _ => None,
        }
    }

    /// The display name of the exception kind.
    pub fn description(&self) -> (r: &'static str)
        ensures
            *self is FloatingPoint ==> r@ == "floating point exception"@,
            *self is UndefinedInst ==> r@ == "undefined instruction"@,
            *self is PrefetchAbort ==> r@ == "prefetch abort"@,
            *self is DataAbort ==> r@ == "data abort"@,
    {
        match self {
            ExcType::FloatingPoint => "floating point exception",
            ExcType::UndefinedInst => "undefined instruction",
            ExcType::PrefetchAbort => "prefetch abort",
            ExcType::DataAbort => "data abort",
        }
    }

    /// The fault-status code carried by the two status slots: for a data
    /// abort the low nibble of the first slot plus its bit 10, for a
    /// prefetch abort the low nibble of the second slot, and nothing for the
    /// other kinds.
    pub fn fault_code(&self, status_a: u32, status_b: u32) -> (r: Option<u32>)
        ensures
            r == spec_fault_code(*self, status_a, status_b),
    {
        match self {
            ExcType::DataAbort => {
                assert((status_a & 0xf) + ((status_a >> 10) & 1) <= 0x10) by (bit_vector);
                Some((status_a & 0xf) + ((status_a >> 10) & 1))
            },
            ExcType::PrefetchAbort => Some(status_b & 0xf),
            _ => None,
        }
    }
}

/// The code under which an exception kind is stored in a dump.
pub open spec fn spec_exc_code(e: ExcType) -> u32 {
    match e {
        ExcType::FloatingPoint => 0,
        ExcType::UndefinedInst => 1,
        ExcType::PrefetchAbort => 2,
        ExcType::DataAbort => 3,
    }
}

/// The exception kind denoted by a dump code.
pub open spec fn spec_exc_from_u32(value: u32) -> Option<ExcType> {
    if value == 0 {
        Some(ExcType::FloatingPoint)
    } else if value == 1 {
        Some(ExcType::UndefinedInst)
    } else if value == 2 {
        Some(ExcType::PrefetchAbort)
    } else if value == 3 {
        Some(ExcType::DataAbort)
    } else {
        None
    }
}

/// The fault-status code of the meaningful status slot, if the exception
/// kind has one.
pub open spec fn spec_fault_code(exc: ExcType, status_a: u32, status_b: u32) -> Option<u32> {
    match exc {
        ExcType::DataAbort => Some(((status_a & 0xf) + ((status_a >> 10) & 1)) as u32),
        ExcType::PrefetchAbort => Some(status_b & 0xf),
        _ => None,
    }
}

/// Which loader produced a crash: the primary loader, or the plugin runtime
/// with its own version and region payload.
#[derive(Debug, Clone)]
pub enum ModdingEngine {
    RHMPatch,
    SpiceRack(saltwater::SWDType, saltwater::SWDVersion, saltwater::Region),
}

impl ModdingEngine {
    /// The region the crash belongs to; the primary loader only ever runs on
    /// the North American release.
    pub fn region(&self) -> (r: saltwater::Region)
        ensures
            r == self.spec_region(),
    {
        match self {
            ModdingEngine::RHMPatch => saltwater::Region::US,
            ModdingEngine::SpiceRack(_, _, region) => *region,
        }
    }

    /// The region the crash belongs to.
    pub open spec fn spec_region(&self) -> saltwater::Region {
        match self {
            ModdingEngine::RHMPatch => saltwater::Region::US,
            ModdingEngine::SpiceRack(_, _, region) => *region,
        }
    }

    /// An equal copy of the engine identity.
    pub fn duplicate(&self) -> (r: ModdingEngine)
        ensures
            r == *self,
    {
        match self {
            ModdingEngine::RHMPatch => ModdingEngine::RHMPatch,
            ModdingEngine::SpiceRack(t, v, region) => ModdingEngine::SpiceRack(
                *t,
                v.duplicate(),
                *region,
            ),
        }
    }
}

/// The shared crash representation both decoders normalize into.
#[derive(Debug, Clone)]
pub struct CrashInfo {
    pub engine: ModdingEngine,
    /// r0..r12, when the source format recorded them.
    pub r: Option<[u32; 13]>,
    pub sp: Option<u32>,
    pub lr: u32,
    pub pc: u32,
    pub cpsr: u32,
    pub dfsr: Option<u32>,
    pub ifsr: Option<u32>,
    pub far: Option<u32>,
    pub fpexc: Option<u32>,
    pub fpinst: Option<u32>,
    pub fpinst2: Option<u32>,
    /// Raw stack bytes, when the source format recorded them.
    pub stack: Option<Vec<u8>>,
    /// Candidate code addresses reconstructed from the stack.
    pub call_stack: Option<Vec<u32>>,
}

impl CrashInfo {
    /// The region the crash belongs to.
    pub fn region(&self) -> (r: saltwater::Region)
        ensures
            r == self.engine.spec_region(),
    {
        self.engine.region()
    }
}

/// The description attached to a fault-status code, `"Invalid"` for any code
/// outside the fixed table.
pub open spec fn spec_fault_status_description(code: u32) -> Seq<char> {
    if code == 0b1 {
        "Alignment"@
    } else if code == 0b100 {
        "Instruction cache maintenance operation fault"@
    } else if code == 0b1100 {
        "External Abort on translation - First-level"@
    } else if code == 0b1110 {
        "External Abort on translation - Second-level"@
    } else if code == 0b101 {
        "Translation - Section"@
    } else if code == 0b111 {
        "Translation - Page"@
    } else if code == 0b11 {
        "Access bit - Section"@
    } else if code == 0b110 {
        "Access bit - Page"@
    } else if code == 0b1001 {
        "Domain - Section"@
    } else if code == 0b1011 {
        "Domain - Page"@
    } else if code == 0b1101 {
        "Permission - Section"@
    } else if code == 0b1111 {
        "Permission - Page"@
    } else if code == 0b1000 {
        "Precise External Abort"@
    } else if code == 0b10110 {
        "Imprecise External Abort"@
    } else if code == 0b10 {
        "Debug event"@
    } else {
        "Invalid"@
    }
}

/// Looks a fault-status code up in the fixed ordered code table.
pub fn fault_status_description(code: u32) -> (r: &'static str)
    ensures
        r@ == spec_fault_status_description(code),
{
    match code {
        0b1 => "Alignment",
        0b100 => "Instruction cache maintenance operation fault",
        0b1100 => "External Abort on translation - First-level",
        0b1110 => "External Abort on translation - Second-level",
        0b101 => "Translation - Section",
        0b111 => "Translation - Page",
        0b11 => "Access bit - Section",
        0b110 => "Access bit - Page",
        0b1001 => "Domain - Section",
        0b1011 => "Domain - Page",
        0b1101 => "Permission - Section",
        0b1111 => "Permission - Page",
        0b1000 => "Precise External Abort",
        0b10110 => "Imprecise External Abort",
        0b10 => "Debug event",
        _ => "Invalid",
    }
}

} // verus!
