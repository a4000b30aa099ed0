//! Decoder for the plugin-runtime dump format.

use vstd::prelude::*;

use crate::binary::{copy_range, le32_at, read_u32_le};
use crate::crash::{spec_exc_from_u32, CrashError, CrashInfo, ExcType, ModdingEngine};
use crate::text::{hex_string, spec_hex_string, str_eq};

verus! {

/// The dump discriminator: an extended dump carries a register file and a
/// stack blob, a short one does not.
#[derive(Debug, Clone, Copy, PartialEq, Eq, Structural)]
pub enum SWDType {
    Extended,
    Short,
}

impl SWDType {
    /// The discriminator a dump encodes as byte `value`, if any.
    pub fn try_from_u8(value: u8) -> (r: Option<SWDType>)
        ensures
            r == spec_swd_type_from_u8(value),
    {
        match value {
            0 => Some(SWDType::Extended),
            1 => Some(SWDType::Short),
            _ => None,
        }
    }
}

/// The discriminator denoted by a dump byte.
pub open spec fn spec_swd_type_from_u8(value: u8) -> Option<SWDType> {
    if value == 0 {
        Some(SWDType::Extended)
    } else if value == 1 {
        Some(SWDType::Short)
    } else {
        None
    }
}

/// A game region. Any unrecognized region byte decodes to the `UNK`
/// sentinel, which is a valid decode result but an invalid input to bounds
/// resolution and diagnosis.
#[derive(Debug, Clone, Copy, PartialEq, Eq, Structural)]
pub enum Region {
    JP,
    US,
    EU,
    KR,
    UNK,
}

/// The region denoted by a dump byte.
pub open spec fn spec_region_from_u8(value: u8) -> Region {
    if value == 0 {
        Region::JP
    } else if value == 1 {
        Region::US
    } else if value == 2 {
        Region::EU
    } else if value == 3 {
        Region::KR
    } else {
        Region::UNK
    }
}

impl From<u8> for Region {
    fn from(value: u8) -> (r: Region)
        ensures
            r == spec_region_from_u8(value),
    {
        match value {
            0 => Region::JP,
            1 => Region::US,
            2 => Region::EU,
            3 => Region::KR,
            _ => Region::UNK,
        }
    }
}

impl vstd::std_specs::convert::FromSpecImpl<u8> for Region {
    open spec fn obeys_from_spec() -> bool {
        true
    }

    open spec fn from_spec(v: u8) -> Region {
        spec_region_from_u8(v)
    }
}

impl Region {
    /// The code under which a known region appears in the version column of
    /// the bounds table; the unknown sentinel has none.
    pub open spec fn spec_code(&self) -> Option<Seq<char>> {
        match self {
            Region::JP => Some("JP"@),
            Region::US => Some("US"@),
            Region::EU => Some("EU"@),
            Region::KR => Some("KR"@),
            Region::UNK => None,
        }
    }

    /// Whether a bounds-table version field selects this region.
    pub open spec fn spec_matches(&self, version: Seq<char>) -> bool {
        match self.spec_code() {
            Some(code) => version == code,
            None => false,
        }
    }

    /// The display name of the region.
    pub fn description(&self) -> (r: &'static str)
        ensures
            *self is JP ==> r@ == "Japan"@,
            *self is US ==> r@ == "North America"@,
            *self is EU ==> r@ == "Europe"@,
            *self is KR ==> r@ == "Korea"@,
            *self is UNK ==> r@ == "Unknown title ID!"@,
    {
        match self {
            Region::JP => "Japan",
            Region::US => "North America",
            Region::EU => "Europe",
            Region::KR => "Korea",
            Region::UNK => "Unknown title ID!",
        }
    }

    /// Whether a bounds-table version field selects this region.
    pub fn matches(&self, version: &str) -> (r: bool)
        ensures
            r == self.spec_matches(version@),
    {
        match self {
            Region::JP => str_eq(version, "JP"),
            Region::US => str_eq(version, "US"),
            Region::EU => str_eq(version, "EU"),
            Region::KR => str_eq(version, "KR"),
            Region::UNK => false,
        }
    }
}

/// The plugin-runtime version: a release triple, or a debug build tagged by
/// a commit value rendered as lowercase hexadecimal.
#[derive(Debug, Clone)]
pub enum SWDVersion {
    Debug { commit_hash: String },
    Release { major: u8, minor: u8, patch: u8 },
}

impl SWDVersion {
    /// An equal copy of the version, with the commit tag duplicated.
    pub fn duplicate(&self) -> (r: SWDVersion)
        ensures
            r == *self,
    {
        match self {
            SWDVersion::Debug { commit_hash } => SWDVersion::Debug {
                commit_hash: commit_hash.clone(),
            },
            SWDVersion::Release { major, minor, patch } => SWDVersion::Release {
                major: *major,
                minor: *minor,
                patch: *patch,
            },
        }
    }
}

/// The parsed form of a plugin-runtime dump.
#[derive(Debug, Clone)]
pub struct CrashSWD {
    pub crash_type: SWDType,
    pub region: Region,
    pub exception_type: ExcType,
    pub version: SWDVersion,
    pub pc: u32,
    pub lr: u32,
    pub cpsr: u32,
    pub status_a: u32,
    pub status_b: u32,
    /// The five fixed call-stack slots every dump carries.
    pub call_stack: [u32; 5],
    /// r0..r12 and sp, present only in an extended dump.
    pub registers: Option<[u32; 14]>,
    /// The stack blob, present only in an extended dump.
    pub stack: Option<Vec<u8>>,
}

/// Whether the 8-byte ASCII magic of the plugin-runtime format is present.
pub open spec fn spec_swd_magic_ok(b: Seq<u8>) -> bool {
    &&& b[0] == 0x53u8  // 'S'
    &&& b[1] == 0x45u8  // 'E'
    &&& b[2] == 0x4cu8  // 'L'
    &&& b[3] == 0x43u8  // 'C'
    &&& b[4] == 0x52u8  // 'R'
    &&& b[5] == 0x41u8  // 'A'
    &&& b[6] == 0x48u8  // 'H'
    &&& b[7] == 0x00u8
}

/// The stack length an extended dump declares, clamped to the 256-byte cap;
/// larger declared values are silently truncated, not rejected.
pub open spec fn spec_swd_stack_len(b: Seq<u8>) -> int {
    if le32_at(b, 112) > 0x100 {
        0x100
    } else {
        le32_at(b, 112) as int
    }
}

/// The exact error a plugin-runtime decode of `b` fails with, or `None` if
/// it succeeds. Reads fail in stream order: the magic, the discriminator,
/// region and exception bytes, the release flag and version (the flag byte
/// means release exactly when it is 1), the five scalars and call-stack
/// slots, and, for an extended dump, the register file and the clamped
/// stack blob.
pub open spec fn spec_swd_error(b: Seq<u8>) -> Option<CrashError> {
    if b.len() < 8 {
        Some(CrashError::Truncated)
    } else if !spec_swd_magic_ok(b) {
        Some(CrashError::NotThisFormat)
    } else if b.len() < 9 {
        Some(CrashError::Truncated)
    } else if spec_swd_type_from_u8(b[8]) is None {
        Some(CrashError::InvalidField)
    } else if b.len() < 11 {
        Some(CrashError::Truncated)
    } else if spec_exc_from_u32(b[10] as u32) is None {
        Some(CrashError::InvalidField)
    } else if b.len() < 12 {
        Some(CrashError::Truncated)
    } else if b[11] == 1 && b.len() < 15 {
        Some(CrashError::Truncated)
    } else if b[11] != 1 && b.len() < 16 {
        Some(CrashError::Truncated)
    } else if b.len() < 56 {
        Some(CrashError::Truncated)
    } else if spec_swd_type_from_u8(b[8]) == Some(SWDType::Short) {
        None
    } else if b.len() < 116 {
        Some(CrashError::Truncated)
    } else if b.len() < 116 + spec_swd_stack_len(b) {
        Some(CrashError::Truncated)
    } else {
        None
    }
}

/// An extended dump regrouped as its short prefix plus the extended
/// payload, for callers that want the register file and stack unwrapped.
#[derive(Debug, Clone)]
pub struct ExtendedSWD {
    pub short: CrashSWD,
    pub registers: [u32; 14],
    pub stack: Vec<u8>,
}

impl CrashSWD {
    /// Decodes a plugin-runtime dump from an in-memory buffer, bit-exactly
    /// as the format is laid down: the ASCII magic, one byte each for the
    /// discriminator, region, exception kind and release flag, the version,
    /// five scalar words, five call-stack slots, and, for an extended dump,
    /// fourteen more registers and a stack blob whose declared length is
    /// clamped to 256 bytes. The release flag is a one-byte boolean read
    /// the way bytestream's `bool` reader defines it — true exactly when
    /// the byte is 1 — so every other flag byte selects the debug form of
    /// the version.
    pub fn from_bytes(buf: &Vec<u8>) -> (r: Result<CrashSWD, CrashError>)
        ensures
            match r {
                Ok(d) => {
                    let b = buf@;
                    &&& spec_swd_error(b) is None
                    &&& Some(d.crash_type) == spec_swd_type_from_u8(b[8])
                    &&& d.region == spec_region_from_u8(b[9])
                    &&& Some(d.exception_type) == spec_exc_from_u32(b[10] as u32)
                    &&& (b[11] == 1 ==> d.version == (SWDVersion::Release {
                        major: b[12],
                        minor: b[13],
                        patch: b[14],
                    }))
                    &&& (b[11] != 1 ==> (d.version matches SWDVersion::Debug { commit_hash }
                        && commit_hash@ == spec_hex_string(le32_at(b, 12))))
                    &&& d.pc == le32_at(b, 16)
                    &&& d.lr == le32_at(b, 20)
                    &&& d.cpsr == le32_at(b, 24)
                    &&& d.status_a == le32_at(b, 28)
                    &&& d.status_b == le32_at(b, 32)
                    &&& d.call_stack@ =~= Seq::new(5, |k: int| le32_at(b, 36 + 4 * k))
                    &&& (d.crash_type is Short ==> d.registers is None && d.stack is None)
                    &&& (d.crash_type is Extended ==> {
                        &&& (d.registers matches Some(regs) && regs@ =~= Seq::new(
                            14,
                            |k: int| le32_at(b, 56 + 4 * k),
                        ))
                        &&& (d.stack matches Some(s) && s@ == b.subrange(
                            116,
                            116 + spec_swd_stack_len(b),
                        ) && s@.len() == spec_swd_stack_len(b))
                    })
                },
                Err(e) => spec_swd_error(buf@) == Some(e),
            },
    {
        let len = buf.len();
        if len < 8 {
            return Err(CrashError::Truncated);
        }
        if !(buf[0] == 0x53 && buf[1] == 0x45 && buf[2] == 0x4c && buf[3] == 0x43 && buf[4]
            == 0x52 && buf[5] == 0x41 && buf[6] == 0x48 && buf[7] == 0x00) {
            return Err(CrashError::NotThisFormat);
        }
        if len < 9 {
            return Err(CrashError::Truncated);
        }
        let crash_type = match SWDType::try_from_u8(buf[8]) {
            Some(t) => t,
            None => {
                return Err(CrashError::InvalidField);
            },
        };
        if len < 11 {
            return Err(CrashError::Truncated);
        }
        let region = Region::from(buf[9]);
        let exception_type = match ExcType::try_from_u8(buf[10]) {
            Some(e) => e,
            None => {
                return Err(CrashError::InvalidField);
            },
        };
        if len < 12 {
            return Err(CrashError::Truncated);
        }
        let release = buf[11] == 1;
        let version = if release {
            if len < 15 {
                return Err(CrashError::Truncated);
            }
            SWDVersion::Release { major: buf[12], minor: buf[13], patch: buf[14] }
        } else {
            if len < 16 {
                return Err(CrashError::Truncated);
            }
            SWDVersion::Debug { commit_hash: hex_string(read_u32_le(buf, 12)) }
        };
        if len < 56 {
            return Err(CrashError::Truncated);
        }
        let pc = read_u32_le(buf, 16);
        let lr = read_u32_le(buf, 20);
        let cpsr = read_u32_le(buf, 24);
        let status_a = read_u32_le(buf, 28);
        let status_b = read_u32_le(buf, 32);
        let call_stack: [u32; 5] = [
            read_u32_le(buf, 36),
            read_u32_le(buf, 40),
            read_u32_le(buf, 44),
            read_u32_le(buf, 48),
            read_u32_le(buf, 52),
        ];
        proof {
            assert(call_stack@ =~= Seq::new(5, |k: int| le32_at(buf@, 36 + 4 * k)));
        }
        if crash_type == SWDType::Short {
            return Ok(CrashSWD {
                crash_type,
                region,
                exception_type,
                version,
                pc,
                lr,
                cpsr,
                status_a,
                status_b,
                call_stack,
                registers: None,
                stack: None,
            });
        }
        if len < 116 {
            return Err(CrashError::Truncated);
        }
        let registers: [u32; 14] = [
            read_u32_le(buf, 56),
            read_u32_le(buf, 60),
            read_u32_le(buf, 64),
            read_u32_le(buf, 68),
            read_u32_le(buf, 72),
            read_u32_le(buf, 76),
            read_u32_le(buf, 80),
            read_u32_le(buf, 84),
            read_u32_le(buf, 88),
            read_u32_le(buf, 92),
            read_u32_le(buf, 96),
            read_u32_le(buf, 100),
            read_u32_le(buf, 104),
            read_u32_le(buf, 108),
        ];
        proof {
            assert(registers@ =~= Seq::new(14, |k: int| le32_at(buf@, 56 + 4 * k)));
        }
        let declared = read_u32_le(buf, 112);
        let stack_length: u32 = if declared > 0x100 {
            0x100
        } else {
            declared
        };
        if len < 116 + stack_length as usize {
            return Err(CrashError::Truncated);
        }
        let stack = copy_range(buf, 116, stack_length as usize);
        Ok(CrashSWD {
            crash_type,
            region,
            exception_type,
            version,
            pc,
            lr,
            cpsr,
            status_a,
            status_b,
            call_stack,
            registers: Some(registers),
            stack: Some(stack),
        })
    }

    /// Normalizes the dump into the shared crash representation: the engine
    /// identity keeps the discriminator, version and region; the register
    /// file and stack carry over only from an extended dump; the two status
    /// slots land in the fault-status fields their exception kind labels
    /// them with.
    pub fn as_generic(self) -> (r: CrashInfo)
        ensures
            r.engine matches ModdingEngine::SpiceRack(t, v, reg) && t == self.crash_type && v
                == self.version && reg == self.region,
            (match self.registers {
                Some(regs) => r.r matches Some(a) && a@ =~= regs@.subrange(0, 13) && r.sp == Some(
                    regs@[13],
                ),
                None => r.r is None && r.sp is None,
            }),
            r.lr == self.lr,
            r.pc == self.pc,
            r.cpsr == self.cpsr,
            self.exception_type is DataAbort ==> r.dfsr == Some(self.status_a) && r.far == Some(
                self.status_b,
            ) && r.ifsr is None && r.fpexc is None && r.fpinst is None,
            self.exception_type is PrefetchAbort ==> r.ifsr == Some(self.status_a) && r.dfsr
                is None && r.far is None && r.fpexc is None && r.fpinst is None,
            self.exception_type is FloatingPoint ==> r.fpexc == Some(self.status_a) && r.fpinst
                == Some(self.status_b) && r.dfsr is None && r.ifsr is None && r.far is None,
            self.exception_type is UndefinedInst ==> r.dfsr is None && r.ifsr is None && r.far
                is None && r.fpexc is None && r.fpinst is None,
            r.fpinst2 is None,
            (match self.stack {
                Some(s) => r.stack matches Some(rs) && rs@ == s@,
                None => r.stack is None,
            }),
            r.call_stack matches Some(cs) && cs@ =~= self.call_stack@,
    {
        let (r, sp) = match &self.registers {
            Some(regs) => {
                let a: [u32; 13] = [
                    regs[0],
                    regs[1],
                    regs[2],
                    regs[3],
                    regs[4],
                    regs[5],
                    regs[6],
                    regs[7],
                    regs[8],
                    regs[9],
                    regs[10],
                    regs[11],
                    regs[12],
                ];
                proof {
                    assert(a@ =~= regs@.subrange(0, 13));
                }
                (Some(a), Some(regs[13]))
            },
            None => (None, None),
        };
        let (dfsr, ifsr, far, fpexc, fpinst) = match self.exception_type {
            ExcType::DataAbort => (Some(self.status_a), None, Some(self.status_b), None, None),
            ExcType::PrefetchAbort => (None, Some(self.status_a), None, None, None),
            ExcType::FloatingPoint => (None, None, None, Some(self.status_a), Some(self.status_b)),
            ExcType::UndefinedInst => (None, None, None, None, None),
        };
        let mut cs: Vec<u32> = Vec::new();
        cs.push(self.call_stack[0]);
        cs.push(self.call_stack[1]);
        cs.push(self.call_stack[2]);
        cs.push(self.call_stack[3]);
        cs.push(self.call_stack[4]);
        proof {
            assert(cs@ =~= self.call_stack@);
        }
        CrashInfo {
            engine: ModdingEngine::SpiceRack(self.crash_type, self.version, self.region),
            r,
            sp,
            lr: self.lr,
            pc: self.pc,
            cpsr: self.cpsr,
            dfsr,
            ifsr,
            far,
            fpexc,
            fpinst,
            fpinst2: None,
            stack: self.stack,
            call_stack: Some(cs),
        }
    }
}

} // verus!
