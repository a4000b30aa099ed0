//! Decoder for the primary-loader dump format.

use vstd::prelude::*;

use crate::binary::{copy_range, le32_at, le64_at, read_u32_le, read_u64_le};
use crate::crash::{spec_exc_code, spec_exc_from_u32, CrashError, CrashInfo, ExcType, ModdingEngine};

verus! {

/// The loader version packed into one header word (`major:minor:micro`).
#[derive(Debug, Clone, Copy, PartialEq, Eq, Structural)]
pub struct LumaVersion {
    pub major: u16,
    pub minor: u8,
    pub micro: u8,
}

impl LumaVersion {
    pub fn new(major: u16, minor: u8, micro: u8) -> (r: LumaVersion)
        ensures
            r == (LumaVersion { major, minor, micro }),
    {
        LumaVersion { major, minor, micro }
    }

    /// The oldest loader version whose dumps carry this format.
    pub fn minimum_version() -> (r: LumaVersion)
        ensures
            r == (LumaVersion { major: 1u16, minor: 0u8, micro: 2u8 }),
    {
        LumaVersion::new(1, 0, 2)
    }

    /// Re-packs the version into the header word that encodes it.
    pub fn pack(&self) -> (r: u32)
        ensures
            r == spec_pack_version(*self),
    {
        ((self.major as u32) << 16) | ((self.minor as u32) << 8) | (self.micro as u32)
    }
}

/// The version denoted by a packed header word.
pub open spec fn spec_version_of(value: u32) -> LumaVersion {
    LumaVersion { major: (value >> 16) as u16, minor: (value >> 8) as u8, micro: value as u8 }
}

/// The header word that encodes a version.
pub open spec fn spec_pack_version(v: LumaVersion) -> u32 {
    ((v.major as u32) << 16) | ((v.minor as u32) << 8) | (v.micro as u32)
}

impl From<u32> for LumaVersion {
    fn from(value: u32) -> (r: LumaVersion)
        ensures
            r == spec_version_of(value),
    {
        LumaVersion {
            major: (value >> 16) as u16,
            minor: (value >> 8) as u8,
            micro: value as u8,
        }
    }
}

impl vstd::std_specs::convert::FromSpecImpl<u32> for LumaVersion {
    open spec fn obeys_from_spec() -> bool {
        true
    }

    open spec fn from_spec(v: u32) -> LumaVersion {
        spec_version_of(v)
    }
}

/// Which processor faulted: the security processor, or an application core
/// whose index rides in the high half of the header word.
#[derive(Debug, Clone, Copy, PartialEq, Eq, Structural)]
pub enum LumaProcessor {
    Arm9,
    Arm11(u16),
}

/// The processor denoted by a header word: the low half selects the kind,
/// the high half is a core index meaningful only for the application cores.
pub open spec fn spec_processor_of(value: u32) -> Option<LumaProcessor> {
    let processor = value as u16;
    let core = (value >> 16) as u16;
    if processor == 9 {
        Some(LumaProcessor::Arm9)
    } else if processor == 11 {
        Some(LumaProcessor::Arm11(core))
    } else {
        None
    }
}

/// The header word that encodes a processor.
pub open spec fn spec_pack_processor(p: LumaProcessor) -> u32 {
    match p {
        LumaProcessor::Arm9 => 9,
        LumaProcessor::Arm11(core) => 11u32 | ((core as u32) << 16),
    }
}

impl LumaProcessor {
    /// The processor a dump encodes as `value`, if the low half is a known
    /// kind.
    pub fn try_from_u32(value: u32) -> (r: Option<LumaProcessor>)
        ensures
            r == spec_processor_of(value),
    {
        let processor = value as u16;
        let core = (value >> 16) as u16;
        match processor {
            9 => Some(LumaProcessor::Arm9),
            11 => Some(LumaProcessor::Arm11(core)),
            _ => None,
        }
    }

    /// Re-packs the processor into the header word that encodes it.
    pub fn pack(&self) -> (r: u32)
        ensures
            r == spec_pack_processor(*self),
    {
        match self {
            LumaProcessor::Arm9 => 9,
            LumaProcessor::Arm11(core) => 11u32 | ((*core as u32) << 16),
        }
    }
}

/// Decoding the three scalar header words of a valid primary-loader dump and
/// re-encoding them is lossless: the packed version word always round-trips,
/// and so do the processor and exception words whenever they decode at all.
/// The one caveat is the security processor, whose decoded form drops the
/// (meaningless) high half of its word, so that half must be clear.
pub proof fn lemma_luma_header_roundtrip(version_word: u32, processor_word: u32, exc_word: u32)
    requires
        spec_processor_of(processor_word) is Some,
        spec_processor_of(processor_word)->Some_0 is Arm9 ==> processor_word >> 16 == 0,
        spec_exc_from_u32(exc_word) is Some,
    ensures
        spec_pack_version(spec_version_of(version_word)) == version_word,
        spec_pack_processor(spec_processor_of(processor_word)->Some_0) == processor_word,
        spec_exc_code(spec_exc_from_u32(exc_word)->Some_0) == exc_word,
{
    assert(((version_word >> 16) as u16 as u32) << 16 | ((version_word >> 8) as u8 as u32) << 8
        | (version_word as u8 as u32) == version_word) by (bit_vector);
    assert(processor_word as u16 == 9 && processor_word >> 16 == 0 ==> processor_word == 9u32)
        by (bit_vector);
    assert(processor_word as u16 == 11 ==> 11u32 | ((processor_word >> 16) as u16 as u32) << 16
        == processor_word) by (bit_vector);
}

/// The parsed form of a primary-loader dump.
#[derive(Debug, Clone)]
pub struct CrashLuma {
    pub version: LumaVersion,
    pub processor: LumaProcessor,
    pub exception_type: ExcType,
    /// r0..r12, sp, lr, pc, cpsr, then an optional tail
    /// (dfsr, ifsr, far, fpexc, fpinst, fpinst2), as many as were dumped.
    pub registers: Vec<u32>,
    pub code: Vec<u8>,
    pub stack: Vec<u8>,
    pub extra: Vec<u8>,
}

/// The number of registers a dump buffer declares.
pub open spec fn spec_luma_nregs(b: Seq<u8>) -> int {
    le32_at(b, 24) as int / 4
}

/// The offset where the code blob starts.
pub open spec fn spec_luma_code_off(b: Seq<u8>) -> int {
    40 + 4 * spec_luma_nregs(b)
}

/// The total number of bytes the dump buffer's own header demands.
pub open spec fn spec_luma_total_len(b: Seq<u8>) -> int {
    spec_luma_code_off(b) + le32_at(b, 28) + le32_at(b, 32) + le32_at(b, 36)
}

/// Whether the two magic words of the primary-loader format are present.
pub open spec fn spec_luma_magic_ok(b: Seq<u8>) -> bool {
    le32_at(b, 0) == 0xdeadc0deu32 && le32_at(b, 4) == 0xdeadcafeu32
}

/// The exact error a primary-loader decode of `b` fails with, or `None` if
/// it succeeds. Reads fail in stream order: the magic first, then each
/// header word, then the registers and the three blobs.
pub open spec fn spec_luma_error(b: Seq<u8>) -> Option<CrashError> {
    if b.len() < 8 {
        Some(CrashError::Truncated)
    } else if !spec_luma_magic_ok(b) {
        Some(CrashError::NotThisFormat)
    } else if b.len() < 16 {
        Some(CrashError::Truncated)
    } else if spec_processor_of(le32_at(b, 12)) is None {
        Some(CrashError::InvalidField)
    } else if b.len() < 20 {
        Some(CrashError::Truncated)
    } else if spec_exc_from_u32(le32_at(b, 16)) is None {
        Some(CrashError::InvalidField)
    } else if b.len() < 40 || b.len() < spec_luma_total_len(b) {
        Some(CrashError::Truncated)
    } else {
        None
    }
}

impl CrashLuma {
    /// Decodes a primary-loader dump from an in-memory buffer, bit-exactly
    /// as the format is laid down: an 8-byte two-word magic, five header
    /// words (version, processor+core, exception, one reserved, register
    /// byte count), three blob sizes, then the registers and the code,
    /// stack, and extra blobs, all little-endian.
    pub fn from_bytes(buf: &Vec<u8>) -> (r: Result<CrashLuma, CrashError>)
        ensures
            match r {
                Ok(d) => {
                    let b = buf@;
                    &&& spec_luma_error(b) is None
                    &&& d.version == spec_version_of(le32_at(b, 8))
                    &&& Some(d.processor) == spec_processor_of(le32_at(b, 12))
                    &&& Some(d.exception_type) == spec_exc_from_u32(le32_at(b, 16))
                    &&& d.registers@.len() == spec_luma_nregs(b)
                    &&& (forall|k: int|
                        0 <= k < d.registers@.len() ==> d.registers@[k] == le32_at(b, 40 + 4 * k))
                    &&& d.code@ == b.subrange(
                        spec_luma_code_off(b),
                        spec_luma_code_off(b) + le32_at(b, 28),
                    )
                    &&& d.stack@ == b.subrange(
                        spec_luma_code_off(b) + le32_at(b, 28),
                        spec_luma_code_off(b) + le32_at(b, 28) + le32_at(b, 32),
                    )
                    &&& d.extra@ == b.subrange(
                        spec_luma_code_off(b) + le32_at(b, 28) + le32_at(b, 32),
                        spec_luma_total_len(b),
                    )
                },
                Err(e) => spec_luma_error(buf@) == Some(e),
            },
    {
        let len = buf.len();
        if len < 8 {
            return Err(CrashError::Truncated);
        }
        let magic_a = read_u32_le(buf, 0);
        let magic_b = read_u32_le(buf, 4);
        if !(magic_a == 0xdeadc0de && magic_b == 0xdeadcafe) {
            return Err(CrashError::NotThisFormat);
        }
        if len < 16 {
            return Err(CrashError::Truncated);
        }
        let version = LumaVersion::from(read_u32_le(buf, 8));
        let processor = match LumaProcessor::try_from_u32(read_u32_le(buf, 12)) {
            Some(p) => p,
            None => {
                return Err(CrashError::InvalidField);
            },
        };
        if len < 20 {
            return Err(CrashError::Truncated);
        }
        let exception_type = match ExcType::try_from_u32(read_u32_le(buf, 16)) {
            Some(e) => e,
            None => {
                return Err(CrashError::InvalidField);
            },
        };
        if len < 40 {
            return Err(CrashError::Truncated);
        }
        let num_registers: u32 = read_u32_le(buf, 24) / 4;
        let code_size = read_u32_le(buf, 28);
        let stack_size = read_u32_le(buf, 32);
        let extra_size = read_u32_le(buf, 36);

        let total: u64 = 40u64 + 4 * (num_registers as u64) + code_size as u64 + stack_size as u64
            + extra_size as u64;
        if (len as u64) < total {
            return Err(CrashError::Truncated);
        }

        let mut registers: Vec<u32> = Vec::new();
        let mut k: usize = 0;
        while k < num_registers as usize
            invariant
                k <= num_registers,
                len == buf@.len(),
                40 + 4 * (num_registers as int) <= buf@.len(),
                registers@.len() == k,
                forall|j: int| 0 <= j < k ==> registers@[j] == le32_at(buf@, 40 + 4 * j),
            decreases num_registers as usize - k,
        {
            registers.push(read_u32_le(buf, 40 + 4 * k));
            k = k + 1;
        }

        let regs_end: usize = 40 + 4 * (num_registers as usize);
        let code = copy_range(buf, regs_end, code_size as usize);
        let stack = copy_range(buf, regs_end + code_size as usize, stack_size as usize);
        let extra = copy_range(
            buf,
            regs_end + code_size as usize + stack_size as usize,
            extra_size as usize,
        );

        Ok(CrashLuma { version, processor, exception_type, registers, code, stack, extra })
    }

    /// Normalizes the dump into the shared crash representation. The
    /// register file must at least reach the status register (17 entries);
    /// the fault-status tail is carried over only as far as it was dumped.
    pub fn as_generic(self, call_stack_size: Option<usize>) -> (r: CrashInfo)
        requires
            self.registers@.len() >= 17,
        ensures
            r.engine is RHMPatch,
            r.r matches Some(a) && a@ =~= self.registers@.subrange(0, 13),
            r.sp == Some(self.registers@[13]),
            r.lr == self.registers@[14],
            r.pc == self.registers@[15],
            r.cpsr == self.registers@[16],
            r.dfsr == spec_reg_tail(self.registers@, 17),
            r.ifsr == spec_reg_tail(self.registers@, 18),
            r.far == spec_reg_tail(self.registers@, 19),
            r.fpexc == spec_reg_tail(self.registers@, 20),
            r.fpinst == spec_reg_tail(self.registers@, 21),
            r.fpinst2 == spec_reg_tail(self.registers@, 22),
            r.stack matches Some(s) && s@ == self.stack@,
            (call_stack_size is None || call_stack_size == Some(0usize)) ==> r.call_stack is None,
            (match call_stack_size {
                Some(c) => c > 0 ==> (r.call_stack matches Some(cs) && cs@ == spec_call_stack(
                    self.stack@,
                    c as nat,
                )),
                None => true,
            }),
    {
        let call_stack = match call_stack_size {
            None => None,
            Some(0) => None,
            Some(c) => Some(self.get_call_stack(c)),
        };
        let a: [u32; 13] = [
            self.registers[0],
            self.registers[1],
            self.registers[2],
            self.registers[3],
            self.registers[4],
            self.registers[5],
            self.registers[6],
            self.registers[7],
            self.registers[8],
            self.registers[9],
            self.registers[10],
            self.registers[11],
            self.registers[12],
        ];
        proof {
            assert(a@ =~= self.registers@.subrange(0, 13));
        }
        CrashInfo {
            engine: ModdingEngine::RHMPatch,
            r: Some(a),
            sp: Some(self.registers[13]),
            lr: self.registers[14],
            pc: self.registers[15],
            cpsr: self.registers[16],
            dfsr: reg_get(&self.registers, 17),
            ifsr: reg_get(&self.registers, 18),
            far: reg_get(&self.registers, 19),
            fpexc: reg_get(&self.registers, 20),
            fpinst: reg_get(&self.registers, 21),
            fpinst2: reg_get(&self.registers, 22),
            stack: Some(self.stack),
            call_stack,
        }
    }

    /// Reconstructs a call stack of at most `size` candidate code addresses
    /// by the heuristic stack scan.
    pub fn get_call_stack(&self, size: usize) -> (r: Vec<u32>)
        ensures
            r@ == spec_call_stack(self.stack@, size as nat),
    {
        let n = self.stack.len();
        let mut out: Vec<u32> = Vec::new();
        let mut i: usize = 0;
        while i < n && n - i >= 4 && out.len() < size
            invariant
                n == self.stack@.len(),
                i <= n,
                out@.len() <= size,
                spec_call_stack(self.stack@, size as nat) == out@ + spec_scan_from(
                    self.stack@,
                    i as int,
                    (size - out@.len()) as nat,
                ),
            decreases n - i,
        {
            let ghost rem = (size - out@.len()) as nat;
            let val = read_u32_le(&self.stack, i);
            if (0x00100000 <= val && val < 0x04000000) || (0x07000100 <= val && val < 0x08000000)
            {
                out.push(val);
                proof {
                    assert(spec_scan_from(self.stack@, i as int, rem) =~= seq![val]
                        + spec_scan_from(self.stack@, i + 4, (rem - 1) as nat));
                }
            } else {
                proof {
                    assert(spec_scan_from(self.stack@, i as int, rem) == spec_scan_from(
                        self.stack@,
                        i + 4,
                        rem,
                    ));
                }
            }
            i = i + 4;
            proof {
                assert(spec_call_stack(self.stack@, size as nat) =~= out@ + spec_scan_from(
                    self.stack@,
                    i as int,
                    (size - out@.len()) as nat,
                ));
            }
        }
        proof {
            assert(spec_scan_from(self.stack@, i as int, (size - out@.len()) as nat)
                =~= Seq::<u32>::empty());
            assert(out@ =~= out@ + Seq::<u32>::empty());
        }
        out
    }

    /// The process tag and title identifier embedded in the extra blob:
    /// present only for an application-core crash whose extra blob holds at
    /// least the 8-byte ASCII tag and the 8-byte little-endian title id.
    pub fn get_title_info(&self) -> (r: Option<(String, u64)>)
        ensures
            match r {
                Some(info) => {
                    &&& self.processor is Arm11
                    &&& self.extra@.len() >= 16
                    &&& info.0@ == spec_tag_chars(self.extra@)
                    &&& info.1 == le64_at(self.extra@, 8)
                },
                None => self.processor is Arm9 || self.extra@.len() < 16,
            },
    {
        if let LumaProcessor::Arm9 = self.processor {
            return None;
        }
        if self.extra.len() < 16 {
            return None;
        }
        let tid = read_u64_le(&self.extra, 8);
        let mut process = String::new();
        let mut i: usize = 0;
        while i < 8 && self.extra[i] != 0
            invariant
                self.extra@.len() >= 16,
                i <= 8,
                forall|j: int| 0 <= j < i ==> self.extra@[j] != 0,
                process@ == Seq::new(i as nat, |j: int| self.extra@[j] as char),
            decreases 8 - i,
        {
            let c: char = self.extra[i] as char;
            process.push(c);
            i = i + 1;
            proof {
                assert(process@ =~= Seq::new(i as nat, |j: int| self.extra@[j] as char));
            }
        }
        proof {
            lemma_tag_len_from(self.extra@, 0, i as int);
        }
        Some((process, tid))
    }
}

/// The optional fault-status tail entry at `idx`, when the register file
/// reaches it.
pub open spec fn spec_reg_tail(regs: Seq<u32>, idx: int) -> Option<u32> {
    if regs.len() > idx {
        Some(regs[idx])
    } else {
        None
    }
}

/// Copies the register at `idx` if the file reaches it.
fn reg_get(regs: &Vec<u32>, idx: usize) -> (r: Option<u32>)
    ensures
        r == spec_reg_tail(regs@, idx as int),
{
    if regs.len() > idx {
        Some(regs[idx])
    } else {
        None
    }
}

/// Whether a scanned stack word lies in one of the two plausible code
/// address ranges.
pub open spec fn spec_plausible_code_addr(val: u32) -> bool {
    (0x00100000 <= val && val < 0x04000000) || (0x07000100 <= val && val < 0x08000000)
}

/// The call stack the heuristic scan reconstructs: the stack blob is read 4
/// bytes at a time as little-endian words, keeping each word that lies in a
/// plausible code range, until `size` words are kept or the blob is
/// exhausted.
pub open spec fn spec_call_stack(stack: Seq<u8>, size: nat) -> Seq<u32> {
    spec_scan_from(stack, 0, size)
}

/// The scan of [`spec_call_stack`] from offset `i` with `remaining`
/// capacity.
pub open spec fn spec_scan_from(stack: Seq<u8>, i: int, remaining: nat) -> Seq<u32>
    decreases stack.len() - i,
{
    if remaining == 0 || i < 0 || i + 4 > stack.len() {
        Seq::empty()
    } else if spec_plausible_code_addr(le32_at(stack, i)) {
        seq![le32_at(stack, i)] + spec_scan_from(stack, i + 4, (remaining - 1) as nat)
    } else {
        spec_scan_from(stack, i + 4, remaining)
    }
}

/// The index of the first zero byte among the first eight of `extra`,
/// or eight if none is zero, scanning from `k`.
pub open spec fn spec_tag_len_from(extra: Seq<u8>, k: int) -> int
    decreases 8 - k,
{
    if k < 0 || k >= 8 {
        8
    } else if extra[k] == 0 {
        k
    } else {
        spec_tag_len_from(extra, k + 1)
    }
}

/// The characters of the null-terminated ASCII process tag at the start of
/// the extra blob.
pub open spec fn spec_tag_chars(extra: Seq<u8>) -> Seq<char> {
    Seq::new(spec_tag_len_from(extra, 0) as nat, |j: int| extra[j] as char)
}

/// Scanning onward from a prefix of nonzero bytes lands on the first zero.
proof fn lemma_tag_len_from(extra: Seq<u8>, k: int, i: int)
    requires
        0 <= k <= i <= 8,
        extra.len() >= 8,
        forall|j: int| k <= j < i ==> extra[j] != 0,
        i < 8 ==> extra[i] == 0,
    ensures
        spec_tag_len_from(extra, k) == i,
    decreases i - k,
{
    if k < i {
        lemma_tag_len_from(extra, k + 1, i);
    }
}

} // verus!
