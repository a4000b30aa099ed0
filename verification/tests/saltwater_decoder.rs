use bertram::crash::saltwater::{CrashSWD, Region, SWDType, SWDVersion};
use bertram::crash::{CrashError, ExcType, ModdingEngine};

fn push_u32(buf: &mut Vec<u8>, v: u32) {
    buf.extend_from_slice(&v.to_le_bytes());
}

/// The fixed prefix of every plugin-runtime dump, up to and including the
/// version field (the next byte is offset 16).
fn swd_prefix(crash_type: u8, region: u8, exception: u8, release: bool, version: &[u8]) -> Vec<u8> {
    let mut buf = Vec::new();
    buf.extend_from_slice(b"SELCRAH\0");
    buf.push(crash_type);
    buf.push(region);
    buf.push(exception);
    buf.push(if release { 1 } else { 0 });
    buf.extend_from_slice(version);
    assert_eq!(buf.len(), 16);
    buf
}

fn push_scalars_and_call_stack(buf: &mut Vec<u8>) {
    push_u32(buf, 0x00150000); // pc
    push_u32(buf, 0x00150010); // lr
    push_u32(buf, 0x60000010); // cpsr
    push_u32(buf, 0x00000805); // status a
    push_u32(buf, 0x00000007); // status b
    for k in 0..5u32 {
        push_u32(buf, 0x00160000 + k * 4);
    }
}

#[test]
fn decodes_short_debug_scenario() {
    // discriminator 1 (short), region 1, exception 2, release flag 0,
    // debug tag 0x0000ABCD: the version renders as "abcd"
    let mut buf = swd_prefix(1, 1, 2, false, &0x0000abcdu32.to_le_bytes());
    push_scalars_and_call_stack(&mut buf);
    let d = CrashSWD::from_bytes(&buf).unwrap();
    assert_eq!(d.crash_type, SWDType::Short);
    assert_eq!(d.region, Region::US);
    assert_eq!(d.exception_type, ExcType::PrefetchAbort);
    match &d.version {
        SWDVersion::Debug { commit_hash } => assert_eq!(commit_hash, "abcd"),
        SWDVersion::Release { .. } => panic!("expected a debug version"),
    }
    assert_eq!(d.pc, 0x00150000);
    assert_eq!(d.lr, 0x00150010);
    assert_eq!(d.cpsr, 0x60000010);
    assert_eq!(d.status_a, 0x00000805);
    assert_eq!(d.status_b, 0x00000007);
    assert_eq!(
        d.call_stack.to_vec(),
        vec![0x00160000, 0x00160004, 0x00160008, 0x0016000c, 0x00160010]
    );
    assert!(d.registers.is_none());
    assert!(d.stack.is_none());
}

#[test]
fn decodes_release_version() {
    let mut buf = swd_prefix(1, 0, 3, true, &[2, 5, 1, 0]);
    push_scalars_and_call_stack(&mut buf);
    let d = CrashSWD::from_bytes(&buf).unwrap();
    assert_eq!(d.region, Region::JP);
    match &d.version {
        SWDVersion::Release { major, minor, patch } => {
            assert_eq!((*major, *minor, *patch), (2, 5, 1));
        }
        SWDVersion::Debug { .. } => panic!("expected a release version"),
    }
}

#[test]
fn extended_stack_is_clamped_to_256_bytes() {
    // an extended dump whose declared stack length exceeds the cap
    let mut buf = swd_prefix(0, 1, 3, true, &[1, 0, 0, 0]);
    push_scalars_and_call_stack(&mut buf);
    for k in 0..14u32 {
        push_u32(&mut buf, 0x1000 + k);
    }
    push_u32(&mut buf, 0x00000200); // declared length 512
    buf.extend_from_slice(&vec![0xaau8; 0x200]);
    let d = CrashSWD::from_bytes(&buf).unwrap();
    assert_eq!(d.crash_type, SWDType::Extended);
    let regs = d.registers.unwrap();
    assert_eq!(regs.to_vec(), (0x1000u32..0x100e).collect::<Vec<u32>>());
    // stack.len() == min(declared_length, 256)
    assert_eq!(d.stack.unwrap().len(), 0x100);
}

#[test]
fn extended_short_declared_stack_is_kept_whole() {
    let mut buf = swd_prefix(0, 1, 3, true, &[1, 0, 0, 0]);
    push_scalars_and_call_stack(&mut buf);
    for _ in 0..14 {
        push_u32(&mut buf, 0);
    }
    push_u32(&mut buf, 5);
    buf.extend_from_slice(&[9, 8, 7, 6, 5]);
    let d = CrashSWD::from_bytes(&buf).unwrap();
    assert_eq!(d.stack.unwrap(), vec![9, 8, 7, 6, 5]);
}

#[test]
fn release_flag_means_release_exactly_at_one() {
    // the flag is a one-byte boolean that is true only for the byte 1, so
    // any other value, not just 0, selects the debug form of the version
    let mut zero = swd_prefix(1, 1, 2, false, &0x00000123u32.to_le_bytes());
    push_scalars_and_call_stack(&mut zero);
    match &CrashSWD::from_bytes(&zero).unwrap().version {
        SWDVersion::Debug { commit_hash } => assert_eq!(commit_hash, "123"),
        SWDVersion::Release { .. } => panic!("flag byte 0 is a debug build"),
    }

    let mut two = swd_prefix(1, 1, 2, false, &0x00000123u32.to_le_bytes());
    two[11] = 2;
    push_scalars_and_call_stack(&mut two);
    match &CrashSWD::from_bytes(&two).unwrap().version {
        SWDVersion::Debug { commit_hash } => assert_eq!(commit_hash, "123"),
        SWDVersion::Release { .. } => panic!("flag byte 2 is a debug build, not a release"),
    }

    let mut one = swd_prefix(1, 1, 2, true, &[3, 1, 4, 0]);
    push_scalars_and_call_stack(&mut one);
    assert!(matches!(
        CrashSWD::from_bytes(&one).unwrap().version,
        SWDVersion::Release { major: 3, minor: 1, patch: 4 }
    ));
}

#[test]
fn unknown_region_byte_decodes_to_sentinel() {
    let mut buf = swd_prefix(1, 9, 2, false, &[0, 0, 0, 0]);
    push_scalars_and_call_stack(&mut buf);
    let d = CrashSWD::from_bytes(&buf).unwrap();
    assert_eq!(d.region, Region::UNK);
}

#[test]
fn swd_rejects_wrong_magic() {
    let mut buf = swd_prefix(1, 1, 2, false, &[0, 0, 0, 0]);
    push_scalars_and_call_stack(&mut buf);
    buf[7] = b'!';
    assert_eq!(
        CrashSWD::from_bytes(&buf).unwrap_err(),
        CrashError::NotThisFormat
    );
}

#[test]
fn swd_rejects_bad_discriminator_and_exception() {
    let mut a = swd_prefix(2, 1, 2, false, &[0, 0, 0, 0]);
    push_scalars_and_call_stack(&mut a);
    assert_eq!(CrashSWD::from_bytes(&a).unwrap_err(), CrashError::InvalidField);

    let mut b = swd_prefix(1, 1, 7, false, &[0, 0, 0, 0]);
    push_scalars_and_call_stack(&mut b);
    assert_eq!(CrashSWD::from_bytes(&b).unwrap_err(), CrashError::InvalidField);
}

#[test]
fn swd_rejects_truncated_buffers() {
    let mut buf = swd_prefix(0, 1, 3, true, &[1, 0, 0, 0]);
    push_scalars_and_call_stack(&mut buf);
    // a short read inside the call stack
    assert_eq!(
        CrashSWD::from_bytes(&buf[..40].to_vec()).unwrap_err(),
        CrashError::Truncated
    );
    // an extended dump cut before its register file ends
    assert_eq!(
        CrashSWD::from_bytes(&buf).unwrap_err(),
        CrashError::Truncated
    );
}

#[test]
fn swd_as_generic_maps_status_slots_by_exception_kind() {
    // a data abort: the slots land in dfsr and far
    let mut buf = swd_prefix(1, 1, 3, true, &[1, 0, 0, 0]);
    push_scalars_and_call_stack(&mut buf);
    let g = CrashSWD::from_bytes(&buf).unwrap().as_generic();
    match &g.engine {
        ModdingEngine::SpiceRack(t, _, r) => {
            assert_eq!(*t, SWDType::Short);
            assert_eq!(*r, Region::US);
        }
        ModdingEngine::RHMPatch => panic!("expected the plugin runtime engine"),
    }
    assert!(g.r.is_none());
    assert!(g.sp.is_none());
    assert_eq!(g.pc, 0x00150000);
    assert_eq!(g.lr, 0x00150010);
    assert_eq!(g.dfsr, Some(0x00000805));
    assert_eq!(g.far, Some(0x00000007));
    assert_eq!(g.ifsr, None);
    assert_eq!(g.fpexc, None);
    assert_eq!(
        g.call_stack.unwrap(),
        vec![0x00160000, 0x00160004, 0x00160008, 0x0016000c, 0x00160010]
    );

    // a prefetch abort: the first slot is the ifsr
    let mut buf2 = swd_prefix(1, 1, 2, true, &[1, 0, 0, 0]);
    push_scalars_and_call_stack(&mut buf2);
    let g2 = CrashSWD::from_bytes(&buf2).unwrap().as_generic();
    assert_eq!(g2.ifsr, Some(0x00000805));
    assert_eq!(g2.dfsr, None);
    assert_eq!(g2.far, None);

    // a floating point exception: fpexc and fpinst
    let mut buf3 = swd_prefix(1, 1, 0, true, &[1, 0, 0, 0]);
    push_scalars_and_call_stack(&mut buf3);
    let g3 = CrashSWD::from_bytes(&buf3).unwrap().as_generic();
    assert_eq!(g3.fpexc, Some(0x00000805));
    assert_eq!(g3.fpinst, Some(0x00000007));
    assert_eq!(g3.dfsr, None);
}

#[test]
fn swd_extended_as_generic_carries_registers() {
    let mut buf = swd_prefix(0, 2, 1, true, &[1, 0, 0, 0]);
    push_scalars_and_call_stack(&mut buf);
    for k in 0..14u32 {
        push_u32(&mut buf, 0x2000 + k);
    }
    push_u32(&mut buf, 2);
    buf.extend_from_slice(&[1, 2]);
    let g = CrashSWD::from_bytes(&buf).unwrap().as_generic();
    assert_eq!(g.r.unwrap().to_vec(), (0x2000u32..0x200d).collect::<Vec<u32>>());
    assert_eq!(g.sp, Some(0x200d));
    assert_eq!(g.stack, Some(vec![1, 2]));
    // an undefined instruction labels neither status slot
    assert_eq!(g.dfsr, None);
    assert_eq!(g.ifsr, None);
    assert_eq!(g.fpexc, None);
}
