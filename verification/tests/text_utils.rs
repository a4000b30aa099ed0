use bertram::crash::saltwater::Region;
use bertram::crash::{fault_status_description, ExcType};
use bertram::faq::FaqQuestion;
use bertram::text::{hex_string, parse_hex_u32, str_eq};

#[test]
fn hex_rendering_is_minimal_lowercase() {
    assert_eq!(hex_string(0x0000abcd), "abcd");
    assert_eq!(hex_string(0), "0");
    assert_eq!(hex_string(0xdeadc0de), "deadc0de");
    assert_eq!(hex_string(16), "10");
    assert_eq!(hex_string(9), "9");
}

#[test]
fn hex_parsing_is_fixed_width() {
    assert_eq!(parse_hex_u32("0011e764"), Some(0x0011e764));
    assert_eq!(parse_hex_u32("0011E764"), Some(0x0011e764));
    assert_eq!(parse_hex_u32("ffffffff"), Some(0xffffffff));
    assert_eq!(parse_hex_u32("00000000"), Some(0));
    assert_eq!(parse_hex_u32("11e764"), None);
    assert_eq!(parse_hex_u32("0x11e764"), None);
    assert_eq!(parse_hex_u32("0011e76"), None);
    assert_eq!(parse_hex_u32("0011e7641"), None);
    assert_eq!(parse_hex_u32(""), None);
}

#[test]
fn string_equality_compares_characters() {
    assert!(str_eq("", ""));
    assert!(str_eq("Global", "Global"));
    assert!(!str_eq("Global", "global"));
    assert!(!str_eq("a", "ab"));
}

#[test]
fn status_register_names_follow_the_exception_kind() {
    assert_eq!(ExcType::UndefinedInst.status_reg_names(), [None, None]);
    assert_eq!(
        ExcType::FloatingPoint.status_reg_names(),
        [Some("fpexc"), Some("fpinst")]
    );
    assert_eq!(ExcType::PrefetchAbort.status_reg_names(), [Some("ifsr"), None]);
    assert_eq!(ExcType::DataAbort.status_reg_names(), [Some("dfsr"), Some("far")]);
}

#[test]
fn errf_codes_map_to_exception_kinds() {
    assert_eq!(ExcType::from_errf_code(0), Some(ExcType::PrefetchAbort));
    assert_eq!(ExcType::from_errf_code(1), Some(ExcType::DataAbort));
    assert_eq!(ExcType::from_errf_code(2), Some(ExcType::UndefinedInst));
    assert_eq!(ExcType::from_errf_code(3), Some(ExcType::FloatingPoint));
    assert_eq!(ExcType::from_errf_code(4), None);
}

#[test]
fn fault_codes_read_the_labeled_status_slot() {
    // data abort: the low nibble of the first slot plus its bit 10
    assert_eq!(ExcType::DataAbort.fault_code(0x00000405, 0), Some(0x6));
    assert_eq!(ExcType::DataAbort.fault_code(0x00000005, 0), Some(0x5));
    // prefetch abort: the low nibble of the second slot
    assert_eq!(ExcType::PrefetchAbort.fault_code(0xffffffff, 0x37), Some(0x7));
    assert_eq!(ExcType::FloatingPoint.fault_code(1, 2), None);
    assert_eq!(ExcType::UndefinedInst.fault_code(1, 2), None);
}

#[test]
fn fault_status_table_matches_known_codes() {
    assert_eq!(fault_status_description(0b1), "Alignment");
    assert_eq!(fault_status_description(0b101), "Translation - Section");
    assert_eq!(fault_status_description(0b10110), "Imprecise External Abort");
    assert_eq!(fault_status_description(0b11111), "Invalid");
    assert_eq!(fault_status_description(0), "Invalid");
}

#[test]
fn descriptions_match_the_display_forms() {
    assert_eq!(ExcType::DataAbort.description(), "data abort");
    assert_eq!(ExcType::PrefetchAbort.description(), "prefetch abort");
    assert_eq!(ExcType::UndefinedInst.description(), "undefined instruction");
    assert_eq!(ExcType::FloatingPoint.description(), "floating point exception");
    assert_eq!(Region::US.description(), "North America");
    assert_eq!(Region::UNK.description(), "Unknown title ID!");
}

#[test]
fn faq_question_keeps_its_fields() {
    let q = FaqQuestion::new("tag", "what?", "that.");
    assert_eq!(q.name, "tag");
    assert_eq!(q.question, "what?");
    assert_eq!(q.answer, "that.");
}
