//! Unit tests of the text utilities, the type model, the determinism pass,
//! and the runtime decisions.

use vipsgen::dedup::{dedup_strings, sort_strings, str_le};
use vipsgen::model::{Enumeration, ParamType};
use vipsgen::names::{to_class_case, to_snake_case};
use vipsgen::runtime::{formatter_outcome, FormatOutcome, InitError, LinearOptions, VipsApp};
use vipsgen::text::{
    contains_str, i32_to_string, is_float_literal, join_strings, parse_i32, parse_u64, split_str,
    starts_with, str_eq, u64_to_string,
};
use vipsgen::typemodel::enum_name;

#[test]
fn decimal_rendering() {
    assert_eq!(u64_to_string(0), "0");
    assert_eq!(u64_to_string(7), "7");
    assert_eq!(u64_to_string(12034), "12034");
    assert_eq!(u64_to_string(u64::MAX), "18446744073709551615");
    assert_eq!(i32_to_string(0), "0");
    assert_eq!(i32_to_string(-1), "-1");
    assert_eq!(i32_to_string(2147483647), "2147483647");
    assert_eq!(i32_to_string(-2147483648), "-2147483648");
}

#[test]
fn decimal_parsing() {
    assert_eq!(parse_u64("0"), Some(0));
    assert_eq!(parse_u64("+42"), Some(42));
    assert_eq!(parse_u64("18446744073709551615"), Some(u64::MAX));
    assert_eq!(parse_u64("18446744073709551616"), None);
    assert_eq!(parse_u64(""), None);
    assert_eq!(parse_u64("-1"), None);
    assert_eq!(parse_u64("1x"), None);
    assert_eq!(parse_i32("-2147483648"), Some(i32::MIN));
    assert_eq!(parse_i32("2147483647"), Some(i32::MAX));
    assert_eq!(parse_i32("2147483648"), None);
    assert_eq!(parse_i32("+7"), Some(7));
    assert_eq!(parse_i32("--7"), None);
    assert_eq!(parse_i32(""), None);
}

#[test]
fn float_literal_grammar() {
    assert!(is_float_literal("0"));
    assert!(is_float_literal("-0.5"));
    assert!(is_float_literal(".5"));
    assert!(is_float_literal("5."));
    assert!(is_float_literal("1.5e-3"));
    assert!(is_float_literal("1E9"));
    assert!(is_float_literal("inf"));
    assert!(is_float_literal("-inf"));
    assert!(is_float_literal("Infinity"));
    assert!(is_float_literal("NaN"));
    assert!(!is_float_literal(""));
    assert!(!is_float_literal("."));
    assert!(!is_float_literal("1..2"));
    assert!(!is_float_literal("1e"));
    assert!(!is_float_literal("abc"));
    assert!(!is_float_literal("1.5f"));
}

#[test]
fn string_utilities() {
    assert!(str_eq("abc", "abc"));
    assert!(!str_eq("abc", "abd"));
    assert!(starts_with("double:0:1:0", "double"));
    assert!(!starts_with("int", "int:"));
    assert!(contains_str("Load ICC profile", "ICC"));
    assert!(!contains_str("plain text", "ICC"));
    let parts = split_str("a:b::c", ':');
    assert_eq!(parts, vec!["a", "b", "", "c"]);
    assert_eq!(split_str("", ':'), vec![""]);
    let joined = join_strings(&vec!["x".to_string(), "y".to_string(), "z".to_string()], ", ");
    assert_eq!(joined, "x, y, z");
}

#[test]
fn case_conversion_is_applied() {
    assert_eq!(to_snake_case("FooBar"), "foo_bar");
    assert_eq!(to_snake_case("resize"), "resize");
    assert_eq!(to_class_case("thumbnail"), "Thumbnail");
    assert_eq!(to_class_case("icc_import"), "IccImport");
}

#[test]
fn enum_names_drop_native_prefix() {
    assert_eq!(enum_name("VipsInteresting"), "Interesting");
    assert_eq!(enum_name("Intent"), "Intent");
    assert_eq!(enum_name("VipsFooVipsBar"), "Foo");
}

#[test]
fn enumeration_entry_rendering() {
    let labs = Enumeration {
        name: "VIPS_INTERPRETATION_LABS".to_string(),
        nick: "labs".to_string(),
        value: 16,
    };
    assert!(labs.code().contains("Labs = 16,"));
    let plain = Enumeration {
        name: "VIPS_MODE_FANCY".to_string(),
        nick: "fancy".to_string(),
        value: 1,
    };
    assert_eq!(plain.doc(), "///  `Fancy` -> VIPS_MODE_FANCY = 1");
    assert!(plain.code().ends_with("Fancy = 1,"));
}

#[test]
fn type_model_defaults() {
    assert_eq!(ParamType::Int { min: -5, max: 5, default: -1 }.default(), "i32::from(-1)");
    assert_eq!(ParamType::UInt { min: 0, max: 10, default: 3 }.default(), "3");
    assert_eq!(
        ParamType::Double { min: "0".into(), max: "1".into(), default: "0.5".into() }.default(),
        "f64::from(0.5)"
    );
    assert_eq!(ParamType::Str.default(), "String::new()");
    assert_eq!(ParamType::Bool { default: true }.default(), "true");
    assert_eq!(ParamType::ArrayDouble.default(), "Vec::new()");
    let e = ParamType::Enum {
        name: "VipsMode".to_string(),
        entries: vec![
            Enumeration { name: "VIPS_MODE_PLAIN".to_string(), nick: "plain".to_string(), value: 0 },
            Enumeration { name: "VIPS_MODE_FANCY".to_string(), nick: "fancy".to_string(), value: 1 },
        ],
        default: 1,
    };
    assert_eq!(e.default(), "Mode::Fancy");
}

#[test]
fn type_model_docs() {
    assert_eq!(
        ParamType::Int { min: 0, max: 10, default: 1 }.doc(),
        "/// min: 0, max: 10, default: 1"
    );
    assert_eq!(ParamType::Bool { default: false }.doc(), "/// default: false");
    assert_eq!(ParamType::Str.doc(), "");
}

#[test]
fn sort_and_dedup_are_textual() {
    assert!(str_le("abc", "abd"));
    assert!(str_le("ab", "abc"));
    assert!(!str_le("b", "abc"));
    let sorted = sort_strings(vec!["b".to_string(), "a".to_string(), "b".to_string()]);
    assert_eq!(sorted, vec!["a", "b", "b"]);
    let deduped = dedup_strings(sorted);
    assert_eq!(deduped, vec!["a", "b"]);
    // dedup is by exact text: different whitespace survives
    let kept = dedup_strings(vec!["enum A".to_string(), "enum  A".to_string()]);
    assert_eq!(kept.len(), 2);
}

#[test]
fn initialization_outcomes() {
    assert!(VipsApp::new("app", false, 0).is_ok());
    assert!(VipsApp::default("app", 0).is_ok());
    assert!(matches!(VipsApp::new("app", true, -1), Err(InitError::InitFailed)));
    assert!(matches!(VipsApp::new("a\0pp", false, 0), Err(InitError::NulInName)));
    assert!(matches!(VipsApp::default("a\0pp", 0), Err(InitError::NulInName)));
    assert_eq!(
        InitError::NulInName.message(),
        "Failed to convert rust string to C string"
    );
    assert_eq!(InitError::InitFailed.message(), "Failed to init libvips");
}

#[test]
fn linear_options_default() {
    let opts = LinearOptions::default();
    assert_eq!(opts.uchar, false);
}

#[test]
fn formatter_outcomes() {
    assert_eq!(formatter_outcome(Some(0), true), FormatOutcome::Accepted);
    assert_eq!(formatter_outcome(Some(3), true), FormatOutcome::AcceptedPartial);
    assert_eq!(formatter_outcome(Some(2), true), FormatOutcome::Fatal);
    assert_eq!(formatter_outcome(Some(1), true), FormatOutcome::Fallback);
    assert_eq!(formatter_outcome(None, true), FormatOutcome::Fallback);
    assert_eq!(formatter_outcome(Some(0), false), FormatOutcome::Fallback);
}
