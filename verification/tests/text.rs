use hl7_ls::cli::{log_level, use_colours, ColourChoice, Commands, LogLevel};
use hl7_ls::numeric::is_number;
use hl7_ls::text::{decimal, ends_with, join, str_eq, str_le};

#[test]
fn decimal_numerals() {
    assert_eq!(decimal(0), "0");
    assert_eq!(decimal(7), "7");
    assert_eq!(decimal(10), "10");
    assert_eq!(decimal(1234567890), "1234567890");
    assert_eq!(decimal(usize::MAX), usize::MAX.to_string());
}

#[test]
fn string_equality() {
    assert!(str_eq("", ""));
    assert!(str_eq("NM", "NM"));
    assert!(!str_eq("NM", "NMx"));
    assert!(!str_eq("NM", "Nm"));
    assert!(str_eq("h\u{e9}", "h\u{e9}"));
}

#[test]
fn suffix_test() {
    assert!(ends_with("a.hl7v.toml", ".hl7v.toml"));
    assert!(ends_with(".hl7v.toml", ".hl7v.toml"));
    assert!(!ends_with("hl7v.toml", ".hl7v.toml"));
    assert!(!ends_with("a.hl7v.toml.bak", ".hl7v.toml"));
    assert!(ends_with("abc", ""));
}

#[test]
fn byte_order_agrees_with_the_order_of_strings() {
    let words = ["", "a", "ab", "b", "B", "aa", "a\u{e9}", "z", "10", "9", "A01", "A1"];
    for a in words {
        for b in words {
            assert_eq!(str_le(a, b), a <= b, "{a:?} {b:?}");
        }
    }
}

#[test]
fn joining() {
    assert_eq!(join(&vec![], ", "), "");
    assert_eq!(join(&vec!["a".to_string()], ", "), "a");
    assert_eq!(join(&vec!["a".to_string(), "".to_string(), "c".to_string()], ", "), "a, , c");
}

#[test]
fn numbers_are_decimal_numerals() {
    let samples = [
        "", "+", "-", ".", "+.", "e5", "1", "12", "12a", "a12", "1.", ".5", "+.5", "-1.5", "1.5.2",
        "1e5", "1E5", "1e+5", "1e-5", "1e", "1e+", "1.e5", ".e5", ".5e5", "1_0", "0x10", " 1", "1 ",
        "1e5e5", "++1", "1-", "--1", "1,5", "99999999999999999999999999999999999999999",
        "1e99999", "0.0000000000000000000000000000000001", "\u{661}", "1\u{e9}",
        "e", "E", "-e1", "1.2E+3", "1.2E+", "00012", "-0", "+0.0e-0",
    ];
    // a decimal numeral is what parses as a float and is no word
    for s in samples {
        assert_eq!(is_number(s), s.parse::<f64>().is_ok(), "{s:?}");
    }
    let words = [
        "inf", "Inf", "INF", "+inf", "-inf", "infinity", "InFiNiTy", "infinit", "infinityy", "nan",
        "NaN", "+nan", "-NAN", "nane", "in", "+inf.", "infi",
    ];
    for s in words {
        assert!(!is_number(s), "{s:?}");
    }
}

#[test]
fn logging_follows_the_command_line() {
    let to_file = Some(Commands::LogToFile { log_file: "log.txt".to_string() });
    let to_stderr = Some(Commands::LogToStderr);
    assert!(!use_colours(ColourChoice::Never, &None, true));
    assert!(use_colours(ColourChoice::Always, &to_file, false));
    assert!(!use_colours(ColourChoice::Auto, &to_file, true));
    assert!(use_colours(ColourChoice::Auto, &to_stderr, true));
    assert!(!use_colours(ColourChoice::Auto, &to_stderr, false));
    assert!(use_colours(ColourChoice::Auto, &None, true));
    assert!(!use_colours(ColourChoice::Auto, &None, false));
    assert_eq!(log_level(0), LogLevel::Info);
    assert_eq!(log_level(1), LogLevel::Debug);
    assert_eq!(log_level(2), LogLevel::Trace);
    assert_eq!(log_level(255), LogLevel::Trace);
}
