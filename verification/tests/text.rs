use c2dafny::preprocess::{delete_decreases_star, extract_assertion};
use c2dafny::strings::{is_float_literal, push_decimal, str_trim};

#[test]
fn assertion_markers_are_removed() {
    assert_eq!(extract_assertion("//@ assert(\\false);\nint x;"), " assert(false);\nint x;");
    assert_eq!(extract_assertion("a //@ b //@ c"), "a  b  c");
    assert_eq!(extract_assertion("no markers here"), "no markers here");
    assert_eq!(extract_assertion("///@@"), "/@");
}

#[test]
fn decreases_star_is_removed() {
    assert_eq!(delete_decreases_star("while x\n  decreases *\n{\n}"), "while x\n  \n{\n}");
    assert_eq!(delete_decreases_star("decreases x"), "decreases x");
    assert_eq!(delete_decreases_star("decreases *decreases *"), "");
}

#[test]
fn float_literals() {
    for ok in ["1.5", "-2", "+.5", "3.", "1e10", "2.5E-3", "inf", "-Infinity", "NaN"] {
        assert!(is_float_literal(ok), "{}", ok);
        assert!(ok.parse::<f64>().is_ok(), "{}", ok);
    }
    for bad in ["", ".", "1.2.3", "e5", "1e", "--1", "infinit", "0x10", "1_000"] {
        assert!(!is_float_literal(bad), "{}", bad);
        assert!(bad.parse::<f64>().is_err(), "{}", bad);
    }
}

#[test]
fn decimals_and_trimming() {
    let mut s = String::from("n=");
    push_decimal(&mut s, 0);
    push_decimal(&mut s, 4096);
    assert_eq!(s, "n=04096");
    assert_eq!(str_trim("  \t unsigned int \n"), "unsigned int");
    assert_eq!(str_trim("   "), "");
}
