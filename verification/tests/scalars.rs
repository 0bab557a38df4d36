use objscene::scalar::is_scalar;
use objscene::text::str_eq;
use objscene::text::tokens;

#[test]
fn accepts_plain_and_signed_numbers() {
    for s in ["1", "0", "12", "-0.5", "+3.25", "1.", ".5", "-.5", "100", "0.0"] {
        assert!(is_scalar(s), "token {:?}", s);
    }
}

#[test]
fn accepts_exponents() {
    for s in ["1e5", "1E5", "1e-5", "1E+5", "-2.5e10", ".5e1", "3.e2"] {
        assert!(is_scalar(s), "token {:?}", s);
    }
}

#[test]
fn accepts_special_words_in_any_case() {
    for s in ["inf", "INF", "Inf", "-inf", "+inf", "infinity", "Infinity", "nan", "NaN", "-NAN"] {
        assert!(is_scalar(s), "token {:?}", s);
    }
}

#[test]
fn rejects_everything_else() {
    for s in [
        "", ".", "+", "-", "e5", "1e", "1e+", "--1", "1.2.3", "abc", "1f", "0x1", "1 ", " 1",
        "in", "infini", "nanx", "1e5e5", "1.5e1.5",
    ] {
        assert!(!is_scalar(s), "token {:?}", s);
    }
}

#[test]
fn agrees_with_the_standard_parser() {
    for s in [
        "1", "0", "12", "-0.5", "+3.25", "1.", ".5", "-.5", "1e5", "1E5", "1e-5", "1E+5",
        "-2.5e10", ".5e1", "3.e2", "inf", "INF", "-inf", "infinity", "nan", "NaN", "",
        ".", "+", "-", "e5", "1e", "1e+", "--1", "1.2.3", "abc", "1f", "0x1", "1 ", " 1",
        "in", "infini", "nanx", "1e5e5", "1.5e1.5", "340282350000000000000000000000000000000",
        "1e999", "0.000000000000000000000000000000000000000000001",
    ] {
        assert_eq!(is_scalar(s), s.parse::<f32>().is_ok(), "token {:?}", s);
    }
}

#[test]
fn tokens_drop_empty_pieces() {
    let toks = tokens("  v  1 2  ");
    let toks: Vec<&str> = toks.iter().map(|t| t.as_str()).collect();
    assert_eq!(toks, vec!["v", "1", "2"]);
}

#[test]
fn tokens_of_blank_line_are_empty() {
    assert_eq!(tokens("").len(), 0);
    assert_eq!(tokens("   ").len(), 0);
}

#[test]
fn str_eq_compares_by_characters() {
    assert!(str_eq("vt", "vt"));
    assert!(!str_eq("vt", "vn"));
    assert!(!str_eq("v", "vt"));
    assert!(str_eq("", ""));
}
