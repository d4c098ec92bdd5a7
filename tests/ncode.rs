use okkake::ncode::{Ncode, NcodeParseError};

#[test]
fn test_ncode_roundtrip() {
    let cases = ["n4830bu", "n9999x", "n1234a", "n0000a", "n0001a"];
    for &case in cases.iter() {
        assert_eq!(case.parse::<Ncode>().unwrap().to_string(), case);
    }
}

#[test]
fn test_ncode_normalize() {
    let cases = [
        ("N4830Bu", "n4830bu"),
        ("n0000y", "n9999x"),
        ("n0000", "n0000a"),
        ("n1010", "n1010a"),
        ("n4830aaaaaabu", "n4830bu"),
    ];
    for &(input, output) in cases.iter() {
        assert_eq!(input.parse::<Ncode>().unwrap().to_string(), output);
    }
}

#[test]
fn test_ncode_parse_error() {
    let cases = ["", "n", "n0", "n00", "n000", "n00000", "na", "naa"];
    for &case in cases.iter() {
        assert!(
            case.parse::<Ncode>().is_err(),
            "Expected parse error: {:?}",
            case
        );
    }
}

#[test]
fn ncode_numbers_decode_exactly() {
    assert_eq!(Ncode::parse("n0000a"), Ok(Ncode(0)));
    assert_eq!(Ncode::parse("n0001a"), Ok(Ncode(1)));
    assert_eq!(Ncode::parse("n9999a"), Ok(Ncode(9999)));
    assert_eq!(Ncode::parse("n0001b"), Ok(Ncode(10000)));
    // bu = 1 * 26 + 20 = 46; 46 * 9999 + 4830
    assert_eq!(Ncode::parse("n4830bu"), Ok(Ncode(464784)));
    assert_eq!(Ncode::parse("N4830BU"), Ok(Ncode(464784)));
}

#[test]
fn ncode_numbers_encode_canonically() {
    assert_eq!(Ncode(0).to_string(), "n0000a");
    assert_eq!(Ncode(1).to_string(), "n0001a");
    assert_eq!(Ncode(9999).to_string(), "n9999a");
    assert_eq!(Ncode(10000).to_string(), "n0001b");
    assert_eq!(Ncode(464784).to_string(), "n4830bu");
    assert_eq!(Ncode(26 * 9999 + 1).to_string(), "n0001ba");
}

#[test]
fn ncode_largest_value_round_trips() {
    let text = Ncode(u32::MAX).to_string();
    assert_eq!(text, "n6834ylkt");
    assert_eq!(Ncode::parse(&text), Ok(Ncode(u32::MAX)));
}

#[test]
fn ncode_overflow_is_an_error() {
    assert_eq!(Ncode::parse("n6835ylkt"), Err(NcodeParseError));
    assert_eq!(Ncode::parse("n0000zzzzzzzzzz"), Err(NcodeParseError));
}

#[test]
fn ncode_rejects_bad_characters() {
    assert!(Ncode::parse("x4830bu").is_err());
    assert!(Ncode::parse("n48a0bu").is_err());
    assert!(Ncode::parse("n4830b1").is_err());
    assert!(Ncode::parse("n4830bü").is_err());
    assert!(Ncode::parse("n+830bu").is_err());
    assert!(Ncode::parse("ｎ4830bu").is_err());
}

#[test]
fn ncode_parse_error_message() {
    assert_eq!(NcodeParseError.to_string(), "Invalid ncode");
}
