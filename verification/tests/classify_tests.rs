use jobreport::classify::classify;
use jobreport::numbers::parse_u64;
use jobreport::IdClass;

#[test]
fn dotted_identifiers_are_discarded() {
    assert_eq!(classify("56938942.batch"), IdClass::Discard);
    assert_eq!(classify("56938942.extern"), IdClass::Discard);
    assert_eq!(classify("1.2"), IdClass::Discard);
    assert_eq!(classify("."), IdClass::Discard);
    assert_eq!(classify("39122024_16.batch"), IdClass::Discard);
}

#[test]
fn array_elements_are_classified() {
    assert_eq!(
        classify("56938944_1"),
        IdClass::ArrayElement {
            base: 56938944,
            index: 1
        }
    );
    assert_eq!(
        classify("39122024_16"),
        IdClass::ArrayElement {
            base: 39122024,
            index: 16
        }
    );
    assert_eq!(classify("0_0"), IdClass::ArrayElement { base: 0, index: 0 });
}

#[test]
fn malformed_array_tokens_are_discarded_not_singular() {
    // a trailing modifier on the index must not fall through to singular
    assert_eq!(classify("39122024_16+"), IdClass::Discard);
    assert_eq!(classify("a_1"), IdClass::Discard);
    assert_eq!(classify("1_b"), IdClass::Discard);
    assert_eq!(classify("_1"), IdClass::Discard);
    assert_eq!(classify("1_"), IdClass::Discard);
    assert_eq!(classify("1_2_3"), IdClass::Discard);
}

#[test]
fn numeric_tokens_are_singular() {
    assert_eq!(classify("56938942"), IdClass::Singular { id: 56938942 });
    assert_eq!(classify("0"), IdClass::Singular { id: 0 });
    assert_eq!(classify("7"), IdClass::Singular { id: 7 });
}

#[test]
fn other_tokens_are_discarded() {
    assert_eq!(classify(""), IdClass::Discard);
    assert_eq!(classify("batch"), IdClass::Discard);
    assert_eq!(classify("+5"), IdClass::Discard);
    assert_eq!(classify("-5"), IdClass::Discard);
    assert_eq!(classify("12a"), IdClass::Discard);
    // a value beyond the machine word is not a valid identifier
    assert_eq!(classify("99999999999999999999999"), IdClass::Discard);
}

#[test]
fn parse_u64_accepts_plain_decimals_only() {
    assert_eq!(parse_u64("0"), Some(0));
    assert_eq!(parse_u64("123"), Some(123));
    assert_eq!(parse_u64("007"), Some(7));
    assert_eq!(parse_u64(""), None);
    assert_eq!(parse_u64("+1"), None);
    assert_eq!(parse_u64(" 1"), None);
    assert_eq!(parse_u64("18446744073709551615"), Some(u64::MAX));
    assert_eq!(parse_u64("18446744073709551616"), None);
}
