use variant_norm::errors::Error;
use variant_norm::record::{normalize, variant_type};
use variant_norm::VariantType;

#[test]
fn test_normalize_1() {
    let (p, r, a) = normalize(1000, "A", "T").unwrap();

    assert_eq!(p, 1000);
    assert_eq!(r, "A");
    assert_eq!(a, "T");
    assert_eq!(variant_type(r, a), Some(VariantType::SNV));
}

#[test]
fn test_normalize_2() {
    let (p, r, a) = normalize(1000, "A", "AT").unwrap();

    assert_eq!(p, 1000);
    assert_eq!(r, "A");
    assert_eq!(a, "AT");
    assert_eq!(variant_type(r, a), Some(VariantType::Insertion));
}

#[test]
fn test_normalize_3() {
    let (p, r, a) = normalize(1000, "AT", "A").unwrap();

    assert_eq!(p, 1000);
    assert_eq!(r, "AT");
    assert_eq!(a, "A");
    assert_eq!(variant_type(r, a), Some(VariantType::Deletion));
}

#[test]
fn test_normalize_4() {
    let (p, r, a) = normalize(1000, "AT", "ATA").unwrap();

    assert_eq!(p, 1001);
    assert_eq!(r, "T");
    assert_eq!(a, "TA");
    assert_eq!(variant_type(r, a), Some(VariantType::Insertion));
}

#[test]
fn test_normalize_5() {
    let (p, r, a) = normalize(1000, "ATCC", "ATACC").unwrap();

    assert_eq!(p, 1001);
    assert_eq!(r, "T");
    assert_eq!(a, "TA");
    assert_eq!(variant_type(r, a), Some(VariantType::Insertion));
}

#[test]
fn test_normalize_6() {
    let (p, r, a) = normalize(1000, "ACTCC", "AGTTCC").unwrap();

    assert_eq!(p, 1001);
    assert_eq!(r, "C");
    assert_eq!(a, "GT");
    assert_eq!(variant_type(r, a), Some(VariantType::Indel));
}

#[test]
fn test_normalize_7() {
    let (p, r, a) = normalize(1000, "A", "A").unwrap();

    assert_eq!(p, 1000);
    assert_eq!(r, "A");
    assert_eq!(a, "A");
    assert_eq!(variant_type(r, a), None);
}

#[test]
fn test_normalize_err_1() {
    assert!(normalize(1000, "", "A").is_err());
}

#[test]
fn test_normalize_err_2() {
    assert!(normalize(1000, "A", "").is_err());
}

#[test]
fn test_normalize_err_3() {
    assert!(normalize(1000, ".", "A").is_err());
}

#[test]
fn test_normalize_err_4() {
    assert!(normalize(1000, "A", ".").is_err());
}

// The four validation failures are distinguishable variants, and the two
// invalid-symbol variants carry the offending allele string.
#[test]
fn error_variants_distinguishable() {
    assert!(matches!(normalize(1000, "", "A"), Err(Error::RefBasesEmptyError())));
    assert!(matches!(normalize(1000, "A", ""), Err(Error::AltBasesEmptyError())));
    match normalize(1000, "AXA", "A") {
        Err(Error::RefBasesInvalidSymbolError(s)) => assert_eq!(s, "AXA"),
        other => panic!("expected a reference symbol error, got {:?}", other),
    }
    match normalize(1000, "A", "a") {
        Err(Error::AltBasesInvalidSymbolError(s)) => assert_eq!(s, "a"),
        other => panic!("expected an alternate symbol error, got {:?}", other),
    }
}

// An empty reference is reported before the alternate is looked at, and a
// reference symbol error before an alternate symbol error.
#[test]
fn error_order_reference_first() {
    assert!(matches!(normalize(1, "", ""), Err(Error::RefBasesEmptyError())));
    assert!(matches!(normalize(1, ".", "."), Err(Error::RefBasesInvalidSymbolError(_))));
}

// Every one of the sixteen alphabet symbols is accepted.
#[test]
fn full_alphabet_accepted() {
    let (p, r, a) = normalize(7, "ACGTURYKMSWBDHVN", "ACGTURYKMSWBDHVN").unwrap();

    assert_eq!(p, 7);
    assert_eq!(r, "A");
    assert_eq!(a, "A");
    assert_eq!(variant_type(r, a), None);
}

// Matching is case-sensitive: lowercase letters are outside the alphabet.
#[test]
fn lowercase_rejected() {
    assert!(matches!(normalize(5, "acgt", "A"), Err(Error::RefBasesInvalidSymbolError(_))));
    assert!(matches!(normalize(5, "ACGT", "acgt"), Err(Error::AltBasesInvalidSymbolError(_))));
}

// Identical multi-base alleles collapse to their first base; the position
// does not move because only trailing bases are trimmed.
#[test]
fn identical_alleles_keep_anchor() {
    let (p, r, a) = normalize(1000, "GATTACA", "GATTACA").unwrap();

    assert_eq!(p, 1000);
    assert_eq!(r, "G");
    assert_eq!(a, "G");
    assert_eq!(variant_type(r, a), None);
}

// Normalizing an already normalized triple changes nothing.
#[test]
fn normalize_idempotent() {
    let cases: Vec<(u64, &str, &str)> = vec![
        (1000, "A", "T"),
        (1000, "AT", "ATA"),
        (1000, "ATCC", "ATACC"),
        (1000, "ACTCC", "AGTTCC"),
        (1000, "GATTACA", "GATTACA"),
        (42, "TTTT", "TT"),
    ];
    for (p0, r0, a0) in cases {
        let (p1, r1, a1) = normalize(p0, r0, a0).unwrap();
        let (p2, r2, a2) = normalize(p1, r1, a1).unwrap();
        assert_eq!(p2, p1);
        assert_eq!(r2, r1);
        assert_eq!(a2, a1);
    }
}

// The returned position never falls below the input position, and the
// returned alleles are never empty.
#[test]
fn position_monotone_and_nonempty() {
    let cases: Vec<(u64, &str, &str)> = vec![
        (1, "A", "T"),
        (1, "AAAA", "AAAT"),
        (900, "CCGG", "CC"),
        (900, "CC", "CCGG"),
        (u64::MAX - 10, "ACGT", "ACGA"),
    ];
    for (p0, r0, a0) in cases {
        let (p1, r1, a1) = normalize(p0, r0, a0).unwrap();
        assert!(p1 >= p0);
        assert!(!r1.is_empty());
        assert!(!a1.is_empty());
    }
}

// A trailing trim that would empty the shorter allele keeps one anchor base
// on both sides and leaves the position alone.
#[test]
fn trailing_anchor_retained() {
    let (p, r, a) = normalize(300, "TTTT", "TT").unwrap();

    assert_eq!(p, 300);
    assert_eq!(r, "TTT");
    assert_eq!(a, "T");
    assert_eq!(variant_type(r, a), Some(VariantType::Deletion));
}

// Classification looks only at the two strings it is given.
#[test]
fn variant_type_rules() {
    assert_eq!(variant_type("A", "C"), Some(VariantType::SNV));
    assert_eq!(variant_type("AG", "CT"), Some(VariantType::MNV));
    assert_eq!(variant_type("A", "AGG"), Some(VariantType::Insertion));
    assert_eq!(variant_type("AGG", "A"), Some(VariantType::Deletion));
    // Without the anchor base, a length mismatch is only an indel.
    assert_eq!(variant_type("A", "GGA"), Some(VariantType::Indel));
    assert_eq!(variant_type("GGA", "A"), Some(VariantType::Indel));
    assert_eq!(variant_type("AC", "ACGT"), Some(VariantType::Indel));
}

// Identical alleles have no variant type, whatever their length.
#[test]
fn variant_type_identity_none() {
    assert_eq!(variant_type("A", "A"), None);
    assert_eq!(variant_type("ACGT", "ACGT"), None);
    assert_eq!(variant_type("N", "N"), None);
}
