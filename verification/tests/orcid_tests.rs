use rembi::orcid::Format;
use rembi::orcid::OrcId;
use rembi::orcid::OrcIdError;

const ORCID_BASE: &str = "https://orcid.org/";

#[test]
fn test_invalid_orcids() {
    for s in [
        // non-HTTP(S) URL scheme
        "file://orcid.org/0000-0002-1296-7310",
        // allowed under ISO standard but not used for ORCiD
        "0000 0002 1296 7310",
        // invalid checksum digit
        "0000-0002-1296-7311",
        // too long
        "0000-0002-1296-73109",
        // too short
        "0000-0002-1296-731",
    ] {
        println!("{s}");
        OrcId::from_str(s).unwrap_err();
    }
}

#[test]
fn test_valid_orcids() {
    for s in [
        // HTTPS form
        "https://orcid.org/0000-0002-1296-7310",
        // HTTP form (website redirects)
        "http://orcid.org/0000-0002-1296-7310",
        // hyphenated form
        "0000-0002-1296-7310",
        // short form as URL (website redirects)
        "https://orcid.org/0000000212967310",
        // short form
        "0000000212967310",
    ] {
        let val = OrcId::from_str(s).unwrap();
        let s2 = val.to_string();
        assert!(s2.starts_with(ORCID_BASE));
    }
}

const KNOWN_DIGITS: [u8; 15] = [0, 0, 0, 0, 0, 0, 0, 2, 1, 2, 9, 6, 7, 3, 1];

#[test]
fn checksum_known_vector() {
    assert_eq!(OrcId::calc_checksum(&KNOWN_DIGITS), Ok(0));
}

#[test]
fn checksum_in_range_on_samples() {
    for arr in [
        [0u8; 15],
        [9u8; 15],
        KNOWN_DIGITS,
        [1, 2, 3, 4, 5, 6, 7, 8, 9, 0, 1, 2, 3, 4, 5],
    ] {
        let k = OrcId::calc_checksum(&arr).unwrap();
        assert!(k <= 10);
        // deterministic: the same digits give the same value again
        assert_eq!(OrcId::calc_checksum(&arr), Ok(k));
    }
}

#[test]
fn checksum_changes_on_transposition() {
    // swapping two distinct adjacent digits changes the check value on
    // these vectors (not a universal guarantee, but it holds here)
    let base = KNOWN_DIGITS;
    let k0 = OrcId::calc_checksum(&base).unwrap();
    for (a, b) in [(7usize, 8usize), (8, 9), (10, 11), (12, 13)] {
        let mut swapped = base;
        swapped.swap(a, b);
        assert_ne!(base[a], base[b]);
        let k1 = OrcId::calc_checksum(&swapped).unwrap();
        assert_ne!(k0, k1, "transposing positions {a} and {b}");
    }
}

#[test]
fn all_accepted_forms_agree() {
    let canonical = OrcId::from_str("0000-0002-1296-7310").unwrap();
    for s in [
        "https://orcid.org/0000-0002-1296-7310",
        "http://orcid.org/0000-0002-1296-7310",
        "0000-0002-1296-7310",
        "https://orcid.org/0000000212967310",
        "0000000212967310",
    ] {
        assert_eq!(OrcId::from_str(s).unwrap(), canonical);
    }
    assert_eq!(
        canonical.to_string(),
        "https://orcid.org/0000-0002-1296-7310"
    );
}

#[test]
fn render_formats() {
    let val = OrcId::from_str("0000-0002-1296-7310").unwrap();
    assert_eq!(val.short().to_string(), "0000000212967310");
    assert_eq!(val.id_only().to_string(), "0000-0002-1296-7310");
    assert_eq!(val.full().to_string(), "https://orcid.org/0000-0002-1296-7310");
    assert_eq!(val.iter(), "0000000212967310".chars().collect::<Vec<char>>());
}

#[test]
fn render_then_parse_round_trips() {
    let val = OrcId::from_str("0000-0002-1296-7310").unwrap();
    assert_eq!(OrcId::from_str(&val.full().to_string()).unwrap(), val);
    assert_eq!(OrcId::from_str(&val.id_only().to_string()).unwrap(), val);
    assert_eq!(OrcId::from_str(&val.short().to_string()).unwrap(), val);
}

#[test]
fn exact_error_variants() {
    assert_eq!(
        OrcId::from_str("0000-0002-1296-7311"),
        Err(OrcIdError::ChecksumMismatch { expected: 0, found: 1 })
    );
    assert_eq!(OrcId::from_str("0000-0002-1296-731"), Err(OrcIdError::TooShort));
    assert_eq!(OrcId::from_str("0000-0002-1296-73109"), Err(OrcIdError::TooLong));
    assert_eq!(
        // only the two HTTP(S) base forms are stripped; any other scheme is
        // scanned as it stands and fails on its first letter
        OrcId::from_str("file://orcid.org/0000-0002-1296-7310"),
        Err(OrcIdError::InvalidCharacter { ch: 'f' })
    );
    assert_eq!(
        OrcId::from_str("0000 0002 1296 7310"),
        Err(OrcIdError::InvalidCharacter { ch: ' ' })
    );
    assert_eq!(OrcId::from_str(""), Err(OrcIdError::TooShort));
    assert_eq!(
        // the check character is case-sensitive
        OrcId::from_str("000000000000001x"),
        Err(OrcIdError::InvalidCharacter { ch: 'x' })
    );
}

#[test]
fn x_check_character() {
    let val = OrcId::from_str("0000-0000-0000-001X").unwrap();
    assert_eq!(val.to_string(), "https://orcid.org/0000-0000-0000-001X");
    assert_eq!(val.short().to_string(), "000000000000001X");
    let mut digits = [0u8; 15];
    digits[14] = 1;
    assert_eq!(OrcId::calc_checksum(&digits), Ok(10));
    assert_eq!(OrcId::try_new(digits).unwrap(), val);
}

#[test]
fn hyphens_are_skipped_anywhere() {
    let plain = OrcId::from_str("0000000212967310").unwrap();
    let scattered = OrcId::from_str("0-0-0-0-0-0-0-2-1-2-9-6-7-3-1-0-").unwrap();
    assert_eq!(plain, scattered);
}

#[test]
fn try_new_derives_checksum() {
    let val = OrcId::try_new(KNOWN_DIGITS).unwrap();
    assert_eq!(val.to_string(), "https://orcid.org/0000-0002-1296-7310");
    let mut bad = KNOWN_DIGITS;
    bad[3] = 12;
    assert_eq!(OrcId::try_new(bad), Err(OrcIdError::InvalidDigit { digit: 12 }));
}

#[test]
fn try_new_checked_validates() {
    assert!(OrcId::try_new_checked(KNOWN_DIGITS, 0).is_ok());
    assert_eq!(
        OrcId::try_new_checked(KNOWN_DIGITS, 5),
        Err(OrcIdError::ChecksumMismatch { expected: 0, found: 5 })
    );
}

#[test]
fn trim_base_url_strips_known_prefixes() {
    assert_eq!(rembi::orcid::trim_base_url("https://orcid.org/abc"), "abc");
    assert_eq!(rembi::orcid::trim_base_url("http://orcid.org/abc"), "abc");
    assert_eq!(rembi::orcid::trim_base_url("abc"), "abc");
    assert_eq!(
        rembi::orcid::trim_base_url("file://orcid.org/abc"),
        "file://orcid.org/abc"
    );
}

#[test]
fn default_format_is_url() {
    assert!(matches!(Format::default(), Format::Url));
}

#[test]
fn formatted_gives_back_its_value() {
    let val = OrcId::from_str("0000-0002-1296-7310").unwrap();
    assert_eq!(OrcId::from(val.full()), val);
    assert_eq!(OrcId::from(val.short()), val);
}
