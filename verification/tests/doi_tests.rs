use rembi::doi::Doi;
use rembi::doi::DoiError;
use rembi::doi::Format;
use rembi::doi::Formatted;

#[test]
fn doi_known_vector() {
    let doi = Doi::from_str("https://doi.org/10.1000/xyz123").unwrap();
    assert_eq!(doi.to_string(), "10.1000/XYZ123");
    assert_eq!(
        Formatted::new(Format::DoiOrg, &doi).to_string(),
        "https://doi.org/10.1000/XYZ123"
    );
    assert_eq!(Formatted::new(Format::Scheme, &doi).to_string(), "doi:10.1000/XYZ123");
    assert_eq!(Formatted::new(Format::Name, &doi).to_string(), "10.1000/XYZ123");
}

#[test]
fn doi_proxy_round_trip() {
    let doi = Doi::from_str("https://doi.org/10.1000/xyz123").unwrap();
    let rendered = Formatted::new(Format::DoiOrg, &doi).to_string();
    let again = Doi::from_str(&rendered).unwrap();
    assert_eq!(doi, again);
}

#[test]
fn doi_malformed_inputs() {
    // not URL-syntactically valid at all
    assert_eq!(Doi::from_str(""), Err(DoiError::MalformedDoi));
    assert_eq!(Doi::from_str("not a url without scheme"), Err(DoiError::MalformedDoi));
    assert_eq!(Doi::from_str("10.1000/xyz123"), Err(DoiError::MalformedDoi));
    // a single path segment leaves no suffix
    assert_eq!(Doi::from_str("https://doi.org/10.1000"), Err(DoiError::MissingPrefixOrSuffix));
    // the root path has one empty segment, so the prefix is empty
    assert_eq!(Doi::from_str("https://doi.org"), Err(DoiError::MissingPrefixOrSuffix));
    // a `doi:` URI cannot be a base URL, so it yields no path segments
    assert_eq!(Doi::from_str("doi:10.1000/xyz123"), Err(DoiError::MissingPrefixOrSuffix));
}

#[test]
fn doi_invalid_prefix_character() {
    assert_eq!(
        Doi::from_str("https://doi.org/abc/xyz"),
        Err(DoiError::InvalidDoiPrefix { ch: 'a' })
    );
    assert_eq!(
        Doi::from_str("https://doi.org/10.10x0/xyz"),
        Err(DoiError::InvalidDoiPrefix { ch: 'x' })
    );
}

#[test]
fn doi_ill_shaped_numeric_prefix_is_kept() {
    // prefixes that do not look like `10.xxxx` are still copied, as long
    // as they hold only digits and dots
    assert_eq!(Doi::from_str("https://doi.org/10/xyz").unwrap().to_string(), "10/XYZ");
    assert_eq!(
        Doi::from_str("https://doi.org/9.1234/xyz").unwrap().to_string(),
        "9.1234/XYZ"
    );
}

#[test]
fn doi_extra_path_segments_are_dropped() {
    let doi = Doi::from_str("https://proxy.example.com/lookup/10.1000/xyz123").unwrap();
    assert_eq!(doi.to_string(), "10.1000/XYZ123");
}

#[test]
fn doi_query_and_fragment_are_discarded() {
    let doi = Doi::from_str("https://doi.org/10.1000/xyz123?page=2#sec1").unwrap();
    assert_eq!(doi.to_string(), "10.1000/XYZ123");
}

#[test]
fn doi_equality_by_canonical_value() {
    let a = Doi::from_str("https://doi.org/10.1000/xyz123").unwrap();
    let b = Doi::from_str("https://proxy.example.com/extra/10.1000/XYZ123").unwrap();
    assert_eq!(a, b);
    let c = Doi::from_str("https://doi.org/10.1000/other").unwrap();
    assert!(a != c);
}
