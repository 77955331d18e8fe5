use rembi::doi::Doi;
use rembi::mifa;
use rembi::rembi as rembi_records;

#[test]
fn mifa_publications_constructor() {
    let doi = Doi::from_str("https://doi.org/10.1000/xyz123").unwrap();
    let p = mifa::Publications::new(
        "A title".to_string(),
        "Doe J, Roe R".to_string(),
        doi.clone(),
    );
    assert_eq!(p.publication_title, "A title");
    assert_eq!(p.publication_authors, "Doe J, Roe R");
    assert_eq!(p.publication_doi, doi);
    assert!(p.publication_year.is_none());
    assert!(p.pubmed_id.is_none());
}

#[test]
fn mifa_author_constructor() {
    let a = mifa::Author::new("Jane".to_string(), "Smith".to_string());
    assert_eq!(a.author_first_name, "Jane");
    assert_eq!(a.author_last_name, "Smith");
    assert!(a.organisation.is_empty());
    assert!(a.email.is_none());
    assert!(a.orcid_id.is_none());
    assert!(a.role.is_empty());
}

#[test]
fn mifa_organisation_info_constructor() {
    let o = mifa::OrganisationInfo::new("myorg".to_string());
    assert_eq!(o.organisation_name, "myorg");
    assert!(o.address.is_none());
    assert!(o.ror_id.is_none());
}

#[test]
fn mifa_grant_reference_constructor() {
    let g = mifa::GrantReference::new("G-1".to_string(), "Funder".to_string());
    assert_eq!(g.grant_id, "G-1");
    assert_eq!(g.funder, "Funder");
}

#[test]
fn rembi_grant_reference_constructor() {
    let g = rembi_records::GrantReference::new("G-2".to_string(), "Funder".to_string());
    assert_eq!(g.identifier, "G-2");
    assert_eq!(g.funder, "Funder");
}

#[test]
fn rembi_funding_constructor() {
    let f = rembi_records::Funding::new("Funded by X".to_string());
    assert_eq!(f.funding_statement, "Funded by X");
    assert!(f.grant_references.is_empty());
}

#[test]
fn rembi_organism_validation() {
    let good = rembi_records::Organism::new("Mus musculus".to_string(), "10090".to_string());
    assert_eq!(good.scientific_name, "Mus musculus");
    assert_eq!(good.ncbi_taxon, "10090");
    assert!(good.common_name.is_none());
    assert!(good.validate());

    let bad = rembi_records::Organism::new("Mus musculus".to_string(), String::new());
    assert!(!bad.validate());
}

#[test]
fn rembi_biosample_validation() {
    let organism = rembi_records::Organism::new("Mus musculus".to_string(), "10090".to_string());
    let sample = rembi_records::Biosample::new(organism, "liver section".to_string());
    assert_eq!(sample.biological_entity, "liver section");
    assert!(sample.description.is_none());
    assert!(sample.intrinsic_variables.is_none());
    assert!(sample.extrinsic_variables.is_none());
    assert!(sample.experimental_variables.is_none());
    assert!(sample.validate());

    let nameless = rembi_records::Organism::new("?".to_string(), String::new());
    let bad = rembi_records::Biosample::new(nameless, "cell".to_string());
    assert!(!bad.validate());
}

#[test]
fn rembi_specimen_constructor() {
    let s = rembi_records::Specimen::new("fixation".to_string());
    assert_eq!(s.sample_preparation, "fixation");
    assert!(s.growth_protocol.is_none());
}

#[test]
fn rembi_image_correlation_constructor() {
    let c = rembi_records::ImageCorrelation::new(
        "aligned by landmarks".to_string(),
        "beads".to_string(),
        "identity".to_string(),
    );
    assert_eq!(c.spatial_and_temporal_alignment, "aligned by landmarks");
    assert_eq!(c.fiducials_used, "beads");
    assert_eq!(c.transformation_matrix, "identity");
}

#[test]
fn rembi_image_analysis_constructor() {
    let a = rembi_records::ImageAnalysis::new("segmentation".to_string());
    assert_eq!(a.analysis_overview, "segmentation");
}

#[test]
fn rembi_license_default() {
    let _l: rembi_records::License = Default::default();
}
