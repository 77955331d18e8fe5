//! Record types of the REMBI metadata standard that this library can state
//! exactly: organisations, grants, funding, samples and analysis notes.
//! These are declarative containers around plain values.

use vstd::prelude::*;

verus! {

/// Information about an organisation, given in place of a registry URL.
#[derive(Debug, Clone)]
pub struct OrganisationInfo {
    pub name: String,
    pub address: String,
}

/// A grant and the funding body behind a study.
#[derive(Debug, Clone)]
pub struct GrantReference {
    pub identifier: String,
    pub funder: String,
}

impl GrantReference {
    pub fn new(identifier: String, funder: String) -> (r: Self)
        ensures
            r.identifier == identifier,
            r.funder == funder,
    {
        Self { identifier, funder }
    }
}

/// How a study was funded.
#[derive(Debug, Clone)]
pub struct Funding {
    pub funding_statement: String,
    pub grant_references: Vec<GrantReference>,
}

impl Funding {
    pub fn new(funding_statement: String) -> (r: Self)
        ensures
            r.funding_statement == funding_statement,
            r.grant_references@.len() == 0,
    {
        Self { funding_statement, grant_references: Vec::new() }
    }
}

/// The organism a biosample was taken from.
#[derive(Debug, Clone)]
pub struct Organism {
    pub scientific_name: String,
    pub common_name: Option<String>,
    pub ncbi_taxon: String,
}

impl Organism {
    pub fn new(scientific_name: String, ncbi_taxon: String) -> (r: Self)
        ensures
            r.scientific_name == scientific_name,
            r.ncbi_taxon == ncbi_taxon,
            r.common_name is None,
    {
        Self { scientific_name, common_name: None, ncbi_taxon }
    }

    /// The one field-level rule of this record: the taxon reference must
    /// not be empty.
    pub fn validate(&self) -> (r: bool)
        ensures
            r == (self.ncbi_taxon@.len() >= 1),
    {
        !self.ncbi_taxon.as_str().is_empty()
    }
}

/// The biological entity a set of images shows.
#[derive(Debug, Clone)]
pub struct Biosample {
    pub organism: Organism,
    pub biological_entity: String,
    pub description: Option<String>,
    /// Intrinsic (e.g. genetic) alteration. An omitted list means no
    /// variables were recorded; an empty one means none were applied.
    pub intrinsic_variables: Option<Vec<String>>,
    /// External treatment (e.g. reagent), with the same distinction.
    pub extrinsic_variables: Option<Vec<String>>,
    /// What is intentionally varied between multiple images.
    pub experimental_variables: Option<Vec<String>>,
}

impl Biosample {
    pub fn new(organism: Organism, biological_entity: String) -> (r: Self)
        ensures
            r.organism == organism,
            r.biological_entity == biological_entity,
            r.description is None,
            r.intrinsic_variables is None,
            r.extrinsic_variables is None,
            r.experimental_variables is None,
    {
        Self {
            organism,
            biological_entity,
            description: None,
            intrinsic_variables: None,
            extrinsic_variables: None,
            experimental_variables: None,
        }
    }

    /// A biosample is valid when its organism is.
    pub fn validate(&self) -> (r: bool)
        ensures
            r == (self.organism.ncbi_taxon@.len() >= 1),
    {
        self.organism.validate()
    }
}

/// How a specimen was prepared for imaging.
#[derive(Debug, Clone)]
pub struct Specimen {
    pub sample_preparation: String,
    /// How the specimen was grown, e.g. cell line cultures or crosses.
    pub growth_protocol: Option<String>,
}

impl Specimen {
    pub fn new(sample_preparation: String) -> (r: Self)
        ensures
            r.sample_preparation == sample_preparation,
            r.growth_protocol is None,
    {
        Self { sample_preparation, growth_protocol: None }
    }
}

/// How images from different modalities were aligned with each other.
#[derive(Debug, Clone)]
pub struct ImageCorrelation {
    pub spatial_and_temporal_alignment: String,
    pub fiducials_used: String,
    pub transformation_matrix: String,
}

impl ImageCorrelation {
    pub fn new(
        spatial_and_temporal_alignment: String,
        fiducials_used: String,
        transformation_matrix: String,
    ) -> (r: Self)
        ensures
            r.spatial_and_temporal_alignment == spatial_and_temporal_alignment,
            r.fiducials_used == fiducials_used,
            r.transformation_matrix == transformation_matrix,
    {
        Self { spatial_and_temporal_alignment, fiducials_used, transformation_matrix }
    }
}

/// How image analysis was carried out.
#[derive(Debug, Clone)]
pub struct ImageAnalysis {
    pub analysis_overview: String,
}

impl ImageAnalysis {
    pub fn new(analysis_overview: String) -> (r: Self)
        ensures
            r.analysis_overview == analysis_overview,
    {
        Self { analysis_overview }
    }
}

/// A licence marker; the standard leaves its fields open.
#[derive(Debug, Clone)]
pub struct License;

impl Default for License {
    fn default() -> (r: Self)
        ensures
            r == (License {  }),
    {
        License {  }
    }
}

} // verus!
