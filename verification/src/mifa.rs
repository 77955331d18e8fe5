//! Record types of the MIFA metadata standard that carry identifiers:
//! publications, authors, organisations, grants and licensing choices.
//! These are declarative containers; the identifier types they hold do the
//! parsing and validation.

use crate::doi::Doi;
use crate::orcid::OrcId;
use vstd::prelude::*;

verus! {

/// A publication connected to a dataset.
#[derive(Debug, Clone)]
pub struct Publications {
    pub publication_title: String,
    pub publication_authors: String,
    pub publication_doi: Doi,
    pub publication_year: Option<u16>,
    pub pubmed_id: Option<String>,
}

impl Publications {
    pub fn new(
        publication_title: String,
        publication_authors: String,
        publication_doi: Doi,
    ) -> (r: Self)
        ensures
            r.publication_title == publication_title,
            r.publication_authors == publication_authors,
            r.publication_doi == publication_doi,
            r.publication_year is None,
            r.pubmed_id is None,
    {
        Self {
            publication_title,
            publication_authors,
            publication_doi,
            publication_year: None,
            pubmed_id: None,
        }
    }
}

/// Information about the organisation an author is affiliated with.
#[derive(Debug, Clone)]
pub struct OrganisationInfo {
    pub organisation_name: String,
    pub address: Option<String>,
    pub ror_id: Option<String>,
}

impl OrganisationInfo {
    pub fn new(organisation_name: String) -> (r: Self)
        ensures
            r.organisation_name == organisation_name,
            r.address is None,
            r.ror_id is None,
    {
        Self { organisation_name, address: None, ror_id: None }
    }
}

/// Information about the authors.
#[derive(Debug, Clone)]
pub struct Author {
    pub organisation: Vec<OrganisationInfo>,
    pub author_first_name: String,
    pub author_last_name: String,
    pub email: Option<String>,
    pub orcid_id: Option<OrcId>,
    pub role: Vec<String>,
}

impl Author {
    pub fn new(author_first_name: String, author_last_name: String) -> (r: Self)
        ensures
            r.author_first_name == author_first_name,
            r.author_last_name == author_last_name,
            r.organisation@.len() == 0,
            r.email is None,
            r.orcid_id is None,
            r.role@.len() == 0,
    {
        Self {
            organisation: Vec::new(),
            author_first_name,
            author_last_name,
            email: None,
            orcid_id: None,
            role: Vec::new(),
        }
    }
}

/// A grant and the funding body behind a study.
#[derive(Debug, Clone)]
pub struct GrantReference {
    pub grant_id: String,
    pub funder: String,
}

impl GrantReference {
    pub fn new(grant_id: String, funder: String) -> (r: Self)
        ensures
            r.grant_id == grant_id,
            r.funder == funder,
    {
        Self { grant_id, funder }
    }
}

/// The licence a dataset is published under.
#[derive(Debug, Clone, Copy)]
pub enum LicenseType {
    /// No copyright: copy, modify, distribute and perform the work, even
    /// commercially, without asking permission.
    Cc0,
    /// Share and adapt for any purpose, with appropriate credit, a link to
    /// the licence, and an indication of any change.
    CcBy,
}

/// The kind of image annotation a file-level record describes.
#[derive(Debug, Clone, Copy, Hash, PartialEq, Eq, PartialOrd, Ord)]
pub enum AnnotationType {
    /// Tags that identify specific features, patterns or classes in images.
    ClassLabels,
    BoundingBoxes,
    Counts,
    DerivedAnnotations,
    GeometricalAnnotations,
    Graphs,
    PointAnnotations,
    SegmentationMask,
    Tracks,
    WeakAnnotations,
    /// Other types of annotations, described in the annotation overview.
    Other,
}

} // verus!
