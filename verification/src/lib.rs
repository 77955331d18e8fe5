//! Identifier handling for bioimaging metadata records: DOI normalization and
//! ORCID checksum validation, together with the plain record types that carry
//! such identifiers.

use vstd::prelude::*;

pub mod doi;
pub mod mifa;
pub mod orcid;
pub mod rembi;
pub mod text;

pub use doi::Doi;
pub use orcid::OrcId;

verus! {

} // verus!
