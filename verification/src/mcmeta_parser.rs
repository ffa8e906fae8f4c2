//! Resource-pack metadata (`pack.mcmeta`) types and validation.
//!
//! Reading the file and decoding its JSON stay with the surrounding
//! process, which hands the decoded fields to `mcmeta_from_parts`; this
//! module owns the types and the rule for when the `pack` section counts
//! as present.

use vstd::prelude::*;

verus! {

/// The `pack` section of a `pack.mcmeta` file.
#[derive(Debug)]
pub struct PackSection {
    /// The format version of the resource pack.
    pub pack_format: u32,
    /// A description of the resource pack.
    pub description: String,
}

/// The contents of a `pack.mcmeta` file.
#[derive(Debug)]
pub struct Mcmeta {
    /// The `pack` section containing format and description.
    pub pack: PackSection,
}

/// Errors from parsing a `pack.mcmeta` file.
#[derive(Debug)]
pub enum McmetaError {
    /// The file could not be read; carries the underlying message.
    FileReadError(String),
    /// The contents could not be decoded as JSON; carries the decoder's
    /// message.
    JsonParseError(String),
    /// The `pack` section is missing or carries no usable values.
    MissingPackSection,
}

/// Builds an `Mcmeta` from decoded fields, validating the `pack`
/// section: a zero format version or an empty description counts as a
/// missing section.
pub fn mcmeta_from_parts(pack_format: u32, description: String) -> (r: Result<Mcmeta, McmetaError>)
    ensures
        (r is Ok <==> (pack_format != 0 && description@.len() > 0)),
        (r is Ok ==> r->Ok_0.pack.pack_format == pack_format && r->Ok_0.pack.description@
            == description@),
        (r is Err ==> r->Err_0 == McmetaError::MissingPackSection),
{
    if pack_format == 0 || description.as_str().is_empty() {
        Err(McmetaError::MissingPackSection)
    } else {
        Ok(Mcmeta { pack: PackSection { pack_format, description } })
    }
}

} // verus!
