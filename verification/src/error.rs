//! What can go wrong while a resource or a bundle is loaded.

use vstd::prelude::*;

verus! {

/// One complaint about the text of a resource: of the parser, or of this
/// library where it does not let the parser have the text.
#[derive(Debug)]
pub struct ParseDiagnostic {
    /// The byte at which the offending text starts.
    pub start: usize,
    /// The byte before which it ends.
    pub end: usize,
    /// What is wrong with it.
    pub message: String,
}

impl View for ParseDiagnostic {
    type V = (nat, nat, Seq<char>);

    open spec fn view(&self) -> (nat, nat, Seq<char>) {
        (self.start as nat, self.end as nat, self.message@)
    }
}

/// The complaints in `diagnostics`, each as its place and its words.
pub open spec fn complaints(diagnostics: Seq<ParseDiagnostic>) -> Seq<(nat, nat, Seq<char>)> {
    diagnostics.map_values(|d: ParseDiagnostic| d@)
}

/// Why a load failed.  Each of these ends the load: no asset is made.
#[derive(Debug)]
pub enum Error {
    /// The bytes could not be read.
    Io(String),
    /// The bytes are not text.
    Encoding,
    /// The manifest does not follow its schema.
    ManifestFormat(String),
    /// A resource is not a well-formed document, or holds an escape that
    /// the parser cannot read.
    Parse(Vec<ParseDiagnostic>),
}

} // verus!
