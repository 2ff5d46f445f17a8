//! Loading one resource: from bytes to text, from text to a parsed resource.

use vstd::prelude::*;
use vstd::utf8::{decode_utf8, encode_utf8, valid_utf8};
use std::sync::Arc;
use fluent::FluentResource;
use crate::bundle::{ftl_parse, resource_entries, resource_source, try_new};
use crate::entries::Body;
use crate::error::{complaints, Error, ParseDiagnostic};
use crate::escapes::{digits_end, find_cut_short, first_cut_short, is_readable};
use crate::text::decode_text;

verus! {

/// What the complaint says that turns a text away for an escape that the
/// parser cannot read.
pub const CUT_SHORT_ESCAPE: &'static str =
    "Unicode escape is cut short by a character outside ASCII";

/// Whether `complaint` is the one that turns `text` away: it reaches from
/// the backslash of the first escape that is cut short by a character of
/// several bytes to the byte at which that character starts.
pub open spec fn tells_cut_short(text: Seq<char>, complaint: ParseDiagnostic) -> bool {
    &&& first_cut_short(encode_utf8(text), complaint.start as int)
    &&& complaint.end == digits_end(encode_utf8(text), complaint.start as int)
    &&& complaint.message@ == CUT_SHORT_ESCAPE@
}

/// A parsed resource, shared between the registry of assets and every bundle
/// that it was merged into.  It is never changed after it was made.
#[derive(Clone, Debug)]
pub struct ResourceAsset(pub Arc<FluentResource>);

impl ResourceAsset {
    /// The entries of the resource, as merging sees them.
    pub open spec fn entries(&self) -> Body {
        resource_entries(*self.0)
    }

    /// The text that the resource was parsed from.
    pub open spec fn source(&self) -> Seq<char> {
        resource_source(*self.0)
    }

    /// Turns what the parser returned into the asset, or into the error that
    /// ends the load: a resource with any complaint of the parser is no asset.
    pub fn from_parsed(parsed: Result<FluentResource, Vec<ParseDiagnostic>>) -> (loaded: Result<
        ResourceAsset,
        Error,
    >)
        ensures
            match parsed {
                Ok(resource) => loaded matches Ok(asset) && *asset.0 == resource,
                Err(diagnostics) => loaded matches Err(Error::Parse(carried)) && carried
                    == diagnostics,
            },
    {
        match parsed {
            Ok(resource) => Ok(ResourceAsset(Arc::new(resource))),
            Err(diagnostics) => Err(Error::Parse(diagnostics)),
        }
    }

    /// Parses `source` into a resource.
    ///
    /// A text in which an escape is cut short by a character of several
    /// bytes is not given to the parser: it fails with one complaint, which
    /// names the place of the first such escape.  This holds of every such
    /// text, also of one that holds these bytes outside any quoted string.
    /// Of any other text the parser decides: a well-formed document gives
    /// the asset of that text, with the entries that the parser read; any
    /// other fails with all of the parser's complaints, of which there is at
    /// least one.
    pub fn from_text(source: String) -> (loaded: Result<ResourceAsset, Error>)
        ensures
            is_readable(source@) ==> match ftl_parse(source@) {
                Ok(body) => loaded matches Ok(asset) && asset.entries() == body
                    && asset.source() == source@,
                Err(found) => loaded matches Err(Error::Parse(diagnostics)) && complaints(
                    diagnostics@,
                ) == found && diagnostics@.len() > 0,
            },
            !is_readable(source@) ==> (loaded matches Err(Error::Parse(diagnostics))
                && diagnostics@.len() == 1 && tells_cut_short(source@, diagnostics@[0])),
    {
        match find_cut_short(source.as_str().as_bytes()) {
            None => ResourceAsset::from_parsed(try_new(source)),
            Some((at, end)) => {
                let message = CUT_SHORT_ESCAPE.to_owned();
                Err(Error::Parse(vec![ParseDiagnostic { start: at, end, message }]))
            },
        }
    }

    /// Loads a resource from the bytes of its file.  Bytes that are not
    /// UTF-8 fail with `Error::Encoding`; otherwise the text they encode is
    /// parsed as `from_text` does.
    pub fn from_bytes(bytes: Vec<u8>) -> (loaded: Result<ResourceAsset, Error>)
        ensures
            !valid_utf8(bytes@) ==> loaded matches Err(Error::Encoding),
            valid_utf8(bytes@) && is_readable(decode_utf8(bytes@)) ==> match ftl_parse(
                decode_utf8(bytes@),
            ) {
                Ok(body) => loaded matches Ok(asset) && asset.entries() == body
                    && asset.source() == decode_utf8(bytes@),
                Err(found) => loaded matches Err(Error::Parse(diagnostics)) && complaints(
                    diagnostics@,
                ) == found && diagnostics@.len() > 0,
            },
            valid_utf8(bytes@) && !is_readable(decode_utf8(bytes@)) ==> (loaded matches Err(
                Error::Parse(diagnostics),
            ) && diagnostics@.len() == 1 && tells_cut_short(
                decode_utf8(bytes@),
                diagnostics@[0],
            )),
    {
        match decode_text(bytes) {
            Ok(source) => ResourceAsset::from_text(source),
            Err(error) => Err(error),
        }
    }
}

} // verus!
