//! The bundle and resource types of the `fluent` crate, and what this library
//! relies on of them.
//!
//! Verus does not look inside these types.  What a value of them holds is
//! given a name here, and each call into `fluent` is made by one function of
//! this file whose contract says, over those names, what the call does.
//! These contracts are taken from the source of `fluent`; they are believed,
//! not proved.

use vstd::prelude::*;
use std::sync::Arc;
use fluent::bundle::FluentBundle;
use fluent::{FluentError, FluentResource};
use intl_memoizer::concurrent::IntlLangMemoizer;
use unic_langid::LanguageIdentifier;
use crate::entries::{merge, reported_ids, Body, Collision, EntryTable};
use crate::error::{complaints, ParseDiagnostic};
use crate::escapes::is_readable;

verus! {

/// `unic_langid::LanguageIdentifier`: a locale.  It is carried from the
/// manifest to the bundle and never looked into.
#[verifier::external_type_specification]
#[verifier::external_body]
pub struct ExLanguageIdentifier(LanguageIdentifier);

/// `fluent::FluentResource`: the parsed text of one resource file.
#[verifier::external_type_specification]
#[verifier::external_body]
pub struct ExFluentResource(FluentResource);

/// `intl_memoizer::concurrent::IntlLangMemoizer`: the formatters that a
/// bundle keeps for its locale, behind a lock of their own.
#[verifier::external_type_specification]
#[verifier::external_body]
pub struct ExIntlLangMemoizer(IntlLangMemoizer);

/// `fluent::bundle::FluentBundle`: the messages, terms and functions of one
/// locale.
#[verifier::external_type_specification]
#[verifier::external_body]
#[verifier::reject_recursive_types(R)]
#[verifier::reject_recursive_types(M)]
pub struct ExFluentBundle<R, M>(FluentBundle<R, M>);

/// How a bundle was told to format what it is asked for.  The two functions
/// are given by numbers that stand for them: the same function has the same
/// number.
pub struct Formatting {
    /// Whether what is put into a message is marked off by isolation marks.
    pub use_isolating: bool,
    /// The function that every piece of text is passed through, if one was
    /// set.
    pub transform: Option<int>,
    /// The function that is asked first to format a value, if one was set.
    pub formatter: Option<int>,
}

/// The functions of a bundle on which none was registered.
pub open spec fn function_table() -> Map<Seq<char>, int> {
    Map::empty()
}

/// The formatting of a bundle on which nothing was set.
pub open spec fn plain_formatting() -> Formatting {
    Formatting { use_isolating: true, transform: None, formatter: None }
}

/// A bundle that shares its resources and can be queried from several
/// threads at once.
pub type ConcurrentFluentBundle = FluentBundle<Arc<FluentResource>, IntlLangMemoizer>;

/// The entry table of `bundle`: every identifier under which the bundle holds
/// a message, a term or a function.  A message or term is mapped to the
/// number of the resource that defines it, counted in the order in which the
/// resources were added, and to the position of the definition among the
/// entries of that resource; a function is mapped to `None`.
pub uninterp spec fn bundle_entries(bundle: ConcurrentFluentBundle) -> EntryTable;

/// The resources that were added to `bundle`, in the order of their adding.
pub uninterp spec fn bundle_resources(bundle: ConcurrentFluentBundle) -> Seq<Arc<FluentResource>>;

/// The locales of `bundle`, the one it stands for first.
pub uninterp spec fn bundle_locales(bundle: ConcurrentFluentBundle) -> Seq<LanguageIdentifier>;

/// The functions that were registered on `bundle`, each under its name.  A
/// function is given by a number that stands for it: the same function has
/// the same number.  The names are the identifiers that the entry table maps
/// to `None`.
pub uninterp spec fn bundle_functions(bundle: ConcurrentFluentBundle) -> Map<Seq<char>, int>;

/// How `bundle` was told to format.
pub uninterp spec fn bundle_formatting(bundle: ConcurrentFluentBundle) -> Formatting;

/// The entries of `resource` in the order of its text: for a message or a
/// term its identifier, for any other entry `None`.
pub uninterp spec fn resource_entries(resource: FluentResource) -> Body;

/// The text that `resource` was parsed from.
pub uninterp spec fn resource_source(resource: FluentResource) -> Seq<char>;

/// What the parser of `fluent` makes of `source`: the entries of the resource
/// where `source` is a well-formed document; where it is not, the parser's
/// complaints, each with the bytes of `source` it is about and its words.
pub uninterp spec fn ftl_parse(source: Seq<char>) -> Result<Body, Seq<(nat, nat, Seq<char>)>>;

/// Whether `bundle` is as `FluentBundle::new_concurrent` makes it for
/// `locale`: of that one locale, with no resource, no entry and no
/// function, and with nothing set on how it formats.
pub open spec fn is_fresh(bundle: ConcurrentFluentBundle, locale: LanguageIdentifier) -> bool {
    &&& bundle_locales(bundle) == seq![locale]
    &&& bundle_resources(bundle) == Seq::<Arc<FluentResource>>::empty()
    &&& bundle_entries(bundle) == EntryTable::empty()
    &&& bundle_functions(bundle) == function_table()
    &&& bundle_formatting(bundle) == plain_formatting()
}

/// Whether `after` has what was set on `before` to customize it: the same
/// functions under the same names, and the same formatting.
pub open spec fn keeps_customization(
    after: ConcurrentFluentBundle,
    before: ConcurrentFluentBundle,
) -> bool {
    &&& bundle_functions(after) == bundle_functions(before)
    &&& bundle_formatting(after) == bundle_formatting(before)
}

/// The entries of a shared resource.
pub open spec fn shared_entries(resource: Arc<FluentResource>) -> Body {
    resource_entries(*resource)
}

/// Whether `after` is `before` with `resource` merged into it: the resource
/// is the last of its resources, the entry table took the definitions of the
/// resource whose identifiers were free, and the locales, the functions and
/// the formatting are the same.
pub open spec fn holds_merged(
    after: ConcurrentFluentBundle,
    before: ConcurrentFluentBundle,
    resource: Arc<FluentResource>,
) -> bool {
    &&& bundle_entries(after) == merge(
        bundle_entries(before),
        bundle_resources(before).len(),
        shared_entries(resource),
    ).0
    &&& bundle_resources(after) == bundle_resources(before).push(resource)
    &&& bundle_locales(after) == bundle_locales(before)
    &&& keeps_customization(after, before)
}

/// The identifiers of the definitions of `resource` that `bundle` turns
/// away when the resource is merged into it, in the order of the resource.
pub open spec fn rejected_by(bundle: ConcurrentFluentBundle, resource: Arc<FluentResource>) -> Seq<
    Seq<char>,
> {
    merge(bundle_entries(bundle), bundle_resources(bundle).len(), shared_entries(resource)).1
}

/// Calls `FluentBundle::new_concurrent` with the one locale `locale`.
///
/// Believed of it: the bundle has `locale` as its only locale; its lists of
/// resources, of entries and of functions are empty; it marks off what is
/// put into a message, and has no function set to transform text or to
/// format values.
#[verifier::external_body]
pub(crate) fn new_concurrent(locale: LanguageIdentifier) -> (bundle: ConcurrentFluentBundle)
    ensures
        bundle_locales(bundle) == seq![locale],
        bundle_resources(bundle) == Seq::<Arc<FluentResource>>::empty(),
        bundle_entries(bundle) == EntryTable::empty(),
        bundle_functions(bundle) == function_table(),
        bundle_formatting(bundle) == plain_formatting(),
{
    FluentBundle::new_concurrent(vec![locale])
}

/// Calls `FluentBundle::add_resource`, and hands back the errors it returned
/// as collisions: of each the identifier and the text that the error prints.
///
/// Believed of it: the resource is appended to the bundle's resources; its
/// entries are offered to the entry table in order, each message or term
/// under its identifier, and one whose identifier is taken is left out and
/// answered with an error that names the identifier; nothing else of the
/// bundle is touched, so the locales, the functions and the formatting
/// stay.
#[verifier::external_body]
pub(crate) fn add_resource(
    bundle: &mut ConcurrentFluentBundle,
    resource: Arc<FluentResource>,
) -> (rejected: Vec<Collision>)
    ensures
        bundle_entries(*final(bundle)) == merge(
            bundle_entries(*old(bundle)),
            bundle_resources(*old(bundle)).len(),
            resource_entries(*resource),
        ).0,
        reported_ids(rejected@) == merge(
            bundle_entries(*old(bundle)),
            bundle_resources(*old(bundle)).len(),
            resource_entries(*resource),
        ).1,
        bundle_resources(*final(bundle)) == bundle_resources(*old(bundle)).push(resource),
        bundle_locales(*final(bundle)) == bundle_locales(*old(bundle)),
        bundle_functions(*final(bundle)) == bundle_functions(*old(bundle)),
        bundle_formatting(*final(bundle)) == bundle_formatting(*old(bundle)),
{
    let mut rejected = Vec::new();
    if let Err(errors) = bundle.add_resource(resource) {
        for error in errors {
            let message = error.to_string();
            match error {
                FluentError::Overriding { id, .. } => rejected.push(Collision { id, message }),
                FluentError::ParserError(_) => {},
                FluentError::ResolverError(_) => {},
            }
        }
    }
    rejected
}

/// Calls `FluentResource::try_new`, and hands back the resource, or of each
/// error that the parser found its place in the text and the text it prints.
///
/// The parser does not return on a text in which the digits of a `\u` or
/// `\U` escape are cut short by a character of several bytes: it cuts the
/// text one byte after the digits, which is then inside that character.
/// Such a text must not get here.
///
/// Believed of it: on every other text it returns, and the outcome depends
/// on the text alone; a resource is returned where the parser finds no
/// error, and then it keeps the text and its entries are those that the
/// parser read; otherwise at least one error is returned.
#[verifier::external_body]
pub(crate) fn try_new(source: String) -> (parsed: Result<FluentResource, Vec<ParseDiagnostic>>)
    requires
        is_readable(source@),
    ensures
        match parsed {
            Ok(resource) => ftl_parse(source@) == Ok::<Body, Seq<(nat, nat, Seq<char>)>>(
                resource_entries(resource),
            ) && resource_source(resource) == source@,
            Err(diagnostics) => ftl_parse(source@) == Err::<Body, Seq<(nat, nat, Seq<char>)>>(
                complaints(diagnostics@),
            ) && diagnostics@.len() > 0,
        },
{
    match FluentResource::try_new(source) {
        Ok(resource) => Ok(resource),
        Err((_, errors)) => Err(
            errors.into_iter().map(
                |e| ParseDiagnostic { start: e.pos.start, end: e.pos.end, message: e.to_string() },
            ).collect(),
        ),
    }
}

} // verus!
