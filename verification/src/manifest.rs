//! The manifest of a bundle: its locale and the resources it is made of, and
//! the notations in which a manifest can be written.

use vstd::prelude::*;
use vstd::string::StrSliceExecFns;
use unic_langid::LanguageIdentifier;
use crate::error::Error;

verus! {

/// The notation in which a manifest is written.
#[derive(Clone, Copy, Debug, PartialEq, Eq, Structural)]
pub enum Notation {
    /// Rusty object notation.
    Ron,
    /// YAML.
    Yaml,
}

/// What a manifest declares.
#[derive(Debug)]
pub struct Manifest {
    /// The locale that the bundle stands for.
    pub locale: LanguageIdentifier,
    /// The paths of the resources, in the order in which they are merged.
    pub resources: Vec<String>,
}

/// Whether `text` ends with `suffix`.
pub open spec fn ends_with(text: Seq<char>, suffix: Seq<char>) -> bool {
    text.len() >= suffix.len() && text.subrange(text.len() - suffix.len(), text.len() as int)
        == suffix
}

/// The notation of the manifest at `path`, which the end of the path tells:
/// `.ron` for the object notation, `.yaml` or `.yml` for YAML.
pub open spec fn notation_of(path: Seq<char>) -> Option<Notation> {
    if ends_with(path, ".ron"@) {
        Some(Notation::Ron)
    } else if ends_with(path, ".yaml"@) || ends_with(path, ".yml"@) {
        Some(Notation::Yaml)
    } else {
        None
    }
}

/// A text that ends with `long` ends with every end of `long`.
pub proof fn lemma_ends_with_end(text: Seq<char>, long: Seq<char>, short: Seq<char>)
    requires
        ends_with(text, long),
        ends_with(long, short),
    ensures
        ends_with(text, short),
{
    let from_text = text.subrange(text.len() - short.len(), text.len() as int);
    let from_long = long.subrange(long.len() - short.len(), long.len() as int);
    assert forall|i: int| 0 <= i < short.len() implies from_text[i] == from_long[i] by {
        let tail = text.subrange(text.len() - long.len(), text.len() as int);
        assert(tail[long.len() - short.len() + i] == long[long.len() - short.len() + i]);
    }
    assert(from_text =~= from_long);
}

/// A text ends as its ending does.
pub proof fn lemma_ends_with_last(text: Seq<char>, suffix: Seq<char>)
    requires
        ends_with(text, suffix),
        suffix.len() > 0,
    ensures
        text.last() == suffix.last(),
{
    let tail = text.subrange(text.len() - suffix.len(), text.len() as int);
    assert(tail[suffix.len() - 1] == text[text.len() - 1]);
}

/// Every file that is taken for a manifest has a notation: a name that ends
/// in `.ftl.ron` is in the object notation, one that ends in `.ftl.yaml` or
/// `.ftl.yml` is in YAML.
pub proof fn lemma_manifests_have_notation(path: Seq<char>)
    ensures
        ends_with(path, ".ftl.ron"@) ==> notation_of(path) == Some(Notation::Ron),
        ends_with(path, ".ftl.yaml"@) ==> notation_of(path) == Some(Notation::Yaml),
        ends_with(path, ".ftl.yml"@) ==> notation_of(path) == Some(Notation::Yaml),
{
    reveal_strlit(".ftl.ron");
    reveal_strlit(".ftl.yaml");
    reveal_strlit(".ftl.yml");
    reveal_strlit(".ron");
    reveal_strlit(".yaml");
    reveal_strlit(".yml");
    if ends_with(path, ".ftl.ron"@) {
        assert(".ftl.ron"@.subrange(4, 8) =~= ".ron"@);
        lemma_ends_with_end(path, ".ftl.ron"@, ".ron"@);
    }
    if ends_with(path, ".ftl.yaml"@) {
        assert(".ftl.yaml"@.subrange(4, 9) =~= ".yaml"@);
        lemma_ends_with_end(path, ".ftl.yaml"@, ".yaml"@);
        if ends_with(path, ".ron"@) {
            lemma_ends_with_last(path, ".yaml"@);
            lemma_ends_with_last(path, ".ron"@);
        }
    }
    if ends_with(path, ".ftl.yml"@) {
        assert(".ftl.yml"@.subrange(4, 8) =~= ".yml"@);
        lemma_ends_with_end(path, ".ftl.yml"@, ".yml"@);
        if ends_with(path, ".ron"@) {
            lemma_ends_with_last(path, ".yml"@);
            lemma_ends_with_last(path, ".ron"@);
        }
    }
}

/// Whether `text` ends with `suffix`.
pub fn has_suffix(text: &str, suffix: &str) -> (found: bool)
    ensures
        found == ends_with(text@, suffix@),
{
    let n: usize = text.unicode_len();
    let m: usize = suffix.unicode_len();
    if n < m {
        return false;
    }
    let start: usize = n - m;
    let ghost tail = text@.subrange(n - m, n as int);
    let mut i: usize = 0;
    while i < m
        invariant
            n == text@.len(),
            m == suffix@.len(),
            m <= n,
            start == n - m,
            i <= m,
            tail == text@.subrange(n - m, n as int),
            forall|k: int| 0 <= k < i ==> tail[k] == suffix@[k],
        decreases m - i,
    {
        if text.get_char(start + i) != suffix.get_char(i) {
            assert(tail[i as int] != suffix@[i as int]);
            return false;
        }
        i = i + 1;
    }
    assert(tail =~= suffix@);
    true
}

impl Manifest {
    /// Takes what reading the text of a manifest in its notation came to:
    /// the manifest, or the complaint of the reader.  Whatever the reader
    /// complains of, an unknown field or a locale that is none among it, is
    /// an error of the manifest's format, which carries the complaint.
    pub fn from_deserialized(outcome: Result<Manifest, String>) -> (manifest: Result<
        Manifest,
        Error,
    >)
        ensures
            match outcome {
                Ok(declared) => manifest == Ok::<Manifest, Error>(declared),
                Err(complaint) => manifest == Err::<Manifest, Error>(
                    Error::ManifestFormat(complaint),
                ),
            },
    {
        match outcome {
            Ok(declared) => Ok(declared),
            Err(complaint) => Err(Error::ManifestFormat(complaint)),
        }
    }
}

impl Notation {
    /// The notation of the manifest at `path`, or `None` where the path ends
    /// in none of the extensions that tell one.
    pub fn of_path(path: &str) -> (notation: Option<Notation>)
        ensures
            notation == notation_of(path@),
    {
        if has_suffix(path, ".ron") {
            Some(Notation::Ron)
        } else if has_suffix(path, ".yaml") || has_suffix(path, ".yml") {
            Some(Notation::Yaml)
        } else {
            None
        }
    }
}

} // verus!
