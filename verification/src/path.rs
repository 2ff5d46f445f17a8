//! Paths of assets, and how a manifest's resource paths are resolved.
//!
//! An asset path is text in which `/` parts the directories, on every
//! platform.  A path that starts with `/` is absolute; any other path is
//! relative and, in a manifest, is meant from the directory that holds the
//! manifest.

use vstd::prelude::*;
use vstd::string::{StrSliceExecFns, StringExecFns};

verus! {

/// The character that parts the components of a path.
pub const SEPARATOR: char = '/';

/// Whether `path` is absolute: whether it starts at the root.
pub open spec fn is_absolute(path: Seq<char>) -> bool {
    path.len() > 0 && path[0] == SEPARATOR
}

/// The length of the directory part of `path`: the length of the longest
/// prefix that ends in a separator, or 0 where `path` holds no separator.
pub open spec fn directory_len(path: Seq<char>) -> nat
    decreases path.len(),
{
    if path.len() == 0 {
        0
    } else if path.last() == SEPARATOR {
        path.len()
    } else {
        directory_len(path.drop_last())
    }
}

/// The directory part of `path`: all of it up to its last separator, the
/// separator included; empty where `path` names a file of the root
/// directory of the assets.
pub open spec fn directory(path: Seq<char>) -> Seq<char> {
    path.subrange(0, directory_len(path) as int)
}

/// The path under which the resource that the manifest at `manifest` names
/// as `resource` is loaded.
pub open spec fn resolved(manifest: Seq<char>, resource: Seq<char>) -> Seq<char> {
    if is_absolute(resource) {
        resource
    } else {
        directory(manifest) + resource
    }
}

/// The directory part of a path is the one prefix of it that is empty or
/// ends in a separator and after which no separator follows.
pub proof fn lemma_directory_is_the_longest(path: Seq<char>)
    ensures
        directory_len(path) <= path.len(),
        directory_len(path) > 0 ==> path[directory_len(path) - 1] == SEPARATOR,
        forall|i: int| directory_len(path) <= i < path.len() ==> path[i] != SEPARATOR,
    decreases path.len(),
{
    if path.len() > 0 && path.last() != SEPARATOR {
        let rest = path.drop_last();
        lemma_directory_is_the_longest(rest);
        assert forall|i: int| directory_len(path) <= i < path.len() implies path[i]
            != SEPARATOR by {
            if i < rest.len() {
                assert(rest[i] == path[i]);
            }
        }
    }
}

/// A prefix of `path` that ends where only separator-free text follows is
/// the directory part.
pub proof fn lemma_directory_len_is(path: Seq<char>, n: int)
    requires
        0 <= n <= path.len(),
        n > 0 ==> path[n - 1] == SEPARATOR,
        forall|i: int| n <= i < path.len() ==> path[i] != SEPARATOR,
    ensures
        directory_len(path) == n,
    decreases path.len(),
{
    if path.len() > 0 {
        if path.last() == SEPARATOR {
            assert(path[path.len() - 1] == SEPARATOR);
        } else {
            let rest = path.drop_last();
            assert(n < path.len());
            assert forall|i: int| n <= i < rest.len() implies rest[i] != SEPARATOR by {
                assert(rest[i] == path[i]);
            }
            if n > 0 {
                assert(rest[n - 1] == path[n - 1]);
            }
            lemma_directory_len_is(rest, n);
        }
    }
}

/// An absolute resource path is taken as it stands, wherever the manifest
/// lies.
pub proof fn lemma_absolute_is_unchanged(manifest: Seq<char>, resource: Seq<char>)
    requires
        is_absolute(resource),
    ensures
        resolved(manifest, resource) == resource,
{
}

/// A relative resource path is meant from the manifest's own directory: for
/// a manifest `dir/name`, where `name` holds no separator, the resource
/// `resource` is loaded from `dir/resource`.
pub proof fn lemma_relative_is_beside_manifest(
    dir: Seq<char>,
    name: Seq<char>,
    resource: Seq<char>,
)
    requires
        !is_absolute(resource),
        forall|i: int| 0 <= i < name.len() ==> name[i] != SEPARATOR,
    ensures
        resolved(dir + seq![SEPARATOR] + name, resource) == dir + seq![SEPARATOR] + resource,
{
    let manifest = dir + seq![SEPARATOR] + name;
    lemma_directory_len_is(manifest, (dir.len() + 1) as int);
    assert(manifest.subrange(0, (dir.len() + 1) as int) =~= dir + seq![SEPARATOR]);
}

/// A manifest in the root directory of the assets leaves a relative resource
/// path as it stands.
pub proof fn lemma_relative_to_root(name: Seq<char>, resource: Seq<char>)
    requires
        !is_absolute(resource),
        forall|i: int| 0 <= i < name.len() ==> name[i] != SEPARATOR,
    ensures
        resolved(name, resource) == resource,
{
    lemma_directory_len_is(name, 0);
    assert(name.subrange(0, 0) + resource =~= resource);
}

/// Whether `path` is absolute.
pub fn is_absolute_path(path: &str) -> (absolute: bool)
    ensures
        absolute == is_absolute(path@),
{
    path.unicode_len() > 0 && path.get_char(0) == SEPARATOR
}

/// The directory part of `path`.
pub fn directory_of(path: &str) -> (dir: &str)
    ensures
        dir@ == directory(path@),
{
    let mut end: usize = path.unicode_len();
    while end > 0 && path.get_char(end - 1) != SEPARATOR
        invariant
            end <= path@.len(),
            forall|i: int| end <= i < path@.len() ==> path@[i] != SEPARATOR,
        decreases end,
    {
        end = end - 1;
    }
    proof {
        lemma_directory_len_is(path@, end as int);
    }
    path.substring_char(0, end)
}

/// Resolves the path `resource` of a manifest that lies at `manifest`: an
/// absolute path stays as it is, a relative one is meant from the directory
/// of the manifest.
pub fn resolve(manifest: &str, resource: &str) -> (path: String)
    ensures
        path@ == resolved(manifest@, resource@),
{
    if is_absolute_path(resource) {
        resource.to_owned()
    } else {
        let mut path = directory_of(manifest).to_owned();
        path.append(resource);
        path
    }
}

} // verus!
