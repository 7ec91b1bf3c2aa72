//! File paths as text.

use vstd::prelude::*;
use vstd::string::*;

use crate::text::chars_of;

verus! {

/// `rel` taken relative to `base`: an absolute `rel` stands for itself, and a separator is put
/// between the two where `base` is not empty and does not end with one.
pub open spec fn joined(base: Seq<char>, rel: Seq<char>) -> Seq<char> {
    if rel.len() > 0 && rel[0] == '/' {
        rel
    } else if base.len() == 0 || base.last() == '/' {
        base + rel
    } else {
        base.push('/') + rel
    }
}

/// `rel` taken relative to `base`, as `Path::join` does on Unix.
pub fn join_path(base: &str, rel: &str) -> (path: String)
    ensures
        path@ == joined(base@, rel@),
{
    let base_chars = chars_of(base);
    let rel_chars = chars_of(rel);
    if rel_chars.len() > 0 && rel_chars[0] == '/' {
        return rel.to_owned();
    }
    let mut path = base.to_owned();
    if base_chars.len() > 0 && base_chars[base_chars.len() - 1] != '/' {
        path.push('/');
    }
    path.append(rel);
    path
}

/// What `Path::file_stem` gives for a path on Unix, where it gives something.
pub uninterp spec fn path_stem(path: Seq<char>) -> Option<Seq<char>>;

/// `Path::file_stem`: the name of the file that a path leads to, without its extension.
/// The path is text, so what comes back is text too. What counts as the last component and as
/// the extension on Unix is left to `Path`.
#[verifier::external_body]
pub(crate) fn file_stem(path: &str) -> (stem: Option<String>)
    ensures
        match stem {
            Some(s) => path_stem(path@) == Some(s@),
            None => path_stem(path@) is None,
        },
{
    std::path::Path::new(path).file_stem().map(|s| s.to_string_lossy().into_owned())
}

/// The stem of a script's file name, empty where the path has none.
pub open spec fn stem_or_empty(stem: Option<Seq<char>>) -> Seq<char> {
    match stem {
        Some(s) => s,
        None => seq![],
    }
}

/// The stem of the file name that `path` leads to, empty where it has none.
pub fn script_stem(path: &str) -> (stem: String)
    ensures
        stem@ == stem_or_empty(path_stem(path@)),
{
    match file_stem(path) {
        Some(s) => s,
        None => String::new(),
    }
}

/// An absolute path stands for itself, and a relative one is put behind its base with exactly one
/// separator between them, unless the base is empty.
pub proof fn law_joined_paths(base: Seq<char>, rel: Seq<char>)
    ensures
        joined(base, seq!['/'] + rel) == seq!['/'] + rel,
        rel.len() == 0 || rel[0] != '/' ==> {
            &&& joined(seq![], rel) == rel
            &&& base.len() > 0 && base.last() != '/' ==> joined(base, rel) == base + seq!['/'] + rel
            &&& joined(base.push('/'), rel) == base + seq!['/'] + rel
        },
{
    assert(joined(seq![], rel) =~= rel || (rel.len() > 0 && rel[0] == '/'));
    assert(base.push('/') =~= base + seq!['/']);
}

/// A stem stands for itself, and no stem for the empty text.
pub proof fn law_missing_stem_is_empty(stem: Seq<char>)
    ensures
        stem_or_empty(Some(stem)) == stem,
        stem_or_empty(None).len() == 0,
{
}

} // verus!
