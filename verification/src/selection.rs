//! Which files are rewritten: those with one of three extensions, outside
//! the directories of generated parsers and lexers.

use vstd::prelude::*;
use crate::encoding::decode;

verus! {

/// Whether `needle` stands in `hay` at index `k`.
pub open spec fn occurs_at(hay: Seq<char>, needle: Seq<char>, k: int) -> bool {
    0 <= k && k + needle.len() <= hay.len() && hay.subrange(k, k + needle.len()) == needle
}

/// Whether `needle` stands somewhere in `hay`.
pub open spec fn contains_text(hay: Seq<char>, needle: Seq<char>) -> bool {
    exists|k: int| occurs_at(hay, needle, k)
}

/// Whether a path is left alone whatever its extension: one that holds
/// `Yacc` or `Flex` anywhere.
pub open spec fn is_excluded(path: Seq<char>) -> bool {
    contains_text(path, "Yacc"@) || contains_text(path, "Flex"@)
}

/// Whether an extension is one of those that are rewritten.
pub open spec fn is_source_extension(extension: Seq<char>) -> bool {
    extension == "cpp"@ || extension == "h"@ || extension == "inl"@
}

/// Whether the file with this path and this extension is rewritten.
pub open spec fn is_selected(path: Seq<char>, extension: Option<Seq<char>>) -> bool {
    &&& !is_excluded(path)
    &&& extension matches Some(e) && is_source_extension(e)
}

/// Whether two texts are the same.
fn same_chars(a: &Vec<char>, b: &Vec<char>) -> (yes: bool)
    ensures
        yes == (a@ == b@),
{
    if a.len() != b.len() {
        return false;
    }
    let mut i: usize = 0;
    while i < a.len()
        invariant
            a@.len() == b@.len(),
            i <= a@.len(),
            forall|k: int| 0 <= k < i ==> a@[k] == b@[k],
        decreases a@.len() - i,
    {
        if a[i] != b[i] {
            return false;
        }
        i = i + 1;
    }
    assert(a@ =~= b@);
    true
}

/// Whether `needle` stands in `hay` at index `k`.
fn stands_at(hay: &Vec<char>, needle: &Vec<char>, k: usize) -> (yes: bool)
    requires
        k + needle@.len() <= hay@.len(),
    ensures
        yes == occurs_at(hay@, needle@, k as int),
{
    let ghost part = hay@.subrange(k as int, k + needle@.len());
    let mut i: usize = 0;
    while i < needle.len()
        invariant
            k + needle@.len() <= hay@.len(),
            hay@.len() == hay.len(),
            part == hay@.subrange(k as int, k + needle@.len()),
            i <= needle@.len(),
            forall|m: int| 0 <= m < i ==> part[m] == needle@[m],
        decreases needle@.len() - i,
    {
        if hay[k + i] != needle[i] {
            assert(part[i as int] != needle@[i as int]);
            return false;
        }
        i = i + 1;
    }
    assert(part =~= needle@);
    true
}

/// Whether `needle` stands somewhere in `hay`.
fn contains(hay: &Vec<char>, needle: &Vec<char>) -> (yes: bool)
    ensures
        yes == contains_text(hay@, needle@),
{
    if needle.len() > hay.len() {
        return false;
    }
    let last = hay.len() - needle.len();
    let mut k: usize = 0;
    loop
        invariant
            last == hay@.len() - needle@.len(),
            k <= last,
            forall|m: int| 0 <= m < k ==> !occurs_at(hay@, needle@, m),
        decreases last - k,
    {
        if stands_at(hay, needle, k) {
            return true;
        }
        if k == last {
            return false;
        }
        k = k + 1;
    }
}

/// Decides whether a file is rewritten, from its path and its extension,
/// both as text: its path holds neither `Yacc` nor `Flex`, and its extension
/// is exactly `cpp`, `h` or `inl`. A file without an extension is not
/// rewritten.
pub fn should_convert(path: &str, extension: Option<&str>) -> (yes: bool)
    ensures
        yes == is_selected(
            path@,
            match extension {
                Some(e) => Some(e@),
                None => None,
            },
        ),
{
    let path = decode(path);
    if contains(&path, &decode("Yacc")) || contains(&path, &decode("Flex")) {
        return false;
    }
    match extension {
        Some(e) => {
            let e = decode(e);
            same_chars(&e, &decode("cpp")) || same_chars(&e, &decode("h")) || same_chars(
                &e,
                &decode("inl"),
            )
        },
        None => false,
    }
}

} // verus!
