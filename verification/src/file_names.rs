//! Source and destination file names.
//!
//! A source name must contain `.csv` somewhere; an explicit destination
//! name must contain `.json` somewhere. Without an explicit destination the
//! name is derived from the source by cutting it at its *first* dot, so
//! `a.b.csv` becomes `a.json`.

use vstd::prelude::*;
use vstd::string::*;
use crate::error::ConvertError;

verus! {

/// `needle` occurs in `hay` starting at position `at`.
pub open spec fn occurs_at(hay: Seq<char>, needle: Seq<char>, at: int) -> bool {
    &&& 0 <= at
    &&& at + needle.len() <= hay.len()
    &&& hay.subrange(at, at + needle.len()) == needle
}

/// `needle` occurs somewhere in `hay`.
pub open spec fn contains_text(hay: Seq<char>, needle: Seq<char>) -> bool {
    exists|at: int| occurs_at(hay, needle, at)
}

/// The number of characters of `name` that stand before its first dot;
/// the whole length where it has no dot.
pub open spec fn first_dot(name: Seq<char>) -> nat
    decreases name.len(),
{
    if name.len() == 0 || name[0] == '.' {
        0
    } else {
        1 + first_dot(name.drop_first())
    }
}

/// The part of `name` before its first dot.
pub open spec fn stem(name: Seq<char>) -> Seq<char> {
    name.take(first_dot(name) as int)
}

/// The destination that belongs to `input` when `output` is what the user
/// gave: the explicit name, or the stem of the source with `.json` added.
pub open spec fn destination_of(input: Seq<char>, output: Option<Seq<char>>) -> Seq<char> {
    match output {
        Some(name) => name,
        None => stem(input) + ".json"@,
    }
}

/// `first_dot` is the one position that has no dot before it and either a
/// dot at it or the end of the name.
pub proof fn lemma_first_dot(name: Seq<char>)
    ensures
        first_dot(name) <= name.len(),
        forall|j: int| 0 <= j < first_dot(name) ==> name[j] != '.',
        first_dot(name) < name.len() ==> name[first_dot(name) as int] == '.',
    decreases name.len(),
{
    if name.len() == 0 || name[0] == '.' {
    } else {
        let rest = name.drop_first();
        lemma_first_dot(rest);
        assert forall|j: int| 0 <= j < first_dot(name) implies name[j] != '.' by {
            if j > 0 {
                assert(name[j] == rest[j - 1]);
            }
        }
        if first_dot(name) < name.len() {
            assert(name[first_dot(name) as int] == rest[first_dot(rest) as int]);
        }
    }
}

/// A position with no dot before it, and a dot or the end at it, is
/// `first_dot`.
pub proof fn lemma_first_dot_unique(name: Seq<char>, k: int)
    requires
        0 <= k <= name.len(),
        forall|j: int| 0 <= j < k ==> name[j] != '.',
        k < name.len() ==> name[k] == '.',
    ensures
        first_dot(name) == k,
{
    lemma_first_dot(name);
    let d = first_dot(name) as int;
    if d < k {
        assert(name[d] == '.');
    } else if k < d {
        assert(name[k] == '.');
    }
}

/// Whether `needle` occurs in `hay`.
pub fn contains(hay: &str, needle: &str) -> (found: bool)
    ensures
        found == contains_text(hay@, needle@),
{
    let n: usize = hay.unicode_len();
    let m: usize = needle.unicode_len();
    if m > n {
        return false;
    }
    let mut at: usize = 0;
    while at <= n - m
        invariant
            n == hay@.len(),
            m == needle@.len(),
            m <= n,
            at <= n - m + 1,
            forall|k: int| 0 <= k < at ==> !occurs_at(hay@, needle@, k),
        decreases n - m + 1 - at,
    {
        let mut j: usize = 0;
        while j < m && hay.get_char(at + j) == needle.get_char(j)
            invariant
                n == hay@.len(),
                m == needle@.len(),
                at + m <= n,
                j <= m,
                forall|k: int| 0 <= k < j ==> hay@[at + k] == needle@[k],
            decreases m - j,
        {
            j = j + 1;
        }
        if j == m {
            assert(hay@.subrange(at as int, at + m) =~= needle@);
            assert(occurs_at(hay@, needle@, at as int));
            return true;
        }
        assert(!occurs_at(hay@, needle@, at as int)) by {
            if occurs_at(hay@, needle@, at as int) {
                assert(hay@.subrange(at as int, at + m)[j as int] == needle@[j as int]);
            }
        }
        at = at + 1;
    }
    false
}

/// Settles the two file names.
///
/// The source name is returned as given. The destination is the explicit
/// one, or else the source cut at its first dot with `.json` added (the
/// *first* dot, so that `a.b.csv` gives `a.json`).
///
/// Fails with `InvalidSourceName` exactly when the source name does not
/// contain `.csv`, and with `InvalidDestinationName` exactly when the
/// source name is acceptable and an explicit destination does not contain
/// `.json`. A derived destination is never checked.
pub fn get_file_names(input: String, output: Option<String>) -> (names: Result<
    (String, String),
    ConvertError,
>)
    ensures
        match names {
            Ok((source, destination)) => {
                &&& contains_text(input@, ".csv"@)
                &&& output matches Some(name) ==> contains_text(name@, ".json"@)
                &&& source@ == input@
                &&& destination@ == destination_of(
                    input@,
                    match output {
                        Some(name) => Some(name@),
                        None => None,
                    },
                )
            },
            Err(ConvertError::InvalidSourceName) => !contains_text(input@, ".csv"@),
            Err(ConvertError::InvalidDestinationName) => {
                &&& contains_text(input@, ".csv"@)
                &&& output matches Some(name) && !contains_text(name@, ".json"@)
            },
            Err(_) => false,
        },
{
    if !contains(input.as_str(), ".csv") {
        return Err(ConvertError::InvalidSourceName);
    }
    match output {
        Some(name) => {
            if !contains(name.as_str(), ".json") {
                return Err(ConvertError::InvalidDestinationName);
            }
            Ok((input, name))
        },
        None => {
            let n: usize = input.as_str().unicode_len();
            let mut cut: usize = 0;
            while cut < n && input.as_str().get_char(cut) != '.'
                invariant
                    n == input@.len(),
                    cut <= n,
                    forall|j: int| 0 <= j < cut ==> input@[j] != '.',
                decreases n - cut,
            {
                cut = cut + 1;
            }
            proof {
                lemma_first_dot_unique(input@, cut as int);
            }
            let mut destination = String::from_str(input.as_str().substring_char(0, cut));
            destination.append(".json");
            Ok((input, destination))
        },
    }
}

} // verus!
