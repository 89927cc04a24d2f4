//! Job-identifier classification.
//!
//! The first field of every record tells whether the record is a singular
//! job, an element of an array job (`<base>_<index>`), or an auxiliary
//! sub-record to be discarded (any identifier with a dot, and anything that
//! does not parse as one or two plain non-negative integers).

use vstd::prelude::*;

use crate::numbers::all_digits;
use crate::numbers::digits_val;
use crate::numbers::is_digit;
use crate::numbers::parse_u64;
use crate::numbers::parses_to_u64;
use vstd::string::StrSliceExecFns;

verus! {

/// What a record's identifier field denotes.
#[derive(Clone, Copy, PartialEq, Eq, Structural, Debug)]
pub enum IdClass {
    /// Not an independent job row; the whole record is skipped.
    Discard,
    /// A plain job.
    Singular { id: u64 },
    /// One element of an array job.
    ArrayElement { base: u64, index: u64 },
}

/// Index of the first occurrence of `c` in `s`, if any.
pub open spec fn find_char(s: Seq<char>, c: char) -> Option<int>
    decreases s.len(),
{
    if s.len() == 0 {
        None
    } else if s[0] == c {
        Some(0)
    } else {
        match find_char(s.drop_first(), c) {
            Some(i) => Some(i + 1),
            None => None,
        }
    }
}

/// `find_char` returns the first occurrence, and `None` exactly when there
/// is none.
pub proof fn lemma_find_char_props(s: Seq<char>, c: char)
    ensures
        match find_char(s, c) {
            Some(i) => 0 <= i < s.len() && s[i] == c && forall|j: int| 0 <= j < i ==> s[j] != c,
            None => forall|j: int| 0 <= j < s.len() ==> s[j] != c,
        },
    decreases s.len(),
{
    if s.len() > 0 && s[0] != c {
        let rest = s.drop_first();
        lemma_find_char_props(rest, c);
        match find_char(rest, c) {
            Some(i) => {
                assert(s[i + 1] == c);
                assert forall|j: int| 0 <= j < i + 1 implies s[j] != c by {
                    if j > 0 {
                        assert(rest[j - 1] != c);
                    }
                }
            },
            None => {
                assert forall|j: int| 0 <= j < s.len() implies s[j] != c by {
                    if j > 0 {
                        assert(rest[j - 1] != c);
                    }
                }
            },
        }
    }
}

/// Classification of an identifier token: a dot means discard; otherwise a
/// token split at its first underscore is an array element when both sides
/// are plain non-negative integers and discard when either is not; a token
/// without an underscore is a singular job when it is itself such an
/// integer, and discard otherwise.
pub open spec fn classify_spec(t: Seq<char>) -> IdClass {
    if find_char(t, '.') is Some {
        IdClass::Discard
    } else {
        match find_char(t, '_') {
            Some(i) => {
                let a = t.take(i);
                let b = t.skip(i + 1);
                if parses_to_u64(a) && parses_to_u64(b) {
                    IdClass::ArrayElement {
                        base: digits_val(a) as u64,
                        index: digits_val(b) as u64,
                    }
                } else {
                    IdClass::Discard
                }
            },
            None => {
                if parses_to_u64(t) {
                    IdClass::Singular { id: digits_val(t) as u64 }
                } else {
                    IdClass::Discard
                }
            },
        }
    }
}

/// Index of the first occurrence of `c` in `s`, if any.
fn find_char_at(s: &str, c: char) -> (r: Option<usize>)
    ensures
        match r {
            Some(i) => find_char(s@, c) == Some(i as int),
            None => find_char(s@, c) is None,
        },
{
    let n = s.unicode_len();
    let mut i: usize = 0;
    while i < n
        invariant
            i <= n,
            n == s@.len(),
            forall|j: int| 0 <= j < i ==> s@[j] != c,
        decreases n - i,
    {
        if s.get_char(i) == c {
            proof {
                lemma_find_char_props(s@, c);
            }
            return Some(i);
        }
        i += 1;
    }
    proof {
        lemma_find_char_props(s@, c);
    }
    None
}

/// Classifies one identifier token.
pub fn classify(token: &str) -> (r: IdClass)
    ensures
        r == classify_spec(token@),
{
    if find_char_at(token, '.').is_some() {
        return IdClass::Discard;
    }
    let n = token.unicode_len();
    match find_char_at(token, '_') {
        Some(i) => {
            proof {
                lemma_find_char_props(token@, '_');
            }
            let a = token.substring_char(0, i);
            let b = token.substring_char(i + 1, n);
            proof {
                assert(a@ =~= token@.take(i as int));
                assert(b@ =~= token@.skip(i + 1));
            }
            match (parse_u64(a), parse_u64(b)) {
                (Some(base), Some(index)) => IdClass::ArrayElement { base, index },
                _ => IdClass::Discard,
            }
        },
        None => {
            match parse_u64(token) {
                Some(id) => IdClass::Singular { id },
                None => IdClass::Discard,
            }
        },
    }
}

/// A token that contains a dot is always discarded.
pub proof fn lemma_dot_discards(t: Seq<char>)
    requires
        exists|i: int| 0 <= i < t.len() && t[i] == '.',
    ensures
        classify_spec(t) == IdClass::Discard,
{
    lemma_find_char_props(t, '.');
}

/// Digit characters are never a dot or an underscore.
proof fn lemma_digits_plain(s: Seq<char>)
    requires
        all_digits(s),
    ensures
        forall|j: int| 0 <= j < s.len() ==> s[j] != '.' && s[j] != '_',
{
    assert forall|j: int| 0 <= j < s.len() implies s[j] != '.' && s[j] != '_' by {
        assert(is_digit(s[j]));
    }
}

/// A token `<a>_<b>` whose two sides are both plain non-negative integers is
/// classified as the array element with base `a` and index `b`.
pub proof fn lemma_array_element(a: Seq<char>, b: Seq<char>)
    requires
        parses_to_u64(a),
        parses_to_u64(b),
    ensures
        classify_spec(a + seq!['_'] + b) == (IdClass::ArrayElement {
            base: digits_val(a) as u64,
            index: digits_val(b) as u64,
        }),
{
    let t = a + seq!['_'] + b;
    lemma_digits_plain(a);
    lemma_digits_plain(b);
    lemma_find_char_props(t, '.');
    lemma_find_char_props(t, '_');
    assert(t[a.len() as int] == '_');
    assert(find_char(t, '.') is None);
    assert(find_char(t, '_') == Some(a.len() as int));
    assert(t.take(a.len() as int) =~= a);
    assert(t.skip(a.len() as int + 1) =~= b);
}

/// A token `<a>_<b>`, split at its first underscore, whose sides are not
/// both plain non-negative integers is discarded: it never falls through to
/// singular classification.
pub proof fn lemma_array_malformed(a: Seq<char>, b: Seq<char>)
    requires
        forall|j: int| 0 <= j < a.len() ==> a[j] != '_' && a[j] != '.',
        forall|j: int| 0 <= j < b.len() ==> b[j] != '.',
        !(parses_to_u64(a) && parses_to_u64(b)),
    ensures
        classify_spec(a + seq!['_'] + b) == IdClass::Discard,
{
    let t = a + seq!['_'] + b;
    lemma_find_char_props(t, '.');
    lemma_find_char_props(t, '_');
    assert(t[a.len() as int] == '_');
    assert(find_char(t, '.') is None);
    assert(find_char(t, '_') == Some(a.len() as int));
    assert(t.take(a.len() as int) =~= a);
    assert(t.skip(a.len() as int + 1) =~= b);
}

/// A token that is itself a plain non-negative integer is classified as a
/// singular job.
pub proof fn lemma_singular(t: Seq<char>)
    requires
        parses_to_u64(t),
    ensures
        classify_spec(t) == (IdClass::Singular { id: digits_val(t) as u64 }),
{
    lemma_digits_plain(t);
    lemma_find_char_props(t, '.');
    lemma_find_char_props(t, '_');
}

} // verus!
