//! Texts as sequences of characters: what it means for one name to occur in
//! another, and the few conversions that the rest of the library needs.

use vstd::prelude::*;

verus! {

/// `needle` stands in `hay` at place `i`.
pub open spec fn occurs_at(needle: Seq<char>, hay: Seq<char>, i: int) -> bool {
    &&& 0 <= i
    &&& i + needle.len() <= hay.len()
    &&& hay.subrange(i, i + needle.len()) == needle
}

/// `needle` stands somewhere in `hay`. The empty text stands in every text.
pub open spec fn occurs_in(needle: Seq<char>, hay: Seq<char>) -> bool {
    exists|i: int| occurs_at(needle, hay, i)
}

/// Two names match when either one occurs in the other. This is the test by
/// which the registries take a name as already known.
pub open spec fn related(a: Seq<char>, b: Seq<char>) -> bool {
    occurs_in(a, b) || occurs_in(b, a)
}

/// The texts of a list of strings.
pub open spec fn texts_of(names: Seq<String>) -> Seq<Seq<char>> {
    Seq::new(names.len(), |i: int| names[i]@)
}

/// What `str::to_lowercase` gives for the text `s`.
pub uninterp spec fn lowercase_of(s: Seq<char>) -> Seq<char>;

/// Every text occurs in itself, so every name matches itself.
pub proof fn related_to_itself(a: Seq<char>)
    ensures
        occurs_in(a, a),
        related(a, a),
{
    assert(a.subrange(0, a.len() as int) == a);
    assert(occurs_at(a, a, 0));
}

/// The characters of `s`, in order.
pub fn chars_of(s: &str) -> (out: Vec<char>)
    ensures
        out@ == s@,
{
    let mut out: Vec<char> = Vec::new();
    for c in it: s.chars()
        invariant
            it.seq() == s@,
            out@ == it.seq().take(it.index()),
    {
        out.push(c);
    }
    out
}

/// Whether `needle` stands in `hay` at place `i`.
fn matches_at(needle: &Vec<char>, hay: &Vec<char>, i: usize) -> (found: bool)
    requires
        i + needle.len() <= hay.len(),
    ensures
        found == occurs_at(needle@, hay@, i as int),
{
    let mut k: usize = 0;
    while k < needle.len()
        invariant
            k <= needle.len(),
            i + needle.len() <= hay.len(),
            forall|j: int| 0 <= j < k ==> hay@[i + j] == #[trigger] needle@[j],
        decreases needle.len() - k,
    {
        if hay[i + k] != needle[k] {
            proof {
                let part = hay@.subrange(i as int, i + needle.len());
                assert(part[k as int] == hay@[i + k]);
            }
            return false;
        }
        k += 1;
    }
    proof {
        assert(hay@.subrange(i as int, i + needle.len()) =~= needle@);
    }
    true
}

/// Whether `needle` occurs in `hay`.
pub fn contains(hay: &Vec<char>, needle: &Vec<char>) -> (found: bool)
    ensures
        found == occurs_in(needle@, hay@),
{
    if needle.len() > hay.len() {
        return false;
    }
    let last: usize = hay.len() - needle.len();
    let mut i: usize = 0;
    while i < last
        invariant
            i <= last,
            last + needle.len() == hay.len(),
            forall|j: int| 0 <= j < i ==> !occurs_at(needle@, hay@, j),
        decreases last - i,
    {
        if matches_at(needle, hay, i) {
            return true;
        }
        i += 1;
    }
    matches_at(needle, hay, last)
}

/// Whether the names `a` and `b` match.
pub fn names_match(a: &str, b: &str) -> (matched: bool)
    ensures
        matched == related(a@, b@),
{
    let left = chars_of(a);
    let right = chars_of(b);
    contains(&right, &left) || contains(&left, &right)
}

/// The lower-case form of `s`.
///
/// Calls `str::to_lowercase` of the standard library. Nothing is proved of
/// it: the contract only gives its result a name, which holds because the
/// result depends on the characters of `s` and on nothing else.
#[verifier::external_body]
pub(crate) fn to_lowercase(s: &str) -> (out: String)
    ensures
        out@ == lowercase_of(s@),
{
    s.to_lowercase()
}

} // verus!
