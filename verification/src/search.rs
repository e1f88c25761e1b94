//! The sidebar filter: a case-insensitive substring test on a note's
//! title and body.
use vstd::prelude::*;
use crate::note::{Note, NoteView};
use crate::text::chars_of;

verus! {

/// The lowercase equivalent of a string.
pub uninterp spec fn lower_of(s: Seq<char>) -> Seq<char>;

/// Relies on `str::to_lowercase`: the lowercase equivalent of the string,
/// a function of its characters alone.
#[verifier::external_body]
fn to_lowercase(s: &str) -> (r: String)
    ensures
        r@ == lower_of(s@),
{
    s.to_lowercase()
}

/// `n` occurs contiguously somewhere in `h`.
pub open spec fn contains_sub(h: Seq<char>, n: Seq<char>) -> bool {
    exists|i: int| 0 <= i <= h.len() - n.len() && #[trigger] h.subrange(i, i + n.len()) == n
}

fn match_at(h: &Vec<char>, n: &Vec<char>, i: usize) -> (r: bool)
    requires
        i + n@.len() <= h@.len(),
    ensures
        r == (h@.subrange(i as int, i + n@.len()) == n@),
{
    let nl: usize = n.len();
    let hl: usize = h.len();
    let mut j: usize = 0;
    while j < nl
        invariant
            i + nl <= hl,
            hl == h@.len(),
            nl == n@.len(),
            j <= nl,
            forall|k: int| 0 <= k < j ==> h@[i + k] == n@[k],
        decreases nl - j,
    {
        if h[i + j] != n[j] {
            proof {
                if h@.subrange(i as int, i + nl as int) == n@ {
                    assert(h@.subrange(i as int, i + nl as int)[j as int] == h@[i + j]);
                    assert(false);
                }
            }
            return false;
        }
        j = j + 1;
    }
    proof {
        assert(h@.subrange(i as int, i + nl as int) =~= n@);
    }
    true
}

/// Whether the characters of `n` stand contiguously somewhere in `h`.
pub fn contains_chars(h: &Vec<char>, n: &Vec<char>) -> (r: bool)
    ensures
        r == contains_sub(h@, n@),
{
    let hl: usize = h.len();
    let nl: usize = n.len();
    if nl > hl {
        return false;
    }
    if nl == 0 {
        proof {
            assert(h@.subrange(0, 0 + n@.len() as int) =~= n@);
            assert(contains_sub(h@, n@));
        }
        return true;
    }
    let mut i: usize = 0;
    while i <= hl - nl
        invariant
            1 <= nl <= hl,
            hl == h@.len(),
            nl == n@.len(),
            i <= hl - nl + 1,
            forall|k: int| 0 <= k < i ==> #[trigger] h@.subrange(k, k + n@.len()) != n@,
        decreases hl - nl + 1 - i,
    {
        if match_at(h, n, i) {
            proof {
                assert(0 <= i as int <= h@.len() - n@.len() && h@.subrange(
                    i as int,
                    i as int + n@.len(),
                ) == n@);
            }
            return true;
        }
        i = i + 1;
    }
    proof {
        if contains_sub(h@, n@) {
            let w = choose|w: int|
                0 <= w <= h@.len() - n@.len() && #[trigger] h@.subrange(w, w + n@.len()) == n@;
            assert(h@.subrange(w, w + n@.len()) != n@);
        }
    }
    false
}

/// Whether a note is shown under a filter: an empty filter shows every
/// note; otherwise the lowercased filter must occur in the lowercased
/// title or in the lowercased body.
pub open spec fn spec_note_matches(nv: NoteView, filter: Seq<char>) -> bool {
    ||| filter.len() == 0
    ||| contains_sub(lower_of(nv.title), lower_of(filter))
    ||| contains_sub(lower_of(nv.content), lower_of(filter))
}

/// Runtime filter test matching `spec_note_matches`.
pub fn note_matches(note: &Note, filter: &str) -> (r: bool)
    ensures
        r == spec_note_matches(note@, filter@),
{
    if filter.is_empty() {
        return true;
    }
    let fl = to_lowercase(filter);
    let flc = chars_of(fl.as_str());
    let tl = to_lowercase(note.title.as_str());
    let tlc = chars_of(tl.as_str());
    if contains_chars(&tlc, &flc) {
        return true;
    }
    let cl = to_lowercase(note.content.as_str());
    let clc = chars_of(cl.as_str());
    contains_chars(&clc, &flc)
}

} // verus!
