//! Decoding of a persisted collection document. The document grammar is
//! defined here as total specification functions that consume the front of
//! a character sequence; the runtime parser mirrors them exactly, so every
//! contract below says that the code returns precisely what the grammar
//! assigns to the input.
use vstd::prelude::*;
use crate::note::{Note, NoteView};
use crate::ser::{
    lit_doc_close, lit_doc_empty, lit_doc_open, lit_item_sep, lit_note_close, lit_note_open,
    lit_sep_content, lit_sep_created, lit_sep_edited, views_of,
};
use crate::text::{digit_val, exec_is_digit, expect_str, is_digit, string_from_chars, strip};

verus! {

/// The character an escape letter stands for, if any.
pub open spec fn unesc(c: char) -> Option<char> {
    if c == '"' {
        Some('"')
    } else if c == '\\' {
        Some('\\')
    } else if c == 'n' {
        Some('\n')
    } else if c == 'r' {
        Some('\r')
    } else if c == 't' {
        Some('\t')
    } else {
        None
    }
}

/// A stored string read up to, but not including, its closing quote:
/// the string's characters and the unread remainder of the input.
pub open spec fn parse_strbody(s: Seq<char>) -> Option<(Seq<char>, Seq<char>)>
    decreases s.len(),
{
    if s.len() == 0 {
        None
    } else if s[0] == '"' {
        Some((Seq::empty(), s))
    } else if s[0] == '\\' {
        if s.len() >= 2 {
            match unesc(s[1]) {
                Some(c) => match parse_strbody(s.skip(2)) {
                    Some((t, r)) => Some((seq![c] + t, r)),
                    None => None,
                },
                None => None,
            }
        } else {
            None
        }
    } else {
        match parse_strbody(s.skip(1)) {
            Some((t, r)) => Some((seq![s[0]] + t, r)),
            None => None,
        }
    }
}

/// Reads the longest run of decimal digits, accumulating left to right.
pub open spec fn parse_digits(s: Seq<char>, acc: nat) -> (nat, Seq<char>)
    decreases s.len(),
{
    if s.len() > 0 && is_digit(s[0]) {
        parse_digits(s.skip(1), acc * 10 + digit_val(s[0]) as nat)
    } else {
        (acc, s)
    }
}

/// A timestamp: at least one digit, and a value a machine word can hold.
pub open spec fn parse_num(s: Seq<char>) -> Option<(u64, Seq<char>)> {
    if s.len() > 0 && is_digit(s[0]) {
        let (v, rest) = parse_digits(s, 0);
        if v <= u64::MAX {
            Some(((v as u64), rest))
        } else {
            None
        }
    } else {
        None
    }
}

/// One record: its four fields in order, each introduced by its key.
pub open spec fn parse_note(s: Seq<char>) -> Option<(NoteView, Seq<char>)> {
    match strip(s, lit_note_open()) {
        None => None,
        Some(r1) => match parse_strbody(r1) {
            None => None,
            Some((title, r2)) => match strip(r2, lit_sep_content()) {
                None => None,
                Some(r3) => match parse_strbody(r3) {
                    None => None,
                    Some((content, r4)) => match strip(r4, lit_sep_created()) {
                        None => None,
                        Some(r5) => match parse_num(r5) {
                            None => None,
                            Some((created, r6)) => match strip(r6, lit_sep_edited()) {
                                None => None,
                                Some(r7) => match parse_num(r7) {
                                    None => None,
                                    Some((edited, r8)) => match strip(r8, lit_note_close()) {
                                        None => None,
                                        Some(r9) => Some(
                                            (NoteView { title, content, created, edited }, r9),
                                        ),
                                    },
                                },
                            },
                        },
                    },
                },
            },
        },
    }
}

/// The records of a non-empty document, read to the very end of the input.
pub open spec fn parse_items(s: Seq<char>) -> Option<Seq<NoteView>>
    decreases s.len(),
{
    match parse_note(s) {
        None => None,
        Some((nv, rest)) => if rest.len() >= s.len() {
            None
        } else {
            match strip(rest, lit_item_sep()) {
                Some(r2) => match parse_items(r2) {
                    Some(tail) => Some(seq![nv] + tail),
                    None => None,
                },
                None => if rest == lit_doc_close() {
                    Some(seq![nv])
                } else {
                    None
                },
            }
        },
    }
}

/// A whole document: the collection it holds, or nothing when the text is
/// not a well-formed collection document.
pub open spec fn parse_doc(s: Seq<char>) -> Option<Seq<NoteView>> {
    if s == lit_doc_empty() {
        Some(Seq::empty())
    } else {
        match strip(s, lit_doc_open()) {
            Some(r) => parse_items(r),
            None => None,
        }
    }
}

/// Runtime mapping matching `unesc`.
fn exec_unesc(c: char) -> (r: Option<char>)
    ensures
        r == unesc(c),
{
    if c == '"' {
        Some('"')
    } else if c == '\\' {
        Some('\\')
    } else if c == 'n' {
        Some('\n')
    } else if c == 'r' {
        Some('\r')
    } else if c == 't' {
        Some('\t')
    } else {
        None
    }
}

/// Reads a stored string starting at `pos`; mirrors `parse_strbody`.
fn p_strbody(s: &Vec<char>, pos: usize) -> (r: Option<(Vec<char>, usize)>)
    requires
        pos <= s@.len(),
    ensures
        match r {
            Some((t, q)) => pos <= q <= s@.len() && parse_strbody(s@.skip(pos as int)) == Some(
                (t@, s@.skip(q as int)),
            ),
            None => parse_strbody(s@.skip(pos as int)) is None,
        },
    decreases s@.len() - pos,
{
    let len: usize = s.len();
    if pos == len {
        return None;
    }
    let c = s[pos];
    proof {
        assert(s@.skip(pos as int)[0] == s@[pos as int]);
    }
    if c == '"' {
        let t: Vec<char> = Vec::new();
        proof {
            assert(t@ =~= Seq::<char>::empty());
        }
        return Some((t, pos));
    }
    if c == '\\' {
        if pos + 1 == len {
            return None;
        }
        let e = s[pos + 1];
        proof {
            assert(s@.skip(pos as int)[1] == s@[pos + 1]);
        }
        match exec_unesc(e) {
            None => None,
            Some(c2) => {
                proof {
                    assert(s@.skip(pos as int).skip(2) =~= s@.skip(pos + 2));
                }
                match p_strbody(s, pos + 2) {
                    None => None,
                    Some((mut t, q)) => {
                        let ghost t0 = t@;
                        t.insert(0, c2);
                        proof {
                            assert(t@ =~= seq![c2] + t0);
                        }
                        Some((t, q))
                    },
                }
            },
        }
    } else {
        proof {
            assert(s@.skip(pos as int).skip(1) =~= s@.skip(pos + 1));
        }
        match p_strbody(s, pos + 1) {
            None => None,
            Some((mut t, q)) => {
                let ghost t0 = t@;
                t.insert(0, c);
                proof {
                    assert(t@ =~= seq![c] + t0);
                }
                Some((t, q))
            },
        }
    }
}

proof fn lemma_parse_digits_ge(s: Seq<char>, acc: nat)
    ensures
        parse_digits(s, acc).0 >= acc,
    decreases s.len(),
{
    if s.len() > 0 && is_digit(s[0]) {
        lemma_parse_digits_ge(s.skip(1), acc * 10 + digit_val(s[0]) as nat);
    }
}

/// Reads a digit run starting at `pos`; mirrors `parse_digits`. Reports
/// failure exactly when the run's value exceeds what a machine word holds.
fn p_digits(s: &Vec<char>, pos: usize, acc: u64) -> (r: Option<(u64, usize)>)
    requires
        pos <= s@.len(),
    ensures
        match r {
            Some((v, q)) => pos <= q <= s@.len() && parse_digits(s@.skip(pos as int), acc as nat)
                == ((v as nat), s@.skip(q as int)),
            None => parse_digits(s@.skip(pos as int), acc as nat).0 > u64::MAX,
        },
    decreases s@.len() - pos,
{
    let len: usize = s.len();
    if pos == len || !exec_is_digit(s[pos]) {
        proof {
            if pos < len {
                assert(s@.skip(pos as int)[0] == s@[pos as int]);
            }
        }
        return Some((acc, pos));
    }
    let c = s[pos];
    proof {
        assert(s@.skip(pos as int)[0] == s@[pos as int]);
        assert(s@.skip(pos as int).skip(1) =~= s@.skip(pos + 1));
    }
    let d: u64 = (c as u32 - 48) as u64;
    if acc > (u64::MAX - d) / 10 {
        proof {
            let sk = s@.skip(pos as int);
            let acc2 = (acc * 10 + digit_val(sk[0])) as nat;
            assert(acc * 10 + d > u64::MAX) by (nonlinear_arith)
                requires
                    acc > (u64::MAX - d) / 10,
                    d < 10,
            ;
            assert(acc2 > u64::MAX);
            lemma_parse_digits_ge(sk.skip(1), acc2);
            assert(parse_digits(sk, acc as nat) == parse_digits(sk.skip(1), acc2));
        }
        return None;
    }
    proof {
        assert(acc * 10 + d <= u64::MAX) by (nonlinear_arith)
            requires
                acc <= (u64::MAX - d) / 10,
                d < 10,
        ;
    }
    p_digits(s, pos + 1, acc * 10 + d)
}

/// Reads a timestamp starting at `pos`; mirrors `parse_num`.
fn p_num(s: &Vec<char>, pos: usize) -> (r: Option<(u64, usize)>)
    requires
        pos <= s@.len(),
    ensures
        match r {
            Some((v, q)) => pos <= q <= s@.len() && parse_num(s@.skip(pos as int)) == Some(
                (v, s@.skip(q as int)),
            ),
            None => parse_num(s@.skip(pos as int)) is None,
        },
{
    let len: usize = s.len();
    if pos == len {
        return None;
    }
    proof {
        assert(s@.skip(pos as int)[0] == s@[pos as int]);
    }
    if !exec_is_digit(s[pos]) {
        return None;
    }
    match p_digits(s, pos, 0) {
        None => None,
        Some((v, q)) => Some((v, q)),
    }
}

/// Reads one record starting at `pos`; mirrors `parse_note`. On success
/// the record is never empty text: the position strictly advances.
fn p_note(s: &Vec<char>, pos: usize) -> (r: Option<(Note, usize)>)
    requires
        pos <= s@.len(),
    ensures
        match r {
            Some((note, q)) => pos < q <= s@.len() && parse_note(s@.skip(pos as int)) == Some(
                (note@, s@.skip(q as int)),
            ),
            None => parse_note(s@.skip(pos as int)) is None,
        },
{
    let q1 = match expect_str(s, pos, "  {\n    \"title\": \"") {
        None => {
            return None;
        },
        Some(q) => q,
    };
    let (title, q2) = match p_strbody(s, q1) {
        None => {
            return None;
        },
        Some(x) => x,
    };
    let q3 = match expect_str(s, q2, "\",\n    \"content\": \"") {
        None => {
            return None;
        },
        Some(q) => q,
    };
    let (content, q4) = match p_strbody(s, q3) {
        None => {
            return None;
        },
        Some(x) => x,
    };
    let q5 = match expect_str(s, q4, "\",\n    \"created\": ") {
        None => {
            return None;
        },
        Some(q) => q,
    };
    let (created, q6) = match p_num(s, q5) {
        None => {
            return None;
        },
        Some(x) => x,
    };
    let q7 = match expect_str(s, q6, ",\n    \"edited\": ") {
        None => {
            return None;
        },
        Some(q) => q,
    };
    let (edited, q8) = match p_num(s, q7) {
        None => {
            return None;
        },
        Some(x) => x,
    };
    let q9 = match expect_str(s, q8, "\n  }") {
        None => {
            return None;
        },
        Some(q) => q,
    };
    let note = Note {
        title: string_from_chars(&title),
        content: string_from_chars(&content),
        created,
        edited,
    };
    proof {
        reveal_strlit("  {\n    \"title\": \"");
        assert(pos < q1);
    }
    Some((note, q9))
}

/// Reads the records of a non-empty document starting at `pos`, to the end
/// of the input; mirrors `parse_items`.
fn p_items(s: &Vec<char>, pos: usize) -> (r: Option<Vec<Note>>)
    requires
        pos <= s@.len(),
    ensures
        match r {
            Some(v) => parse_items(s@.skip(pos as int)) == Some(views_of(v@)),
            None => parse_items(s@.skip(pos as int)) is None,
        },
    decreases s@.len() - pos,
{
    let len: usize = s.len();
    let (note, q) = match p_note(s, pos) {
        None => {
            return None;
        },
        Some(x) => x,
    };
    proof {
        assert(s@.skip(q as int).len() < s@.skip(pos as int).len());
    }
    let sep = expect_str(s, q, ",\n");
    match sep {
        Some(q2) => {
            proof {
                assert(s@.skip(q as int).skip(lit_item_sep().len() as int) =~= s@.skip(
                    q2 as int,
                ));
            }
            match p_items(s, q2) {
                None => None,
                Some(mut v) => {
                    let ghost v0 = v@;
                    v.insert(0, note);
                    proof {
                        assert(views_of(v@) =~= seq![note@] + views_of(v0));
                    }
                    Some(v)
                },
            }
        },
        None => {
            // The remainder is not another record; the document is well
            // formed only if it closes right here.
            let close = expect_str(s, q, "\n]");
            let good = match close {
                Some(q3) => q3 == len,
                None => false,
            };
            if good {
                proof {
                    assert(s@.skip(q as int) =~= lit_doc_close());
                }
                let mut v: Vec<Note> = Vec::new();
                v.push(note);
                proof {
                    assert(views_of(v@) =~= seq![note@]);
                }
                Some(v)
            } else {
                proof {
                    if s@.skip(q as int) == lit_doc_close() {
                        assert(s@.skip(q as int).subrange(0, lit_doc_close().len() as int)
                            =~= lit_doc_close());
                        assert(strip(s@.skip(q as int), lit_doc_close()) is Some);
                        assert(s@.len() - q == lit_doc_close().len());
                        assert(false);
                    }
                }
                None
            }
        },
    }
}

/// Reads a whole document; mirrors `parse_doc`.
pub fn p_doc(s: &Vec<char>) -> (r: Option<Vec<Note>>)
    ensures
        match r {
            Some(v) => parse_doc(s@) == Some(views_of(v@)),
            None => parse_doc(s@) is None,
        },
{
    let len: usize = s.len();
    proof {
        assert(s@.skip(0) =~= s@);
    }
    let empty_doc = expect_str(s, 0, "[]");
    let is_empty_doc = match empty_doc {
        Some(q) => q == len,
        None => false,
    };
    if is_empty_doc {
        proof {
            assert(s@ =~= lit_doc_empty());
        }
        let v: Vec<Note> = Vec::new();
        proof {
            assert(views_of(v@) =~= Seq::<NoteView>::empty());
        }
        return Some(v);
    }
    proof {
        if s@ == lit_doc_empty() {
            assert(s@.subrange(0, lit_doc_empty().len() as int) =~= lit_doc_empty());
            assert(strip(s@, lit_doc_empty()) is Some);
            assert(false);
        }
    }
    match expect_str(s, 0, "[\n") {
        None => None,
        Some(q0) => p_items(s, q0),
    }
}

} // verus!
