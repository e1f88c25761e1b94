//! The persisted representation of a note collection: one pretty-printed
//! structured text document, a sequence of records each holding the four
//! note fields. This module defines the document as a mathematical
//! function of the collection and builds it at runtime.
use vstd::prelude::*;
use crate::note::{Note, NoteView};
use crate::text::{digit_char, push_str, string_from_chars, exec_digit_char};

verus! {

/// The views of the notes in a collection, in order.
pub open spec fn views_of(notes: Seq<Note>) -> Seq<NoteView> {
    notes.map_values(|n: Note| n@)
}

/// The document for the empty collection.
pub open spec fn lit_doc_empty() -> Seq<char> {
    "[]"@
}

/// Opens the document for a non-empty collection.
pub open spec fn lit_doc_open() -> Seq<char> {
    "[\n"@
}

/// Closes the document for a non-empty collection.
pub open spec fn lit_doc_close() -> Seq<char> {
    "\n]"@
}

/// Stands between two records.
pub open spec fn lit_item_sep() -> Seq<char> {
    ",\n"@
}

/// Opens a record, up to and including the quote that opens the title.
pub open spec fn lit_note_open() -> Seq<char> {
    "  {\n    \"title\": \""@
}

/// Closes the title and opens the body, including both quotes.
pub open spec fn lit_sep_content() -> Seq<char> {
    "\",\n    \"content\": \""@
}

/// Closes the body and announces the creation timestamp.
pub open spec fn lit_sep_created() -> Seq<char> {
    "\",\n    \"created\": "@
}

/// Stands between the two timestamps.
pub open spec fn lit_sep_edited() -> Seq<char> {
    ",\n    \"edited\": "@
}

/// Closes a record.
pub open spec fn lit_note_close() -> Seq<char> {
    "\n  }"@
}

/// How one character of a stored string is written: the quote, the
/// backslash and the three common control characters are escaped; every
/// other character stands for itself.
pub open spec fn esc_char(c: char) -> Seq<char> {
    if c == '"' {
        seq!['\\', '"']
    } else if c == '\\' {
        seq!['\\', '\\']
    } else if c == '\n' {
        seq!['\\', 'n']
    } else if c == '\r' {
        seq!['\\', 'r']
    } else if c == '\t' {
        seq!['\\', 't']
    } else {
        seq![c]
    }
}

/// A stored string, character by character.
pub open spec fn esc_str(s: Seq<char>) -> Seq<char>
    decreases s.len(),
{
    if s.len() == 0 {
        Seq::empty()
    } else {
        esc_char(s[0]) + esc_str(s.drop_first())
    }
}

/// The decimal digits of `n`, most significant first.
pub open spec fn dec_digits(n: nat) -> Seq<char>
    decreases n,
{
    if n < 10 {
        seq![digit_char(n as int)]
    } else {
        dec_digits(n / 10) + seq![digit_char((n % 10) as int)]
    }
}

/// One record of the document.
pub open spec fn ser_note(v: NoteView) -> Seq<char> {
    lit_note_open() + esc_str(v.title) + lit_sep_content() + esc_str(v.content)
        + lit_sep_created() + dec_digits(v.created as nat) + lit_sep_edited() + dec_digits(
        v.edited as nat,
    ) + lit_note_close()
}

/// The records of a non-empty collection, separated.
pub open spec fn ser_items(ns: Seq<NoteView>) -> Seq<char>
    recommends
        ns.len() >= 1,
    decreases ns.len(),
{
    if ns.len() <= 1 {
        ser_note(ns[0])
    } else {
        ser_note(ns[0]) + lit_item_sep() + ser_items(ns.drop_first())
    }
}

/// The whole persisted document for a collection.
pub open spec fn ser_doc(ns: Seq<NoteView>) -> Seq<char> {
    if ns.len() == 0 {
        lit_doc_empty()
    } else {
        lit_doc_open() + ser_items(ns) + lit_doc_close()
    }
}

/// Appends one stored character, escaped as the document requires.
fn push_esc_char(out: &mut Vec<char>, c: char)
    ensures
        final(out)@ == old(out)@ + esc_char(c),
{
    if c == '"' {
        out.push('\\');
        out.push('"');
    } else if c == '\\' {
        out.push('\\');
        out.push('\\');
    } else if c == '\n' {
        out.push('\\');
        out.push('n');
    } else if c == '\r' {
        out.push('\\');
        out.push('r');
    } else if c == '\t' {
        out.push('\\');
        out.push('t');
    } else {
        out.push(c);
    }
    proof {
        assert(final(out)@ =~= old(out)@ + esc_char(c));
    }
}

proof fn lemma_esc_str_push(s: Seq<char>, c: char)
    ensures
        esc_str(s.push(c)) == esc_str(s) + esc_char(c),
    decreases s.len(),
{
    if s.len() == 0 {
        assert(s.push(c).drop_first() =~= Seq::<char>::empty());
        assert(s.push(c)[0] == c);
        assert(esc_str(Seq::<char>::empty()) == Seq::<char>::empty());
        assert(esc_str(s.push(c)) == esc_char(c) + esc_str(Seq::<char>::empty()));
        assert(esc_str(s.push(c)) =~= esc_char(c));
        assert(esc_str(s) + esc_char(c) =~= esc_char(c));
    } else {
        lemma_esc_str_push(s.drop_first(), c);
        assert(s.push(c).drop_first() =~= s.drop_first().push(c));
        assert(s.push(c)[0] == s[0]);
        assert(esc_char(s[0]) + (esc_str(s.drop_first()) + esc_char(c)) =~= (esc_char(s[0])
            + esc_str(s.drop_first())) + esc_char(c));
    }
}

/// Appends a stored string, escaped as the document requires.
fn push_esc(out: &mut Vec<char>, s: &str)
    ensures
        final(out)@ == old(out)@ + esc_str(s@),
{
    let v = crate::text::chars_of(s);
    let n: usize = v.len();
    let mut i: usize = 0;
    while i < n
        invariant
            n == v@.len(),
            v@ == s@,
            i <= n,
            out@ == old(out)@ + esc_str(s@.subrange(0, i as int)),
        decreases n - i,
    {
        push_esc_char(out, v[i]);
        i = i + 1;
        proof {
            lemma_esc_str_push(s@.subrange(0, i - 1), s@[i - 1]);
            assert(s@.subrange(0, i as int) =~= s@.subrange(0, i - 1).push(s@[i - 1]));
            assert(out@ =~= old(out)@ + esc_str(s@.subrange(0, i as int)));
        }
    }
    proof {
        assert(s@.subrange(0, n as int) =~= s@);
    }
}

/// Appends the decimal digits of `n`.
fn push_u64(out: &mut Vec<char>, n: u64)
    ensures
        final(out)@ == old(out)@ + dec_digits(n as nat),
    decreases n,
{
    if n < 10 {
        out.push(exec_digit_char(n));
        proof {
            assert(final(out)@ =~= old(out)@ + dec_digits(n as nat));
        }
    } else {
        push_u64(out, n / 10);
        out.push(exec_digit_char(n % 10));
        proof {
            assert(final(out)@ =~= old(out)@ + dec_digits(n as nat));
        }
    }
}

/// Appends one record.
fn push_note(out: &mut Vec<char>, note: &Note)
    ensures
        final(out)@ == old(out)@ + ser_note(note@),
{
    push_str(out, "  {\n    \"title\": \"");
    push_esc(out, note.title.as_str());
    push_str(out, "\",\n    \"content\": \"");
    push_esc(out, note.content.as_str());
    push_str(out, "\",\n    \"created\": ");
    push_u64(out, note.created);
    push_str(out, ",\n    \"edited\": ");
    push_u64(out, note.edited);
    push_str(out, "\n  }");
    proof {
        assert(final(out)@ =~= old(out)@ + ser_note(note@));
    }
}

/// Appends the records of `notes` from position `i` on, separated.
fn push_items(out: &mut Vec<char>, notes: &Vec<Note>, i: usize)
    requires
        i < notes@.len(),
    ensures
        final(out)@ == old(out)@ + ser_items(views_of(notes@).skip(i as int)),
    decreases notes@.len() - i,
{
    let len: usize = notes.len();
    push_note(out, &notes[i]);
    proof {
        assert(views_of(notes@).skip(i as int)[0] == notes@[i as int]@);
    }
    if i + 1 < len {
        push_str(out, ",\n");
        push_items(out, notes, i + 1);
        proof {
            assert(views_of(notes@).skip(i as int).drop_first() =~= views_of(notes@).skip(
                i + 1,
            ));
            assert(views_of(notes@).skip(i as int).len() > 1);
            assert(final(out)@ =~= old(out)@ + ser_items(views_of(notes@).skip(i as int)));
        }
    } else {
        proof {
            assert(views_of(notes@).skip(i as int).len() == 1);
            assert(final(out)@ =~= old(out)@ + ser_items(views_of(notes@).skip(i as int)));
        }
    }
}

/// The persisted document for `notes`: the whole collection as one
/// pretty-printed structured text document, a function of the collection
/// alone.
pub fn serialize_notes(notes: &Vec<Note>) -> (r: String)
    ensures
        r@ == ser_doc(views_of(notes@)),
{
    let mut out: Vec<char> = Vec::new();
    if notes.len() == 0 {
        push_str(&mut out, "[]");
        proof {
            assert(views_of(notes@).len() == 0);
            assert(out@ =~= ser_doc(views_of(notes@)));
        }
    } else {
        push_str(&mut out, "[\n");
        push_items(&mut out, notes, 0);
        push_str(&mut out, "\n]");
        proof {
            assert(views_of(notes@).skip(0) =~= views_of(notes@));
            assert(views_of(notes@).len() > 0);
            assert(out@ =~= ser_doc(views_of(notes@)));
        }
    }
    string_from_chars(&out)
}

} // verus!
