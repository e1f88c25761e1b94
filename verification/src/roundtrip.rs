//! The central storage law: the persisted document written for a
//! collection decodes to exactly that collection. Everything here is
//! proof; nothing runs.
use vstd::prelude::*;
use vstd::arithmetic::div_mod::lemma_fundamental_div_mod;
use crate::note::NoteView;
use crate::parse::{
    parse_digits, parse_doc, parse_items, parse_note, parse_num, parse_strbody, unesc,
};
use crate::ser::{
    dec_digits, esc_char, esc_str, lit_doc_close, lit_doc_empty, lit_doc_open, lit_item_sep,
    lit_note_close, lit_note_open, lit_sep_content, lit_sep_created, lit_sep_edited, ser_doc,
    ser_items, ser_note,
};
use crate::text::{digit_char, digit_val, is_digit, strip};

verus! {

proof fn lemma_strip_prefix(p: Seq<char>, x: Seq<char>)
    ensures
        strip(p + x, p) == Some(x),
{
    assert((p + x).subrange(0, p.len() as int) =~= p);
    assert((p + x).skip(p.len() as int) =~= x);
}

proof fn lemma_strbody_esc(t: Seq<char>, rest: Seq<char>)
    requires
        rest.len() > 0,
        rest[0] == '"',
    ensures
        parse_strbody(esc_str(t) + rest) == Some((t, rest)),
    decreases t.len(),
{
    if t.len() == 0 {
        assert(esc_str(t) + rest =~= rest);
        assert(t =~= Seq::<char>::empty());
    } else {
        let c = t[0];
        let t1 = t.drop_first();
        lemma_strbody_esc(t1, rest);
        let s = esc_str(t) + rest;
        assert(esc_str(t) == esc_char(c) + esc_str(t1));
        assert(seq![c] + t1 =~= t);
        if c == '"' || c == '\\' || c == '\n' || c == '\r' || c == '\t' {
            assert(s =~= esc_char(c) + (esc_str(t1) + rest));
            assert(s[0] == '\\');
            assert(s.len() >= 2);
            assert(s[1] == esc_char(c)[1]);
            assert(unesc(esc_char(c)[1]) == Some(c));
            assert(s.skip(2) =~= esc_str(t1) + rest);
        } else {
            assert(s =~= seq![c] + (esc_str(t1) + rest));
            assert(s[0] == c);
            assert(s.skip(1) =~= esc_str(t1) + rest);
        }
    }
}

/// The value a digit run denotes when it extends a run already worth `acc`.
spec fn app_digits(acc: nat, n: nat) -> nat
    decreases n,
{
    if n < 10 {
        acc * 10 + n
    } else {
        app_digits(acc, n / 10) * 10 + n % 10
    }
}

proof fn lemma_parse_digits_ser(n: nat, acc: nat, rest: Seq<char>)
    ensures
        parse_digits(dec_digits(n) + rest, acc) == parse_digits(rest, app_digits(acc, n)),
    decreases n,
{
    if n < 10 {
        let s = dec_digits(n) + rest;
        assert(s[0] == digit_char(n as int));
        assert(is_digit(digit_char(n as int)));
        assert(digit_val(digit_char(n as int)) == n);
        assert(s.skip(1) =~= rest);
    } else {
        let d = digit_char((n % 10) as int);
        assert(dec_digits(n) + rest =~= dec_digits(n / 10) + (seq![d] + rest));
        lemma_parse_digits_ser(n / 10, acc, seq![d] + rest);
        let s2 = seq![d] + rest;
        assert(s2[0] == d);
        assert(n % 10 < 10);
        assert(is_digit(d));
        assert(digit_val(d) == n % 10);
        assert(s2.skip(1) =~= rest);
    }
}

proof fn lemma_app_digits_zero(n: nat)
    ensures
        app_digits(0, n) == n,
    decreases n,
{
    if n < 10 {
    } else {
        lemma_app_digits_zero(n / 10);
        lemma_fundamental_div_mod(n as int, 10);
    }
}

proof fn lemma_dec_digits_first(n: nat)
    ensures
        dec_digits(n).len() >= 1,
        is_digit(dec_digits(n)[0]),
    decreases n,
{
    if n < 10 {
    } else {
        lemma_dec_digits_first(n / 10);
        assert(dec_digits(n)[0] == dec_digits(n / 10)[0]);
    }
}

proof fn lemma_parse_num_ser(n: u64, rest: Seq<char>)
    requires
        rest.len() > 0,
        !is_digit(rest[0]),
    ensures
        parse_num(dec_digits(n as nat) + rest) == Some((n, rest)),
{
    let s = dec_digits(n as nat) + rest;
    lemma_dec_digits_first(n as nat);
    assert(s[0] == dec_digits(n as nat)[0]);
    lemma_parse_digits_ser(n as nat, 0, rest);
    lemma_app_digits_zero(n as nat);
    assert(parse_digits(rest, n as nat) == (((n as nat)), rest));
}

proof fn lemma_ser_note_pos(nv: NoteView)
    ensures
        ser_note(nv).len() > 0,
{
    reveal_strlit("  {\n    \"title\": \"");
}

proof fn lemma_parse_note_ser(nv: NoteView, rest: Seq<char>)
    ensures
        parse_note(ser_note(nv) + rest) == Some((nv, rest)),
{
    reveal_strlit("  {\n    \"title\": \"");
    reveal_strlit("\",\n    \"content\": \"");
    reveal_strlit("\",\n    \"created\": ");
    reveal_strlit(",\n    \"edited\": ");
    reveal_strlit("\n  }");
    let t8 = lit_note_close() + rest;
    let t7 = dec_digits(nv.edited as nat) + t8;
    let t6 = lit_sep_edited() + t7;
    let t5 = dec_digits(nv.created as nat) + t6;
    let t4 = lit_sep_created() + t5;
    let t3 = esc_str(nv.content) + t4;
    let t2 = lit_sep_content() + t3;
    let t1 = esc_str(nv.title) + t2;
    let s = ser_note(nv) + rest;
    assert(s =~= lit_note_open() + t1);
    lemma_strip_prefix(lit_note_open(), t1);
    assert(t2[0] == '"');
    lemma_strbody_esc(nv.title, t2);
    lemma_strip_prefix(lit_sep_content(), t3);
    assert(t4[0] == '"');
    lemma_strbody_esc(nv.content, t4);
    lemma_strip_prefix(lit_sep_created(), t5);
    assert(t6[0] == ',');
    assert(!is_digit(t6[0]));
    lemma_parse_num_ser(nv.created, t6);
    lemma_strip_prefix(lit_sep_edited(), t7);
    assert(t8[0] == '\n');
    assert(!is_digit(t8[0]));
    lemma_parse_num_ser(nv.edited, t8);
    lemma_strip_prefix(lit_note_close(), rest);
    assert(NoteView {
        title: nv.title,
        content: nv.content,
        created: nv.created,
        edited: nv.edited,
    } =~= nv);
}

proof fn lemma_parse_items_ser(ns: Seq<NoteView>)
    requires
        ns.len() >= 1,
    ensures
        parse_items(ser_items(ns) + lit_doc_close()) == Some(ns),
    decreases ns.len(),
{
    reveal_strlit(",\n");
    reveal_strlit("\n]");
    let s = ser_items(ns) + lit_doc_close();
    if ns.len() == 1 {
        assert(ser_items(ns) == ser_note(ns[0]));
        lemma_parse_note_ser(ns[0], lit_doc_close());
        lemma_ser_note_pos(ns[0]);
        assert(lit_doc_close().len() < s.len());
        if strip(lit_doc_close(), lit_item_sep()) is Some {
            assert(lit_doc_close().subrange(0, lit_item_sep().len() as int)[0] == lit_doc_close()[
                0
            ]);
            assert(false);
        }
        assert(seq![ns[0]] =~= ns);
    } else {
        let tail_in = ser_items(ns.drop_first()) + lit_doc_close();
        let r = lit_item_sep() + tail_in;
        assert(s =~= ser_note(ns[0]) + r);
        lemma_parse_note_ser(ns[0], r);
        lemma_ser_note_pos(ns[0]);
        assert(r.len() < s.len());
        lemma_strip_prefix(lit_item_sep(), tail_in);
        lemma_parse_items_ser(ns.drop_first());
        assert(seq![ns[0]] + ns.drop_first() =~= ns);
    }
}

/// Law: storage round-trips. The persisted document written for any
/// collection of note values decodes to exactly that collection, in order
/// and field for field.
pub proof fn lemma_save_load_round_trip(ns: Seq<NoteView>)
    ensures
        parse_doc(ser_doc(ns)) == Some(ns),
{
    reveal_strlit("[]");
    reveal_strlit("[\n");
    reveal_strlit("\n]");
    if ns.len() == 0 {
        assert(ser_doc(ns) == lit_doc_empty());
        assert(Seq::<NoteView>::empty() =~= ns);
    } else {
        let t = ser_items(ns) + lit_doc_close();
        let s = ser_doc(ns);
        assert(s =~= lit_doc_open() + t);
        lemma_ser_note_pos(ns[0]);
        if ns.len() == 1 {
            assert(ser_items(ns) == ser_note(ns[0]));
        }
        assert(ser_items(ns).len() > 0);
        assert(s.len() > lit_doc_empty().len());
        assert(s != lit_doc_empty());
        lemma_strip_prefix(lit_doc_open(), t);
        lemma_parse_items_ser(ns);
    }
}

} // verus!
