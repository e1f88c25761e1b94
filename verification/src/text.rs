//! Character-level helpers shared by the collection serializer and parser.
use vstd::prelude::*;
use vstd::string::StrSliceExecFns;

verus! {

/// The characters of `s`, in order, as a vector.
pub fn chars_of(s: &str) -> (r: Vec<char>)
    ensures
        r@ == s@,
{
    let n: usize = s.unicode_len();
    let mut r: Vec<char> = Vec::new();
    let mut i: usize = 0;
    while i < n
        invariant
            n == s@.len(),
            i <= n,
            r@ == s@.subrange(0, i as int),
        decreases n - i,
    {
        r.push(s.get_char(i));
        i = i + 1;
        proof {
            assert(r@ =~= s@.subrange(0, i as int));
        }
    }
    proof {
        assert(r@ =~= s@);
    }
    r
}

/// One `String` holding exactly the characters of `v`.
///
/// Relies on `String`'s `FromIterator<char>` implementation, reached
/// through `Iterator::collect`: the resulting string consists of the
/// characters yielded by the vector's iterator, in order.
#[verifier::external_body]
pub fn string_from_chars(v: &Vec<char>) -> (r: String)
    ensures
        r@ == v@,
{
    v.iter().collect()
}

/// Appends the characters of `p` to `out`.
pub fn push_str(out: &mut Vec<char>, p: &str)
    ensures
        final(out)@ == old(out)@ + p@,
{
    let n: usize = p.unicode_len();
    let mut i: usize = 0;
    while i < n
        invariant
            n == p@.len(),
            i <= n,
            out@ == old(out)@ + p@.subrange(0, i as int),
        decreases n - i,
    {
        out.push(p.get_char(i));
        i = i + 1;
        proof {
            assert(out@ =~= old(out)@ + p@.subrange(0, i as int));
        }
    }
    proof {
        assert(out@ =~= old(out)@ + p@);
    }
}

/// `Some(rest)` when `p` is a prefix of `s`; `rest` is what follows it.
pub open spec fn strip(s: Seq<char>, p: Seq<char>) -> Option<Seq<char>> {
    if p.len() <= s.len() && s.subrange(0, p.len() as int) == p {
        Some(s.skip(p.len() as int))
    } else {
        None
    }
}

/// Checks that the characters of `p` stand in `s` starting at `pos`; on
/// success the result is the position just past them.
pub fn expect_str(s: &Vec<char>, pos: usize, p: &str) -> (r: Option<usize>)
    requires
        pos <= s@.len(),
    ensures
        match r {
            Some(q) => q == pos + p@.len() && q <= s@.len() && strip(s@.skip(pos as int), p@)
                == Some(s@.skip(q as int)),
            None => strip(s@.skip(pos as int), p@) is None,
        },
{
    let n: usize = p.unicode_len();
    let len: usize = s.len();
    if n > len - pos {
        return None;
    }
    let mut i: usize = 0;
    while i < n
        invariant
            len == s@.len(),
            pos + n <= len,
            n == p@.len(),
            i <= n,
            s@.subrange(pos as int, pos + i as int) == p@.subrange(0, i as int),
        decreases n - i,
    {
        if s[pos + i] != p.get_char(i) {
            proof {
                let sk = s@.skip(pos as int);
                assert(sk[i as int] == s@[pos + i]);
                if strip(sk, p@) is Some {
                    assert(sk.subrange(0, n as int) == p@);
                    assert(sk.subrange(0, n as int)[i as int] == sk[i as int]);
                    assert(false);
                }
            }
            return None;
        }
        i = i + 1;
        proof {
            assert(s@.subrange(pos as int, pos + i as int) =~= p@.subrange(0, i as int));
        }
    }
    proof {
        let sk = s@.skip(pos as int);
        assert(sk.subrange(0, n as int) =~= s@.subrange(pos as int, pos + n as int));
        assert(p@.subrange(0, n as int) =~= p@);
        assert(sk.skip(n as int) =~= s@.skip(pos + n as int));
    }
    Some(pos + n)
}

/// A decimal digit character.
pub open spec fn is_digit(c: char) -> bool {
    48 <= c as int && c as int <= 57
}

/// The numeric value of a decimal digit character.
pub open spec fn digit_val(c: char) -> int {
    c as int - 48
}

/// The character for one decimal digit.
pub open spec fn digit_char(d: int) -> char {
    if d == 0 {
        '0'
    } else if d == 1 {
        '1'
    } else if d == 2 {
        '2'
    } else if d == 3 {
        '3'
    } else if d == 4 {
        '4'
    } else if d == 5 {
        '5'
    } else if d == 6 {
        '6'
    } else if d == 7 {
        '7'
    } else if d == 8 {
        '8'
    } else {
        '9'
    }
}

/// Runtime test matching `is_digit`.
pub fn exec_is_digit(c: char) -> (r: bool)
    ensures
        r == is_digit(c),
{
    let u: u32 = c as u32;
    48 <= u && u <= 57
}

/// Runtime mapping matching `digit_char`.
pub fn exec_digit_char(d: u64) -> (r: char)
    requires
        d < 10,
    ensures
        r == digit_char(d as int),
{
    if d == 0 {
        '0'
    } else if d == 1 {
        '1'
    } else if d == 2 {
        '2'
    } else if d == 3 {
        '3'
    } else if d == 4 {
        '4'
    } else if d == 5 {
        '5'
    } else if d == 6 {
        '6'
    } else if d == 7 {
        '7'
    } else if d == 8 {
        '8'
    } else {
        '9'
    }
}

} // verus!
