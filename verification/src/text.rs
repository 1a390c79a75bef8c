//! Plain-text building blocks of the metrics wire format: decimal rendering
//! of gauge values and escaping of quoted label values.

use vstd::prelude::*;
use vstd::string::*;

verus! {

/// The character for one decimal digit.
pub open spec fn digit_char(d: nat) -> char {
    if d == 0 {
        '0'
    } else if d == 1 {
        '1'
    } else if d == 2 {
        '2'
    } else if d == 3 {
        '3'
    } else if d == 4 {
        '4'
    } else if d == 5 {
        '5'
    } else if d == 6 {
        '6'
    } else if d == 7 {
        '7'
    } else if d == 8 {
        '8'
    } else {
        '9'
    }
}

/// Decimal text of a non-negative integer, most significant digit first,
/// with no leading zeroes.
pub open spec fn dec_text(n: nat) -> Seq<char>
    decreases n,
{
    if n < 10 {
        seq![digit_char(n)]
    } else {
        dec_text(n / 10).push(digit_char(n % 10))
    }
}

/// Decimal text of an integer, with a leading minus sign when negative.
pub open spec fn int_text(v: int) -> Seq<char> {
    if v >= 0 {
        dec_text(v as nat)
    } else {
        seq!['-'] + dec_text((-v) as nat)
    }
}

/// How one character appears inside a quoted label value: backslash,
/// line feed and double quote carry an escape, every other character
/// stands as itself.
pub open spec fn escape_char(c: char) -> Seq<char> {
    if c == '\\' {
        seq!['\\', '\\']
    } else if c == '\n' {
        seq!['\\', 'n']
    } else if c == '"' {
        seq!['\\', '"']
    } else {
        seq![c]
    }
}

/// A whole string as it appears inside a quoted label value.
pub open spec fn escaped(s: Seq<char>) -> Seq<char>
    decreases s.len(),
{
    if s.len() == 0 {
        Seq::empty()
    } else {
        escaped(s.drop_last()) + escape_char(s.last())
    }
}

/// Whether the pattern occurs somewhere in the text.
pub open spec fn contains_text(t: Seq<char>, p: Seq<char>) -> bool {
    exists|i: int| 0 <= i && i + p.len() <= t.len() && #[trigger] t.subrange(i, i + p.len()) == p
}

/// A concatenation contains its middle part.
pub proof fn lemma_contains_middle(pre: Seq<char>, mid: Seq<char>, suf: Seq<char>)
    ensures
        contains_text(pre + mid + suf, mid),
{
    let t = pre + mid + suf;
    let i = pre.len() as int;
    assert(t.subrange(i, i + mid.len()) =~= mid);
    assert(0 <= i && i + mid.len() <= t.len() && t.subrange(i, i + mid.len()) == mid);
}

/// Relies on String::push: appends the one character to the string.
#[verifier::external_body]
pub(crate) fn push_char(s: &mut String, c: char)
    ensures
        final(s)@ == old(s)@.push(c),
{
    s.push(c);
}

fn digit_char_of(d: u64) -> (c: char)
    requires
        d < 10,
    ensures
        c == digit_char(d as nat),
{
    if d == 0 {
        '0'
    } else if d == 1 {
        '1'
    } else if d == 2 {
        '2'
    } else if d == 3 {
        '3'
    } else if d == 4 {
        '4'
    } else if d == 5 {
        '5'
    } else if d == 6 {
        '6'
    } else if d == 7 {
        '7'
    } else if d == 8 {
        '8'
    } else {
        '9'
    }
}

/// Decimal rendering of an unsigned value.
pub fn u64_text(n: u64) -> (s: String)
    ensures
        s@ == dec_text(n as nat),
    decreases n,
{
    if n < 10 {
        let mut s = String::new();
        push_char(&mut s, digit_char_of(n));
        proof {
            assert(s@ =~= seq![digit_char(n as nat)]);
        }
        s
    } else {
        let mut s = u64_text(n / 10);
        push_char(&mut s, digit_char_of(n % 10));
        s
    }
}

/// Decimal rendering of a signed value, minus sign included.
pub fn i64_text(v: i64) -> (s: String)
    ensures
        s@ == int_text(v as int),
{
    if v >= 0 {
        u64_text(v as u64)
    } else {
        let m: u64 = if v == i64::MIN {
            9223372036854775808u64
        } else {
            (-v) as u64
        };
        let mut s = String::new();
        push_char(&mut s, '-');
        let d = u64_text(m);
        s.append(d.as_str());
        proof {
            assert(m as int == -(v as int));
            assert(s@ =~= seq!['-'] + dec_text(m as nat));
        }
        s
    }
}

/// Appends a string to `out` with every character escaped as a quoted
/// label value has it.
pub fn append_escaped(out: &mut String, s: &str)
    ensures
        final(out)@ == old(out)@ + escaped(s@),
{
    let n = s.unicode_len();
    let mut i: usize = 0;
    while i < n
        invariant
            n == s@.len(),
            i <= n,
            out@ == old(out)@ + escaped(s@.take(i as int)),
        decreases n - i,
    {
        let c = s.get_char(i);
        if c == '\\' {
            out.append("\\\\");
            proof {
                reveal_strlit("\\\\");
                assert("\\\\"@ =~= escape_char(c));
            }
        } else if c == '\n' {
            out.append("\\n");
            proof {
                reveal_strlit("\\n");
                assert("\\n"@ =~= escape_char(c));
            }
        } else if c == '"' {
            out.append("\\\"");
            proof {
                reveal_strlit("\\\"");
                assert("\\\""@ =~= escape_char(c));
            }
        } else {
            push_char(out, c);
            proof {
                assert(old(out)@ + escaped(s@.take(i as int)) + seq![c] =~= (old(out)@ + escaped(
                    s@.take(i as int),
                )).push(c));
            }
        }
        proof {
            assert(s@.take(i + 1 as int).drop_last() =~= s@.take(i as int));
            assert(s@.take(i + 1 as int).last() == s@[i as int]);
            assert(escaped(s@.take(i + 1 as int)) == escaped(s@.take(i as int)) + escape_char(
                s@[i as int],
            ));
            assert(out@ == old(out)@ + escaped(s@.take(i + 1 as int)));
        }
        i = i + 1;
    }
    proof {
        assert(s@.take(n as int) =~= s@);
    }
}

} // verus!
