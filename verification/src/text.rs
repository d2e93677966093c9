//! Text building blocks: decimal rendering of counters and coordinates,
//! single-quote escaping and quoting, and joining fragments with a separator.

use vstd::prelude::*;

verus! {

/// The decimal digit character for one digit value.
pub open spec fn spec_digit(d: nat) -> char {
    if d == 0 {
        '0'
    } else if d == 1 {
        '1'
    } else if d == 2 {
        '2'
    } else if d == 3 {
        '3'
    } else if d == 4 {
        '4'
    } else if d == 5 {
        '5'
    } else if d == 6 {
        '6'
    } else if d == 7 {
        '7'
    } else if d == 8 {
        '8'
    } else {
        '9'
    }
}

/// The usual decimal numeral of `n`: no leading zeros, most significant
/// digit first, and the single digit `0` for zero.
pub open spec fn spec_dec(n: nat) -> Seq<char>
    decreases n,
{
    if n < 10 {
        seq![spec_digit(n)]
    } else {
        spec_dec(n / 10) + seq![spec_digit(n % 10)]
    }
}

/// `s` with every single quote doubled, all other characters unchanged.
pub open spec fn spec_escape(s: Seq<char>) -> Seq<char>
    decreases s.len(),
{
    if s.len() == 0 {
        Seq::<char>::empty()
    } else {
        spec_escape(s.drop_last()) + (if s.last() == '\'' {
            seq!['\'', '\'']
        } else {
            seq![s.last()]
        })
    }
}

/// `s` escaped and wrapped in single quotes, so the receiving command
/// interpreter treats it as one literal string.
pub open spec fn spec_quote(s: Seq<char>) -> Seq<char> {
    seq!['\''] + spec_escape(s) + seq!['\'']
}

/// The parts concatenated with `sep` between each consecutive pair;
/// empty when there are no parts.
pub open spec fn spec_join(parts: Seq<Seq<char>>, sep: Seq<char>) -> Seq<char>
    decreases parts.len(),
{
    if parts.len() == 0 {
        Seq::<char>::empty()
    } else if parts.len() == 1 {
        parts[0]
    } else {
        parts[0] + sep + spec_join(parts.drop_first(), sep)
    }
}

/// Relies on `String::push` from std: it appends exactly the one character
/// to the end of the string.
#[verifier::external_body]
pub(crate) fn push_char(s: &mut String, c: char)
    ensures
        final(s)@ == old(s)@.push(c),
{
    s.push(c);
}

/// Relies on `itertools::Itertools::join`: the items' text concatenated in
/// order with the separator between each consecutive pair (and `""` for an
/// empty list); `Display` on `String` yields the string itself.
#[verifier::external_body]
pub(crate) fn join_strings(parts: &Vec<String>, sep: &str) -> (r: String)
    ensures
        r@ == spec_join(parts@.map_values(|p: String| p@), sep@),
{
    itertools::Itertools::join(&mut parts.iter(), sep)
}

/// The character for one decimal digit.
fn digit_char(d: u64) -> (c: char)
    requires
        d < 10,
    ensures
        c == spec_digit(d as nat),
{
    if d == 0 {
        '0'
    } else if d == 1 {
        '1'
    } else if d == 2 {
        '2'
    } else if d == 3 {
        '3'
    } else if d == 4 {
        '4'
    } else if d == 5 {
        '5'
    } else if d == 6 {
        '6'
    } else if d == 7 {
        '7'
    } else if d == 8 {
        '8'
    } else {
        '9'
    }
}

/// Appends the decimal numeral of `n` to `s`.
pub fn push_u64(s: &mut String, n: u64)
    ensures
        final(s)@ == old(s)@ + spec_dec(n as nat),
    decreases n,
{
    if n >= 10 {
        push_u64(s, n / 10);
        push_char(s, digit_char(n % 10));
        assert(final(s)@ =~= old(s)@ + spec_dec(n as nat));
    } else {
        push_char(s, digit_char(n));
        assert(final(s)@ =~= old(s)@ + spec_dec(n as nat));
    }
}

/// The decimal numeral of `n` as a string.
pub fn u64_to_string(n: u64) -> (r: String)
    ensures
        r@ == spec_dec(n as nat),
{
    let mut s = String::new();
    push_u64(&mut s, n);
    proof {
        assert(s@ =~= spec_dec(n as nat));
    }
    s
}

/// Appends `t` to `s` with every single quote doubled.
fn push_escaped(s: &mut String, t: &str)
    ensures
        final(s)@ == old(s)@ + spec_escape(t@),
{
    let len = t.unicode_len();
    let mut i: usize = 0;
    while i < len
        invariant
            len == t@.len(),
            i <= len,
            s@ == old(s)@ + spec_escape(t@.take(i as int)),
        decreases len - i,
    {
        let c = t.get_char(i);
        if c == '\'' {
            push_char(s, '\'');
            push_char(s, '\'');
        } else {
            push_char(s, c);
        }
        proof {
            assert(t@.take(i + 1).drop_last() =~= t@.take(i as int));
            assert(t@.take(i + 1).last() == t@[i as int]);
            assert(s@ =~= old(s)@ + spec_escape(t@.take(i + 1)));
        }
        i = i + 1;
    }
    proof {
        assert(t@.take(len as int) =~= t@);
    }
}

/// Escape a string to sit inside editor single quotes: every single quote
/// is doubled, everything else is kept.
pub fn editor_escape(s: &str) -> (r: String)
    ensures
        r@ == spec_escape(s@),
{
    let mut out = String::new();
    push_escaped(&mut out, s);
    proof {
        assert(out@ =~= spec_escape(s@));
    }
    out
}

/// Convert to an editor string by wrapping in single quotes and escaping.
pub fn editor_quote(s: &str) -> (r: String)
    ensures
        r@ == spec_quote(s@),
{
    let mut out = String::new();
    push_char(&mut out, '\'');
    push_escaped(&mut out, s);
    push_char(&mut out, '\'');
    proof {
        assert(out@ =~= spec_quote(s@));
    }
    out
}

} // verus!
