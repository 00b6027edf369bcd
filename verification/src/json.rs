//! Framing of outbound lines: every reply a node writes is rendered by the
//! functions here, and each rendering function is proved to produce exactly
//! the character sequence that its spec-level counterpart describes.

use vstd::prelude::*;

verus! {

/// The decimal digit character for a value below ten.
pub open spec fn digit_char(d: nat) -> char {
    if d == 0 { '0' }
    else if d == 1 { '1' }
    else if d == 2 { '2' }
    else if d == 3 { '3' }
    else if d == 4 { '4' }
    else if d == 5 { '5' }
    else if d == 6 { '6' }
    else if d == 7 { '7' }
    else if d == 8 { '8' }
    else { '9' }
}

/// The usual decimal rendering of a natural number, most significant digit
/// first, with no leading zeroes (zero itself renders as "0").
pub open spec fn dec_rep(n: nat) -> Seq<char>
    decreases n,
{
    if n < 10 {
        seq![digit_char(n)]
    } else {
        dec_rep(n / 10) + seq![digit_char(n % 10)]
    }
}

fn digit_to_char(d: usize) -> (c: char)
    requires
        d < 10,
    ensures
        c == digit_char(d as nat),
{
    if d == 0 { '0' }
    else if d == 1 { '1' }
    else if d == 2 { '2' }
    else if d == 3 { '3' }
    else if d == 4 { '4' }
    else if d == 5 { '5' }
    else if d == 6 { '6' }
    else if d == 7 { '7' }
    else if d == 8 { '8' }
    else { '9' }
}

/// The decimal rendering is never empty.
pub proof fn lemma_dec_rep_len(n: nat)
    ensures
        dec_rep(n).len() >= 1,
    decreases n,
{
    if n >= 10 {
        lemma_dec_rep_len(n / 10);
    }
}

/// Two different numbers never share a decimal rendering.
pub proof fn lemma_dec_rep_injective(a: nat, b: nat)
    requires
        dec_rep(a) == dec_rep(b),
    ensures
        a == b,
    decreases a,
{
    if a < 10 && b < 10 {
        assert(dec_rep(a)[0] == digit_char(a));
        assert(dec_rep(b)[0] == digit_char(b));
        assert(digit_char(a) == digit_char(b));
    } else if a < 10 && b >= 10 {
        lemma_dec_rep_len(b / 10);
        assert(dec_rep(b).len() >= 2);
    } else if a >= 10 && b < 10 {
        lemma_dec_rep_len(a / 10);
        assert(dec_rep(a).len() >= 2);
    } else {
        lemma_dec_rep_len(a / 10);
        lemma_dec_rep_len(b / 10);
        let la = dec_rep(a).len() as int;
        assert(dec_rep(a) == dec_rep(a / 10) + seq![digit_char(a % 10)]);
        assert(dec_rep(b) == dec_rep(b / 10) + seq![digit_char(b % 10)]);
        assert(dec_rep(a / 10).len() == la - 1);
        assert(dec_rep(b / 10).len() == la - 1);
        assert(dec_rep(a / 10) =~= dec_rep(a).subrange(0, la - 1));
        assert(dec_rep(b / 10) =~= dec_rep(b).subrange(0, la - 1));
        assert(dec_rep(a)[la - 1] == digit_char(a % 10));
        assert(dec_rep(b)[la - 1] == digit_char(b % 10));
        assert(a % 10 == b % 10);
        lemma_dec_rep_injective(a / 10, b / 10);
        assert(a == 10 * (a / 10) + a % 10) by (nonlinear_arith);
        assert(b == 10 * (b / 10) + b % 10) by (nonlinear_arith);
    }
}

/// The lower-case hexadecimal digit character for a value below sixteen.
pub open spec fn hex_digit(d: nat) -> char {
    if d < 10 { digit_char(d) }
    else if d == 10 { 'a' }
    else if d == 11 { 'b' }
    else if d == 12 { 'c' }
    else if d == 13 { 'd' }
    else if d == 14 { 'e' }
    else { 'f' }
}

/// How one character appears inside a JSON string literal: quote and
/// backslash are escaped, the common control characters get their short
/// escapes, any other control character becomes a `\u00XX` escape, and
/// every remaining character stands for itself.
pub open spec fn escape_char(c: char) -> Seq<char> {
    if c == '"' { seq!['\\', '"'] }
    else if c == '\\' { seq!['\\', '\\'] }
    else if c == '\n' { seq!['\\', 'n'] }
    else if c == '\r' { seq!['\\', 'r'] }
    else if c == '\t' { seq!['\\', 't'] }
    else if (c as u32) < 32 {
        seq!['\\', 'u', '0', '0', hex_digit((c as u32 / 16) as nat), hex_digit((c as u32 % 16) as nat)]
    } else {
        seq![c]
    }
}

/// The body of a JSON string literal: each character escaped in turn.
pub open spec fn escape_string(s: Seq<char>) -> Seq<char>
    decreases s.len(),
{
    if s.len() == 0 {
        Seq::empty()
    } else {
        escape_char(s[0]) + escape_string(s.drop_first())
    }
}

/// A complete JSON string literal for `s`, quotes included.
pub open spec fn json_string(s: Seq<char>) -> Seq<char> {
    seq!['"'] + escape_string(s) + seq!['"']
}

fn hex_to_char(d: u32) -> (c: char)
    requires
        d < 16,
    ensures
        c == hex_digit(d as nat),
{
    if d == 0 { '0' }
    else if d == 1 { '1' }
    else if d == 2 { '2' }
    else if d == 3 { '3' }
    else if d == 4 { '4' }
    else if d == 5 { '5' }
    else if d == 6 { '6' }
    else if d == 7 { '7' }
    else if d == 8 { '8' }
    else if d == 9 { '9' }
    else if d == 10 { 'a' }
    else if d == 11 { 'b' }
    else if d == 12 { 'c' }
    else if d == 13 { 'd' }
    else if d == 14 { 'e' }
    else { 'f' }
}

fn push_escaped_char(out: &mut Vec<char>, c: char)
    ensures
        final(out)@ == old(out)@ + escape_char(c),
{
    if c == '"' {
        out.push('\\');
        out.push('"');
    } else if c == '\\' {
        out.push('\\');
        out.push('\\');
    } else if c == '\n' {
        out.push('\\');
        out.push('n');
    } else if c == '\r' {
        out.push('\\');
        out.push('r');
    } else if c == '\t' {
        out.push('\\');
        out.push('t');
    } else if (c as u32) < 32 {
        out.push('\\');
        out.push('u');
        out.push('0');
        out.push('0');
        out.push(hex_to_char((c as u32) / 16));
        out.push(hex_to_char((c as u32) % 16));
    } else {
        out.push(c);
    }
    assert(final(out)@ =~= old(out)@ + escape_char(c));
}

fn push_escaped_from(out: &mut Vec<char>, s: &str, i: usize)
    requires
        i <= s@.len(),
    ensures
        final(out)@ == old(out)@ + escape_string(s@.subrange(i as int, s@.len() as int)),
    decreases s@.len() - i,
{
    let len = s.unicode_len();
    if i < len {
        push_escaped_char(out, s.get_char(i));
        push_escaped_from(out, s, i + 1);
        proof {
            let rest = s@.subrange(i as int, s@.len() as int);
            assert(rest[0] == s@[i as int]);
            assert(rest.drop_first() =~= s@.subrange(i + 1, s@.len() as int));
            assert(final(out)@ =~= old(out)@ + escape_string(rest));
        }
    } else {
        assert(s@.subrange(i as int, s@.len() as int) =~= Seq::<char>::empty());
    }
}

/// Appends the complete JSON string literal for `s` to `out`.
pub fn push_json_string(out: &mut Vec<char>, s: &str)
    ensures
        final(out)@ == old(out)@ + json_string(s@),
{
    out.push('"');
    push_escaped_from(out, s, 0);
    out.push('"');
    proof {
        assert(s@.subrange(0, s@.len() as int) =~= s@);
        assert(final(out)@ =~= old(out)@ + json_string(s@));
    }
}

/// Appends every character of `s` to `out`, unchanged.
pub fn push_str_chars(out: &mut Vec<char>, s: &str)
    ensures
        final(out)@ == old(out)@ + s@,
{
    let len = s.unicode_len();
    let mut i: usize = 0;
    while i < len
        invariant
            i <= len,
            len == s@.len(),
            out@ == old(out)@ + s@.subrange(0, i as int),
        decreases len - i,
    {
        let c = s.get_char(i);
        out.push(c);
        proof {
            assert(s@.subrange(0, i + 1) =~= s@.subrange(0, i as int).push(s@[i as int]));
        }
        i = i + 1;
    }
    proof {
        assert(s@.subrange(0, s@.len() as int) =~= s@);
    }
}

/// The members of a JSON array of numbers, separated by commas.
pub open spec fn usize_list(s: Seq<usize>) -> Seq<char>
    decreases s.len(),
{
    if s.len() == 0 {
        Seq::empty()
    } else if s.len() == 1 {
        dec_rep(s[0] as nat)
    } else {
        dec_rep(s[0] as nat) + seq![','] + usize_list(s.drop_first())
    }
}

/// A complete JSON array of numbers.
pub open spec fn json_usize_array(s: Seq<usize>) -> Seq<char> {
    seq!['['] + usize_list(s) + seq![']']
}

/// The members of a JSON array of strings, separated by commas.
pub open spec fn string_list(s: Seq<Seq<char>>) -> Seq<char>
    decreases s.len(),
{
    if s.len() == 0 {
        Seq::empty()
    } else if s.len() == 1 {
        json_string(s[0])
    } else {
        json_string(s[0]) + seq![','] + string_list(s.drop_first())
    }
}

/// A complete JSON array of strings.
pub open spec fn json_string_array(s: Seq<Seq<char>>) -> Seq<char> {
    seq!['['] + string_list(s) + seq![']']
}

fn push_usize_items(out: &mut Vec<char>, v: &Vec<usize>, i: usize)
    requires
        i <= v@.len(),
    ensures
        final(out)@ == old(out)@ + usize_list(v@.subrange(i as int, v@.len() as int)),
    decreases v@.len() - i,
{
    if i < v.len() {
        push_dec(out, v[i]);
        if i + 1 < v.len() {
            out.push(',');
        }
        push_usize_items(out, v, i + 1);
        proof {
            let rest = v@.subrange(i as int, v@.len() as int);
            assert(rest[0] == v@[i as int]);
            assert(rest.drop_first() =~= v@.subrange(i + 1, v@.len() as int));
            assert(final(out)@ =~= old(out)@ + usize_list(rest));
        }
    } else {
        assert(v@.subrange(i as int, v@.len() as int) =~= Seq::<usize>::empty());
    }
}

/// Appends the complete JSON array of the numbers in `v` to `out`.
pub fn push_usize_array(out: &mut Vec<char>, v: &Vec<usize>)
    ensures
        final(out)@ == old(out)@ + json_usize_array(v@),
{
    out.push('[');
    push_usize_items(out, v, 0);
    out.push(']');
    proof {
        assert(v@.subrange(0, v@.len() as int) =~= v@);
        assert(final(out)@ =~= old(out)@ + json_usize_array(v@));
    }
}

fn push_string_items(out: &mut Vec<char>, v: &Vec<String>, i: usize)
    requires
        i <= v@.len(),
    ensures
        final(out)@ == old(out)@ + string_list(
            v.deep_view().subrange(i as int, v.deep_view().len() as int),
        ),
    decreases v@.len() - i,
{
    if i < v.len() {
        push_json_string(out, v[i].as_str());
        if i + 1 < v.len() {
            out.push(',');
        }
        push_string_items(out, v, i + 1);
        proof {
            let dv = v.deep_view();
            let rest = dv.subrange(i as int, dv.len() as int);
            assert(rest[0] == dv[i as int]);
            assert(dv[i as int] == v@[i as int]@);
            assert(rest.drop_first() =~= dv.subrange(i + 1, dv.len() as int));
            assert(final(out)@ =~= old(out)@ + string_list(rest));
        }
    } else {
        proof {
            let dv = v.deep_view();
            assert(dv.subrange(i as int, dv.len() as int) =~= Seq::<Seq<char>>::empty());
        }
    }
}

/// Appends the complete JSON array of the strings in `v` to `out`.
pub fn push_string_array(out: &mut Vec<char>, v: &Vec<String>)
    ensures
        final(out)@ == old(out)@ + json_string_array(v.deep_view()),
{
    out.push('[');
    push_string_items(out, v, 0);
    out.push(']');
    proof {
        let dv = v.deep_view();
        assert(dv.subrange(0, dv.len() as int) =~= dv);
        assert(final(out)@ =~= old(out)@ + json_string_array(dv));
    }
}

/// Relies on std's `FromIterator` impl for `String`: collecting an
/// iterator of characters yields a string of exactly those characters.
#[verifier::external_body]
pub fn chars_to_string(v: &Vec<char>) -> (r: String)
    ensures
        r@ == v@,
{
    v.iter().collect()
}

/// Appends the decimal rendering of `n` to `out`.
pub fn push_dec(out: &mut Vec<char>, n: usize)
    ensures
        final(out)@ == old(out)@ + dec_rep(n as nat),
    decreases n,
{
    if n < 10 {
        out.push(digit_to_char(n));
        assert(final(out)@ =~= old(out)@ + dec_rep(n as nat));
    } else {
        push_dec(out, n / 10);
        out.push(digit_to_char(n % 10));
        assert(final(out)@ =~= old(out)@ + dec_rep(n as nat));
    }
}

} // verus!
