//! Pieces of emitted source text: literals of strings, characters and
//! integers, and lists of them.
use vstd::prelude::*;

verus! {

/// How a character stands inside a quoted string literal: backslash, double
/// quote, newline, carriage return and tab are escaped, every other character
/// stands as it is.
pub open spec fn string_char_src(c: char) -> Seq<char> {
    if c == '\\' {
        seq!['\\', '\\']
    } else if c == '"' {
        seq!['\\', '"']
    } else if c == '\n' {
        seq!['\\', 'n']
    } else if c == '\r' {
        seq!['\\', 'r']
    } else if c == '\t' {
        seq!['\\', 't']
    } else {
        seq![c]
    }
}

/// The characters of `s`, each as it stands inside a quoted string literal.
pub open spec fn string_body_src(s: Seq<char>) -> Seq<char>
    decreases s.len(),
{
    if s.len() == 0 {
        Seq::empty()
    } else {
        string_char_src(s[0]) + string_body_src(s.drop_first())
    }
}

/// The quoted string literal that denotes `s`.
pub open spec fn string_literal_of(s: Seq<char>) -> Seq<char> {
    seq!['"'] + string_body_src(s) + seq!['"']
}

/// The quoted character literal that denotes `c`: backslash, single quote,
/// newline, carriage return and tab are escaped.
pub open spec fn char_literal_of(c: char) -> Seq<char> {
    let body = if c == '\'' {
        seq!['\\', '\'']
    } else if c == '"' {
        seq!['"']
    } else {
        string_char_src(c)
    };
    seq!['\''] + body + seq!['\'']
}

/// The escaped form of a concatenation is the concatenation of the escaped forms.
pub proof fn lemma_string_body_append(a: Seq<char>, b: Seq<char>)
    ensures
        string_body_src(a + b) == string_body_src(a) + string_body_src(b),
    decreases a.len(),
{
    if a.len() == 0 {
        assert(a + b =~= b);
        assert(Seq::<char>::empty() + string_body_src(b) =~= string_body_src(b));
    } else {
        assert((a + b).drop_first() =~= a.drop_first() + b);
        lemma_string_body_append(a.drop_first(), b);
        assert(string_char_src(a[0]) + (string_body_src(a.drop_first()) + string_body_src(b))
            =~= string_char_src(a[0]) + string_body_src(a.drop_first()) + string_body_src(b));
    }
}

fn push_string_char(out: &mut String, c: char)
    ensures
        final(out)@ == old(out)@ + string_char_src(c),
{
    if c == '\\' {
        out.append("\\\\");
    } else if c == '"' {
        out.append("\\\"");
    } else if c == '\n' {
        out.append("\\n");
    } else if c == '\r' {
        out.append("\\r");
    } else if c == '\t' {
        out.append("\\t");
    } else {
        push_char(out, c);
        assert(old(out)@.push(c) =~= old(out)@ + seq![c]);
        return;
    }
    proof {
        reveal_strlit("\\\\");
        reveal_strlit("\\\"");
        reveal_strlit("\\n");
        reveal_strlit("\\r");
        reveal_strlit("\\t");
    }
    assert(final(out)@ =~= old(out)@ + string_char_src(c));
}

/// The quoted string literal that denotes `s`.
pub fn string_literal(s: &str) -> (r: String)
    ensures
        r@ == string_literal_of(s@),
{
    let mut out = String::new();
    push_char(&mut out, '"');
    let n = s.unicode_len();
    let mut i: usize = 0;
    while i < n
        invariant
            i <= n == s@.len(),
            out@ == seq!['"'] + string_body_src(s@.subrange(0, i as int)),
        decreases n - i,
    {
        let c = s.get_char(i);
        let ghost before = out@;
        push_string_char(&mut out, c);
        proof {
            assert(s@.subrange(0, i + 1) =~= s@.subrange(0, i as int) + seq![c]);
            lemma_string_body_append(s@.subrange(0, i as int), seq![c]);
            assert(string_body_src(seq![c]) =~= string_char_src(c)) by {
                assert(seq![c].drop_first() =~= Seq::<char>::empty());
                assert(string_body_src(Seq::<char>::empty()) == Seq::<char>::empty());
                assert(string_char_src(c) + Seq::<char>::empty() =~= string_char_src(c));
            }
        }
        i = i + 1;
    }
    push_char(&mut out, '"');
    assert(s@.subrange(0, n as int) =~= s@);
    assert(out@ =~= string_literal_of(s@));
    out
}

/// The quoted character literal that denotes `c`.
pub fn char_literal(c: char) -> (r: String)
    ensures
        r@ == char_literal_of(c),
{
    let mut out = String::new();
    push_char(&mut out, '\'');
    if c == '\'' {
        push_char(&mut out, '\\');
        push_char(&mut out, '\'');
    } else if c == '"' {
        push_char(&mut out, '"');
    } else {
        push_string_char(&mut out, c);
    }
    push_char(&mut out, '\'');
    assert(out@ =~= char_literal_of(c));
    out
}

/// Relies on `String::push`: appends the one character `c`.
#[verifier::external_body]
pub fn push_char(s: &mut String, c: char)
    ensures
        final(s)@ == old(s)@.push(c),
{
    s.push(c);
}

/// The decimal digit for `d`, which is below ten.
pub open spec fn digit_char(d: nat) -> char {
    if d == 0 { '0' }
    else if d == 1 { '1' }
    else if d == 2 { '2' }
    else if d == 3 { '3' }
    else if d == 4 { '4' }
    else if d == 5 { '5' }
    else if d == 6 { '6' }
    else if d == 7 { '7' }
    else if d == 8 { '8' }
    else { '9' }
}

/// The decimal digits of `n`, most significant first, with no leading zero.
pub open spec fn decimal(n: nat) -> Seq<char>
    decreases n,
{
    if n < 10 {
        seq![digit_char(n)]
    } else {
        decimal(n / 10).push(digit_char(n % 10))
    }
}

/// The decimal text of the integer `i`, with a leading `-` when negative.
pub open spec fn signed_decimal(i: int) -> Seq<char> {
    if i < 0 {
        seq!['-'] + decimal((-i) as nat)
    } else {
        decimal(i as nat)
    }
}

fn digit(d: u64) -> (c: char)
    requires
        d < 10,
    ensures
        c == digit_char(d as nat),
{
    if d == 0 { '0' }
    else if d == 1 { '1' }
    else if d == 2 { '2' }
    else if d == 3 { '3' }
    else if d == 4 { '4' }
    else if d == 5 { '5' }
    else if d == 6 { '6' }
    else if d == 7 { '7' }
    else if d == 8 { '8' }
    else { '9' }
}

/// Appends the decimal digits of `n`.
pub fn push_decimal(out: &mut String, n: u64)
    ensures
        final(out)@ == old(out)@ + decimal(n as nat),
    decreases n,
{
    if n < 10 {
        push_char(out, digit(n));
        assert(decimal(n as nat) == seq![digit_char(n as nat)]);
        assert(old(out)@.push(digit_char(n as nat)) =~= old(out)@ + seq![digit_char(n as nat)]);
    } else {
        push_decimal(out, n / 10);
        push_char(out, digit(n % 10));
        assert(old(out)@ + decimal(n as nat) =~= (old(out)@ + decimal((n / 10) as nat)).push(
            digit_char((n % 10) as nat),
        ));
    }
}

/// Appends the decimal text of `i`, with a leading `-` when negative.
pub fn push_signed_decimal(out: &mut String, i: i64)
    ensures
        final(out)@ == old(out)@ + signed_decimal(i as int),
{
    if i < 0 {
        push_char(out, '-');
        let magnitude: u64 = (0i128 - i as i128) as u64;
        push_decimal(out, magnitude);
        assert(old(out)@ + signed_decimal(i as int) =~= old(out)@.push('-') + decimal(
            magnitude as nat,
        ));
    } else {
        push_decimal(out, i as u64);
    }
}

/// `acc` followed by `item`, with `", "` between them when `acc` already holds
/// `count` > 0 items.
pub open spec fn joined(acc: Seq<char>, count: int, item: Seq<char>) -> Seq<char> {
    if count == 0 {
        item
    } else {
        acc + ", "@ + item
    }
}


/// Appends `, ` when `count` items are already written.
pub(crate) fn push_separator(out: &mut String, count: usize)
    ensures
        count == 0 ==> final(out)@ == old(out)@,
        count != 0 ==> final(out)@ == old(out)@ + ", "@,
{
    if count != 0 {
        out.append(", ");
    }
}

pub(crate) proof fn lemma_joined_step(before: Seq<char>, acc: Seq<char>, count: int, item: Seq<char>)
    requires
        count >= 0,
    ensures
        before + joined(acc, count, item) == (if count == 0 {
            before
        } else {
            before + acc + ", "@
        }) + item,
{
    if count == 0 {
    } else {
        assert(before + (acc + ", "@ + item) =~= before + acc + ", "@ + item);
    }
}


/// The bytes as `u8` literals, separated by `", "`.
pub open spec fn bytes_src(b: Seq<u8>) -> Seq<char>
    decreases b.len(),
{
    if b.len() == 0 {
        Seq::empty()
    } else {
        joined(bytes_src(b.drop_last()), b.len() - 1, decimal(b.last() as nat) + "u8"@)
    }
}


pub(crate) fn push_bytes(out: &mut String, bytes: &Vec<u8>)
    ensures
        final(out)@ == old(out)@ + bytes_src(bytes@),
{
    let ghost start = out@;
    let mut i: usize = 0;
    while i < bytes.len()
        invariant
            i <= bytes@.len(),
            out@ == start + bytes_src(bytes@.subrange(0, i as int)),
        decreases bytes@.len() - i,
    {
        let ghost prefix = bytes@.subrange(0, i as int);
        assert(bytes@.subrange(0, i + 1).drop_last() =~= prefix);
        push_separator(out, i);
        let ghost mid = out@;
        push_decimal(out, bytes[i] as u64);
        out.append("u8");
        let ghost item = decimal(bytes@[i as int] as nat) + "u8"@;
        assert(out@ =~= mid + item);
        proof {
            lemma_joined_step(start, bytes_src(prefix), i as int, item);
        }
        i = i + 1;
    }
    assert(bytes@.subrange(0, bytes@.len() as int) =~= bytes@);
}


} // verus!
