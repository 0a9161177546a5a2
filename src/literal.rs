//! Decoding of the captured literal token into the text it denotes.
use vstd::prelude::*;
use crate::error::SignatureError;
use crate::text::push_char;

verus! {

/// The character that the escape `\c` stands for, for the five recognised escapes.
pub open spec fn escape_target(c: char) -> Option<char> {
    if c == '\\' {
        Some('\\')
    } else if c == '"' {
        Some('"')
    } else if c == 'n' {
        Some('\n')
    } else if c == 'r' {
        Some('\r')
    } else if c == 't' {
        Some('\t')
    } else {
        None
    }
}

/// Puts `p` in front of a decoded text; an error stays as it is.
pub open spec fn prefixed(p: Seq<char>, r: Result<Seq<char>, SignatureError>) -> Result<
    Seq<char>,
    SignatureError,
> {
    match r {
        Ok(t) => Ok(p + t),
        Err(e) => Err(e),
    }
}

/// The body of a quoted literal with its escapes replaced, or the first bad
/// escape, read from the left.
pub open spec fn unescaped(s: Seq<char>) -> Result<Seq<char>, SignatureError>
    decreases s.len(),
{
    if s.len() == 0 {
        Ok(Seq::empty())
    } else if s[0] != '\\' {
        prefixed(seq![s[0]], unescaped(s.drop_first()))
    } else if s.len() == 1 {
        Err(SignatureError::MalformedLiteral)
    } else {
        match escape_target(s[1]) {
            Some(c) => prefixed(seq![c], unescaped(s.subrange(2, s.len() as int))),
            None => Err(SignatureError::EscapeDecode(s[1])),
        }
    }
}

/// A run of `n` fence characters `#`.
pub open spec fn hashes(n: nat) -> Seq<char> {
    Seq::new(n, |i: int| '#')
}

/// How many `#` stand at the start of `s`.
pub open spec fn leading_hashes(s: Seq<char>) -> nat
    decreases s.len(),
{
    if s.len() > 0 && s[0] == '#' {
        1 + leading_hashes(s.drop_first())
    } else {
        0
    }
}

/// The content of a raw literal `r#…#"content"#…#`: the fence is the run of
/// `#` after the `r`, and the same run must close the literal after its last quote.
pub open spec fn decoded_raw(item: Seq<char>) -> Result<Seq<char>, SignatureError> {
    let n = leading_hashes(item.drop_first()) as int;
    let len = item.len() as int;
    if len >= 2 * n + 3 && item[n + 1] == '"' && item[len - n - 1] == '"' && item.subrange(
        len - n,
        len,
    ) == hashes(n as nat) {
        Ok(item.subrange(n + 2, len - n - 1))
    } else {
        Err(SignatureError::MalformedLiteral)
    }
}

/// What a captured literal token denotes: a raw literal when it starts with `r`,
/// otherwise a quoted literal with escapes.
pub open spec fn decoded(item: Seq<char>) -> Result<Seq<char>, SignatureError> {
    if item.len() > 0 && item[0] == 'r' {
        decoded_raw(item)
    } else if item.len() >= 2 && item[0] == '"' && item.last() == '"' {
        unescaped(item.subrange(1, item.len() - 1))
    } else {
        Err(SignatureError::MalformedLiteral)
    }
}

proof fn lemma_prefixed_push(p: Seq<char>, c: char, r: Result<Seq<char>, SignatureError>)
    ensures
        prefixed(p, prefixed(seq![c], r)) == prefixed(p.push(c), r),
{
    if let Ok(t) = r {
        assert(p + (seq![c] + t) =~= p.push(c) + t);
    }
}

fn escape_char(c: char) -> (r: Option<char>)
    ensures
        r == escape_target(c),
{
    if c == '\\' {
        Some('\\')
    } else if c == '"' {
        Some('"')
    } else if c == 'n' {
        Some('\n')
    } else if c == 'r' {
        Some('\r')
    } else if c == 't' {
        Some('\t')
    } else {
        None
    }
}

/// Decodes the body `item[from..to]` of a quoted literal.
fn unescape(item: &str, from: usize, to: usize) -> (r: Result<String, SignatureError>)
    requires
        from <= to <= item@.len(),
    ensures
        match (r, unescaped(item@.subrange(from as int, to as int))) {
            (Ok(s), Ok(t)) => s@ == t,
            (Err(e), Err(f)) => e == f,
            _ => false,
        },
{
    let ghost body = item@.subrange(from as int, to as int);
    let mut out = String::new();
    let mut i = from;
    while i < to
        invariant
            from <= i <= to <= item@.len(),
            body == item@.subrange(from as int, to as int),
            unescaped(body) == prefixed(out@, unescaped(item@.subrange(i as int, to as int))),
        decreases to - i,
    {
        let ghost rest = item@.subrange(i as int, to as int);
        let c = item.get_char(i);
        if c != '\\' {
            assert(rest.drop_first() =~= item@.subrange(i + 1, to as int));
            proof {
                lemma_prefixed_push(out@, c, unescaped(rest.drop_first()));
            }
            push_char(&mut out, c);
            i = i + 1;
        } else if i + 1 == to {
            return Err(SignatureError::MalformedLiteral);
        } else {
            let e = item.get_char(i + 1);
            match escape_char(e) {
                Some(d) => {
                    assert(rest.subrange(2, rest.len() as int) =~= item@.subrange(
                        i + 2,
                        to as int,
                    ));
                    proof {
                        lemma_prefixed_push(
                            out@,
                            d,
                            unescaped(rest.subrange(2, rest.len() as int)),
                        );
                    }
                    push_char(&mut out, d);
                    i = i + 2;
                },
                None => {
                    return Err(SignatureError::EscapeDecode(e));
                },
            }
        }
    }
    assert(item@.subrange(i as int, to as int) =~= Seq::<char>::empty());
    assert(out@ + Seq::<char>::empty() =~= out@);
    Ok(out)
}

/// Decodes a raw literal `r#…#"content"#…#`.
fn decode_raw(item: &str) -> (r: Result<String, SignatureError>)
    requires
        item@.len() > 0,
        item@[0] == 'r',
    ensures
        match (r, decoded_raw(item@)) {
            (Ok(s), Ok(t)) => s@ == t,
            (Err(e), Err(f)) => e == f,
            _ => false,
        },
{
    let len = item.unicode_len();
    let ghost s = item@;
    let mut j: usize = 1;
    while j < len && item.get_char(j) == '#'
        invariant
            1 <= j <= len,
            len == s.len(),
            s == item@,
            leading_hashes(s.drop_first()) == (j - 1) + leading_hashes(
                s.subrange(j as int, len as int),
            ),
        decreases len - j,
    {
        assert(s.subrange(j as int, len as int).drop_first() =~= s.subrange(
            j + 1,
            len as int,
        ));
        j = j + 1;
    }
    let n = j - 1;
    assert(leading_hashes(s.subrange(j as int, len as int)) == 0);
    assert(leading_hashes(s.drop_first()) == n);
    if len < 3 || (len - 3) / 2 < n {
        return Err(SignatureError::MalformedLiteral);
    }
    if item.get_char(n + 1) != '"' || item.get_char(len - n - 1) != '"' {
        return Err(SignatureError::MalformedLiteral);
    }
    let mut k: usize = 0;
    while k < n
        invariant
            k <= n,
            2 * n + 3 <= len,
            len == s.len(),
            s == item@,
            leading_hashes(s.drop_first()) == n,
            s[n + 1] == '"',
            s[len - n - 1] == '"',
            forall|m: int| len - n <= m < len - n + k ==> #[trigger] s[m] == '#',
        decreases n - k,
    {
        if item.get_char(len - n + k) != '#' {
            assert(s.subrange(len - n, len as int)[k as int] != hashes(n as nat)[k as int]);
            return Err(SignatureError::MalformedLiteral);
        }
        k = k + 1;
    }
    assert(s.subrange(len - n, len as int) =~= hashes(n as nat));
    let content = item.substring_char(n + 2, len - n - 1);
    Ok(String::from_str(content))
}

/// Decodes the captured literal token `item`, delimiters and prefix included,
/// into the text it denotes.
///
/// A raw literal `r"…"`, `r#"…"#`, … gives its content as it stands; the
/// number of `#` must be the same on both sides. A quoted literal `"…"` gives
/// its content with the escapes `\\`, `\"`, `\n`, `\r` and `\t` replaced; any
/// other escape fails with `EscapeDecode` of the character after the backslash.
pub fn literal_to_string(item: &str) -> (r: Result<String, SignatureError>)
    ensures
        match (r, decoded(item@)) {
            (Ok(s), Ok(t)) => s@ == t,
            (Err(e), Err(f)) => e == f,
            _ => false,
        },
{
    let len = item.unicode_len();
    if len > 0 && item.get_char(0) == 'r' {
        decode_raw(item)
    } else if len >= 2 && item.get_char(0) == '"' && item.get_char(len - 1) == '"' {
        unescape(item, 1, len - 1)
    } else {
        Err(SignatureError::MalformedLiteral)
    }
}

} // verus!
