//! Verified text helpers for the protocol layer: whitespace tokenizing,
//! decimal formatting and parsing, and hexadecimal formatting.

use vstd::prelude::*;

verus! {

/// ASCII whitespace, the token separators of the protocol.
pub open spec fn is_ws_char(c: char) -> bool {
    c == ' ' || c == '\t' || c == '\n' || c == '\r' || c as int == 11 || c as int == 12
}

/// Left fold of the tokenizer over a line: the tokens completed so far and
/// the partial token in progress.
pub open spec fn tok_state(s: Seq<char>) -> (Seq<Seq<char>>, Seq<char>)
    decreases s.len(),
{
    if s.len() == 0 {
        (Seq::empty(), Seq::empty())
    } else {
        let prev = tok_state(s.drop_last());
        let c = s.last();
        if is_ws_char(c) {
            (if prev.1.len() > 0 {
                prev.0.push(prev.1)
            } else {
                prev.0
            }, Seq::<char>::empty())
        } else {
            (prev.0, prev.1.push(c))
        }
    }
}

/// The whitespace-separated tokens of a line, in order; separators are
/// runs of ASCII whitespace and never part of a token.
pub open spec fn tokens_of(s: Seq<char>) -> Seq<Seq<char>> {
    let st = tok_state(s);
    if st.1.len() > 0 {
        st.0.push(st.1)
    } else {
        st.0
    }
}

/// Relies on `String::push`: appends exactly one character.
#[verifier::external_body]
pub fn push_char(s: &mut String, c: char)
    ensures
        final(s)@ == old(s)@ + seq![c],
{
    s.push(c);
}

/// Whether a token equals a keyword, by characters.
pub fn streq(a: &String, b: &str) -> (r: bool)
    ensures
        r == (a@ == b@),
{
    let bs = String::from_str(b);
    *a == bs
}

/// Split a line into its whitespace-separated tokens.
pub fn tokenize(line: &str) -> (r: Vec<String>)
    ensures
        r.deep_view() == tokens_of(line@),
{
    let n = line.unicode_len();
    let mut ts: Vec<String> = Vec::new();
    let mut cur: String = String::new();
    let mut i: usize = 0;
    while i < n
        invariant
            n == line@.len(),
            i <= n,
            ts.deep_view() == tok_state(line@.take(i as int)).0,
            cur@ == tok_state(line@.take(i as int)).1,
        decreases n - i,
    {
        let c = line.get_char(i);
        proof {
            assert(line@.take(i + 1).drop_last() =~= line@.take(i as int));
            assert(line@.take(i + 1).last() == line@[i as int]);
        }
        if is_ws_char_exec(c) {
            if cur.as_str().unicode_len() > 0 {
                let done = cur;
                cur = String::new();
                ts.push(done);
                proof {
                    assert(ts.deep_view() =~= tok_state(line@.take(i + 1)).0);
                }
            } else {
                proof {
                    assert(cur@.len() == 0);
                    assert(ts.deep_view() =~= tok_state(line@.take(i + 1)).0);
                }
            }
        } else {
            push_char(&mut cur, c);
        }
        i = i + 1;
    }
    proof {
        assert(line@.take(n as int) =~= line@);
    }
    if cur.as_str().unicode_len() > 0 {
        ts.push(cur);
        proof {
            assert(ts.deep_view() =~= tokens_of(line@));
        }
    }
    ts
}

/// Whether `c` separates tokens.
pub fn is_ws_char_exec(c: char) -> (r: bool)
    ensures
        r == is_ws_char(c),
{
    let v = c as u32;
    v == 32 || v == 9 || v == 10 || v == 13 || v == 11 || v == 12
}

/// The decimal digit character of `d`.
pub open spec fn dec_digit(d: int) -> char {
    (48 + d) as char
}

/// The decimal rendering of `n`, most significant digit first, no sign and
/// no leading zeros (a lone zero for 0).
pub open spec fn dec_digits(n: nat) -> Seq<char>
    decreases n,
{
    if n < 10 {
        seq![dec_digit(n as int)]
    } else {
        dec_digits(n / 10) + seq![dec_digit((n % 10) as int)]
    }
}

/// Render `n` in decimal.
pub fn u64_to_string(n: u64) -> (s: String)
    ensures
        s@ == dec_digits(n as nat),
    decreases n,
{
    if n < 10 {
        let mut s = String::new();
        push_char(&mut s, ((48 + n) as u8) as char);
        s
    } else {
        let mut s = u64_to_string(n / 10);
        push_char(&mut s, ((48 + (n % 10)) as u8) as char);
        s
    }
}

/// The decimal rendering of a signed value: a minus sign for negatives,
/// then the digits of the magnitude.
pub open spec fn dec_digits_signed(n: int) -> Seq<char> {
    if n < 0 {
        seq!['-'] + dec_digits((-n) as nat)
    } else {
        dec_digits(n as nat)
    }
}

/// Render a signed value in decimal.
pub fn i64_to_string(n: i64) -> (s: String)
    ensures
        s@ == dec_digits_signed(n as int),
{
    if n < 0 {
        let mut s = String::new();
        push_char(&mut s, '-');
        let mag: u64 = if n == i64::MIN {
            9223372036854775808u64
        } else {
            (-n) as u64
        };
        let digits = u64_to_string(mag);
        let r = s.concat(digits.as_str());
        r
    } else {
        u64_to_string(n as u64)
    }
}

/// The numeric value of a decimal digit character, or 10 for any other
/// character.
pub open spec fn digit_val(c: char) -> int {
    if 48 <= c as int <= 57 {
        c as int - 48
    } else {
        10
    }
}

/// Whether `s` is one or more decimal digits and nothing else.
pub open spec fn is_digits(s: Seq<char>) -> bool {
    s.len() > 0 && forall|i: int| 0 <= i < s.len() ==> digit_val(#[trigger] s[i]) < 10
}

/// The value of a digit string, most significant digit first.
pub open spec fn dec_value(s: Seq<char>) -> nat
    decreases s.len(),
{
    if s.len() == 0 {
        0
    } else {
        dec_value(s.drop_last()) * 10 + (if digit_val(s.last()) < 10 {
            digit_val(s.last()) as nat
        } else {
            0
        })
    }
}

/// A longer digit prefix never has a smaller value.
proof fn lemma_dec_value_monotone(s: Seq<char>, i: int, j: int)
    requires
        0 <= i <= j <= s.len(),
    ensures
        dec_value(s.take(i)) <= dec_value(s.take(j)),
    decreases j - i,
{
    if i < j {
        lemma_dec_value_monotone(s, i, j - 1);
        assert(s.take(j).drop_last() =~= s.take(j - 1));
        assert(dec_value(s.take(j)) >= dec_value(s.take(j - 1)) * 10);
    }
}

/// Parse an unsigned decimal number as `str::parse::<u64>` does: the token
/// must be all digits and the value must fit, else `None`.
pub fn parse_u64(tok: &String) -> (r: Option<u64>)
    ensures
        r is Some <==> is_digits(tok@) && dec_value(tok@) <= u64::MAX,
        r is Some ==> r->0 == dec_value(tok@),
{
    let n = tok.as_str().unicode_len();
    if n == 0 {
        return None;
    }
    let mut acc: u64 = 0;
    let mut i: usize = 0;
    while i < n
        invariant
            n == tok@.len(),
            0 < n,
            i <= n,
            forall|k: int| 0 <= k < i ==> digit_val(#[trigger] tok@[k]) < 10,
            acc == dec_value(tok@.take(i as int)),
        decreases n - i,
    {
        let c = tok.as_str().get_char(i);
        let v = c as u32;
        proof {
            assert(tok@.take(i + 1).drop_last() =~= tok@.take(i as int));
            assert(tok@.take(i + 1).last() == tok@[i as int]);
        }
        if v < 48 || v > 57 {
            return None;
        }
        let d = (v - 48) as u64;
        if acc > (u64::MAX - d) / 10 {
            proof {
                lemma_dec_value_monotone(tok@, i + 1, tok@.len() as int);
                assert(tok@.take(tok@.len() as int) =~= tok@);
            }
            return None;
        }
        acc = acc * 10 + d;
        i = i + 1;
    }
    proof {
        assert(tok@.take(n as int) =~= tok@);
    }
    Some(acc)
}

/// Parse a signed decimal number as `str::parse::<i64>` does: an optional
/// sign, then digits; the value must fit in an `i64`.
pub open spec fn signed_parse_ok(s: Seq<char>) -> bool {
    if s.len() > 0 && (s[0] == '-' || s[0] == '+') {
        is_digits(s.drop_first()) && (if s[0] == '-' {
            dec_value(s.drop_first()) <= 0x8000_0000_0000_0000
        } else {
            dec_value(s.drop_first()) <= i64::MAX
        })
    } else {
        is_digits(s) && dec_value(s) <= i64::MAX
    }
}

/// The value such a token denotes.
pub open spec fn signed_value(s: Seq<char>) -> int {
    if s.len() > 0 && s[0] == '-' {
        -(dec_value(s.drop_first()) as int)
    } else if s.len() > 0 && s[0] == '+' {
        dec_value(s.drop_first()) as int
    } else {
        dec_value(s) as int
    }
}

/// Parse a signed decimal number.
pub fn parse_i64(tok: &String) -> (r: Option<i64>)
    ensures
        r is Some <==> signed_parse_ok(tok@),
        r is Some ==> r->0 == signed_value(tok@),
{
    let n = tok.as_str().unicode_len();
    if n == 0 {
        return None;
    }
    let c0 = tok.as_str().get_char(0);
    if c0 == '-' || c0 == '+' {
        let rest = tok.as_str().substring_char(1, n);
        let rest_s = String::from_str(rest);
        proof {
            assert(rest@ =~= tok@.drop_first());
        }
        match parse_u64(&rest_s) {
            None => None,
            Some(mag) => {
                if c0 == '-' {
                    if mag > 0x8000_0000_0000_0000u64 {
                        None
                    } else if mag == 0x8000_0000_0000_0000u64 {
                        Some(i64::MIN)
                    } else {
                        Some(-(mag as i64))
                    }
                } else {
                    if mag > i64::MAX as u64 {
                        None
                    } else {
                        Some(mag as i64)
                    }
                }
            },
        }
    } else {
        match parse_u64(tok) {
            None => None,
            Some(mag) => {
                if mag > i64::MAX as u64 {
                    None
                } else {
                    Some(mag as i64)
                }
            },
        }
    }
}

/// The hexadecimal digit character of `d` (lowercase letters).
pub open spec fn hex_digit(d: int) -> char {
    if d < 10 {
        (48 + d) as char
    } else {
        (87 + d) as char
    }
}

/// The 16-character, zero-padded hexadecimal rendering of `x`.
pub open spec fn hex16(x: u64) -> Seq<char> {
    Seq::new(16, |i: int| hex_digit(((x >> (((15 - i) * 4) as u64)) & 0xf) as int))
}

/// Render `x` as 16 hexadecimal digits, zero-padded.
pub fn u64_to_hex16(x: u64) -> (s: String)
    ensures
        s@ == hex16(x),
{
    let mut s = String::new();
    let mut i: usize = 0;
    while i < 16
        invariant
            i <= 16,
            s@ =~= hex16(x).take(i as int),
        decreases 16 - i,
    {
        let shift: u64 = ((15 - i) * 4) as u64;
        proof {
            assert((x >> shift) & 0xfu64 < 16) by (bit_vector);
        }
        let d = ((x >> shift) & 0xf) as u8;
        let c: char = if d < 10 {
            ((48 + d) as u8) as char
        } else {
            ((87 + d) as u8) as char
        };
        push_char(&mut s, c);
        proof {
            assert(s@ =~= hex16(x).take(i + 1));
        }
        i = i + 1;
    }
    proof {
        assert(hex16(x).take(16) =~= hex16(x));
    }
    s
}

/// Render `x` as hexadecimal with no leading zeros (a lone zero for 0),
/// matching the `{:x}` format.
pub open spec fn hex_digits(n: nat) -> Seq<char>
    decreases n,
{
    if n < 16 {
        seq![hex_digit(n as int)]
    } else {
        hex_digits(n / 16) + seq![hex_digit((n % 16) as int)]
    }
}

/// Render `x` in minimal hexadecimal.
pub fn u64_to_hex(x: u64) -> (s: String)
    ensures
        s@ == hex_digits(x as nat),
    decreases x,
{
    if x < 16 {
        let d = x as u8;
        let c: char = if d < 10 {
            ((48 + d) as u8) as char
        } else {
            ((87 + d) as u8) as char
        };
        let mut s = String::new();
        push_char(&mut s, c);
        s
    } else {
        let mut s = u64_to_hex(x / 16);
        let d = (x % 16) as u8;
        let c: char = if d < 10 {
            ((48 + d) as u8) as char
        } else {
            ((87 + d) as u8) as char
        };
        push_char(&mut s, c);
        s
    }
}

} // verus!
