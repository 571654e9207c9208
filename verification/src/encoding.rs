//! Standard base64 (RFC 4648, with `=` padding), as the pane's `data:` URLs
//! carry their pages.
use vstd::prelude::*;

verus! {

/// The base64 digit for a six-bit value: `A`–`Z`, `a`–`z`, `0`–`9`, `+`, `/`.
pub open spec fn base64_digit(v: int) -> char {
    if v < 26 {
        (v + 65) as char
    } else if v < 52 {
        (v + 71) as char
    } else if v < 62 {
        (v - 4) as char
    } else if v == 62 {
        '+'
    } else {
        '/'
    }
}

/// The six-bit value of a base64 digit, or -1 for any other character.
pub open spec fn base64_value(c: char) -> int {
    let n = c as int;
    if 65 <= n <= 90 {
        n - 65
    } else if 97 <= n <= 122 {
        n - 71
    } else if 48 <= n <= 57 {
        n + 4
    } else if c == '+' {
        62
    } else if c == '/' {
        63
    } else {
        -1
    }
}

/// Whether `c` may stand in base64 text: a digit or the padding `=`.
pub open spec fn is_base64_symbol(c: char) -> bool {
    base64_value(c) >= 0 || c == '='
}

/// The standard base64 text of `b`: each group of three bytes becomes four
/// digits, and a last group of one or two bytes is padded with `=`.
pub open spec fn base64_encode(b: Seq<u8>) -> Seq<char>
    decreases b.len(),
{
    if b.len() == 0 {
        seq![]
    } else {
        let x0 = b[0] as int;
        if b.len() == 1 {
            seq![base64_digit(x0 / 4), base64_digit((x0 % 4) * 16), '=', '=']
        } else {
            let x1 = b[1] as int;
            if b.len() == 2 {
                seq![
                    base64_digit(x0 / 4),
                    base64_digit((x0 % 4) * 16 + x1 / 16),
                    base64_digit((x1 % 16) * 4),
                    '=',
                ]
            } else {
                let x2 = b[2] as int;
                seq![
                    base64_digit(x0 / 4),
                    base64_digit((x0 % 4) * 16 + x1 / 16),
                    base64_digit((x1 % 16) * 4 + x2 / 64),
                    base64_digit(x2 % 64),
                ] + base64_encode(b.skip(3))
            }
        }
    }
}

/// The bytes that base64 text `t` stands for, four characters at a time.
pub open spec fn base64_decode(t: Seq<char>) -> Seq<u8>
    decreases t.len(),
{
    if t.len() < 4 {
        seq![]
    } else {
        let v0 = base64_value(t[0]);
        let v1 = base64_value(t[1]);
        let v2 = base64_value(t[2]);
        let v3 = base64_value(t[3]);
        let b0 = (v0 * 4 + v1 / 16) as u8;
        let b1 = ((v1 % 16) * 16 + v2 / 4) as u8;
        let b2 = ((v2 % 4) * 64 + v3) as u8;
        if t[2] == '=' {
            seq![b0]
        } else if t[3] == '=' {
            seq![b0, b1]
        } else {
            seq![b0, b1, b2] + base64_decode(t.skip(4))
        }
    }
}

proof fn lemma_digit_value(v: int)
    requires
        0 <= v < 64,
    ensures
        base64_value(base64_digit(v)) == v,
        base64_digit(v) != '=',
{
    if v < 26 {
        assert((v + 65) as char as int == v + 65);
    } else if v < 52 {
        assert((v + 71) as char as int == v + 71);
    } else if v < 62 {
        assert((v - 4) as char as int == v - 4);
    }
}

/// Decoding undoes encoding, and encoded text holds only base64 digits and
/// padding: no `#`, `?`, `%` or other character that a URL would read.
pub proof fn lemma_base64_round_trip(b: Seq<u8>)
    ensures
        base64_decode(base64_encode(b)) == b,
        forall|i: int|
            0 <= i < base64_encode(b).len() ==> is_base64_symbol(#[trigger] base64_encode(b)[i]),
    decreases b.len(),
{
    if b.len() == 0 {
        assert(base64_decode(seq![]) =~= b);
    } else {
        let x0 = b[0] as int;
        let d0 = x0 / 4;
        lemma_digit_value(d0);
        if b.len() == 1 {
            let d1 = (x0 % 4) * 16;
            lemma_digit_value(d1);
            let t = base64_encode(b);
            assert(t[2] == '=');
            assert(d0 * 4 + d1 / 16 == x0);
            assert(base64_decode(t) =~= b);
        } else if b.len() == 2 {
            let x1 = b[1] as int;
            let d1 = (x0 % 4) * 16 + x1 / 16;
            let d2 = (x1 % 16) * 4;
            lemma_digit_value(d1);
            lemma_digit_value(d2);
            let t = base64_encode(b);
            assert(t[2] != '=');
            assert(t[3] == '=');
            assert(d0 * 4 + d1 / 16 == x0);
            assert((d1 % 16) * 16 + d2 / 4 == x1);
            assert(base64_decode(t) =~= b);
        } else {
            let x1 = b[1] as int;
            let x2 = b[2] as int;
            let d1 = (x0 % 4) * 16 + x1 / 16;
            let d2 = (x1 % 16) * 4 + x2 / 64;
            let d3 = x2 % 64;
            lemma_digit_value(d1);
            lemma_digit_value(d2);
            lemma_digit_value(d3);
            let rest = b.skip(3);
            lemma_base64_round_trip(rest);
            let head = seq![base64_digit(d0), base64_digit(d1), base64_digit(d2), base64_digit(d3)];
            let t = base64_encode(b);
            assert(t == head + base64_encode(rest));
            assert(t[2] != '=');
            assert(t[3] != '=');
            assert(t.skip(4) =~= base64_encode(rest));
            assert(d0 * 4 + d1 / 16 == x0);
            assert((d1 % 16) * 16 + d2 / 4 == x1);
            assert((d2 % 4) * 64 + d3 == x2);
            assert(seq![b[0], b[1], b[2]] + rest =~= b);
            assert(base64_decode(t) =~= b);
            assert forall|i: int| 0 <= i < t.len() implies is_base64_symbol(#[trigger] t[i]) by {
                if i >= 4 {
                    assert(t[i] == base64_encode(rest)[i - 4]);
                }
            }
        }
    }
}

} // verus!
