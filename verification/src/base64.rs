//! Base64 with the standard alphabet and padding, as Basic credentials use it.

use vstd::prelude::*;
use vstd::string::StringExecFns;

verus! {

/// The sixty-four characters of the standard alphabet, in order.
pub const ALPHABET: &'static str =
    "ABCDEFGHIJKLMNOPQRSTUVWXYZabcdefghijklmnopqrstuvwxyz0123456789+/";

/// The character that stands for the six-bit value `n`.
pub open spec fn sextet(n: int) -> char {
    if n < 26 {
        (65 + n) as char
    } else if n < 52 {
        (71 + n) as char
    } else if n < 62 {
        (n - 4) as char
    } else if n == 62 {
        '+'
    } else {
        '/'
    }
}

/// The Base64 text of `bytes`: four characters for every three bytes, padded with `=`.
pub open spec fn base64(bytes: Seq<u8>) -> Seq<char>
    decreases bytes.len(),
{
    if bytes.len() == 0 {
        Seq::empty()
    } else if bytes.len() == 1 {
        seq![sextet((bytes[0] / 4) as int), sextet((bytes[0] % 4) * 16), '=', '=']
    } else if bytes.len() == 2 {
        seq![
            sextet((bytes[0] / 4) as int),
            sextet((bytes[0] % 4) * 16 + bytes[1] / 16),
            sextet((bytes[1] % 16) * 4),
            '=',
        ]
    } else {
        seq![
            sextet((bytes[0] / 4) as int),
            sextet((bytes[0] % 4) * 16 + bytes[1] / 16),
            sextet((bytes[1] % 16) * 4 + bytes[2] / 64),
            sextet((bytes[2] % 64) as int),
        ] + base64(bytes.skip(3))
    }
}

/// Appends the character for the six-bit value `n` to `out`.
fn push_sextet(out: &mut String, n: u8)
    requires
        n < 64,
    ensures
        final(out)@ == old(out)@.push(sextet(n as int)),
{
    proof {
        reveal_strlit("ABCDEFGHIJKLMNOPQRSTUVWXYZabcdefghijklmnopqrstuvwxyz0123456789+/");
    }
    let one = ALPHABET.substring_char(n as usize, n as usize + 1);
    assert(one@ =~= seq![sextet(n as int)]);
    out.append(one);
    assert(out@ =~= old(out)@.push(sextet(n as int)));
}

/// Encodes `bytes` in Base64.
pub fn encode(bytes: &[u8]) -> (out: String)
    ensures
        out@ == base64(bytes@),
{
    let mut out = String::new();
    let mut i: usize = 0;
    assert(bytes@.skip(0) =~= bytes@);
    while bytes.len() - i >= 3
        invariant
            i <= bytes.len(),
            base64(bytes@) == out@ + base64(bytes@.skip(i as int)),
        decreases bytes.len() - i,
    {
        let a = bytes[i];
        let b = bytes[i + 1];
        let c = bytes[i + 2];
        let ghost before = out@;
        let ghost rest = bytes@.skip(i as int);
        push_sextet(&mut out, a / 4);
        push_sextet(&mut out, (a % 4) * 16 + b / 16);
        push_sextet(&mut out, (b % 16) * 4 + c / 64);
        push_sextet(&mut out, c % 64);
        proof {
            assert(rest[0] == a && rest[1] == b && rest[2] == c);
            assert(rest.skip(3) =~= bytes@.skip(i + 3));
            assert(out@ + base64(bytes@.skip(i + 3)) =~= before + base64(rest));
        }
        i += 3;
    }
    let ghost before = out@;
    let ghost rest = bytes@.skip(i as int);
    if bytes.len() - i == 1 {
        let a = bytes[i];
        push_sextet(&mut out, a / 4);
        push_sextet(&mut out, (a % 4) * 16);
        out.append("==");
        proof {
            reveal_strlit("==");
            assert(rest[0] == a);
            assert(out@ =~= before + base64(rest));
        }
    } else if bytes.len() - i == 2 {
        let a = bytes[i];
        let b = bytes[i + 1];
        push_sextet(&mut out, a / 4);
        push_sextet(&mut out, (a % 4) * 16 + b / 16);
        push_sextet(&mut out, (b % 16) * 4);
        out.append("=");
        proof {
            reveal_strlit("=");
            assert(rest[0] == a && rest[1] == b);
            assert(out@ =~= before + base64(rest));
        }
    } else {
        assert(out@ =~= before + base64(rest));
    }
    out
}

} // verus!
