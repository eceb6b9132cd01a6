//! Standard base64 (the `+` and `/` alphabet, padded with `=`), as OSC 52 carries a selection.
use vstd::prelude::*;

verus! {

/// The character of a six-bit value.
pub open spec fn sextet_char(v: int) -> char {
    if v < 26 {
        (0x41 + v) as u8 as char
    } else if v < 52 {
        (0x61 + v - 26) as u8 as char
    } else if v < 62 {
        (0x30 + v - 52) as u8 as char
    } else if v == 62 {
        '+'
    } else {
        '/'
    }
}

fn sextet(v: u8) -> (r: char)
    requires
        v < 64,
    ensures
        r == sextet_char(v as int),
{
    if v < 26 {
        (0x41 + v) as char
    } else if v < 52 {
        (0x61 + v - 26) as char
    } else if v < 62 {
        (0x30 + v - 52) as char
    } else if v == 62 {
        '+'
    } else {
        '/'
    }
}

/// The four characters of three bytes.
pub open spec fn group(a: u8, b: u8, c: u8) -> Seq<char> {
    seq![
        sextet_char((a / 4) as int),
        sextet_char(((a % 4) * 16 + b / 16) as int),
        sextet_char(((b % 16) * 4 + c / 64) as int),
        sextet_char((c % 64) as int),
    ]
}

/// The base64 text of `b`.
pub open spec fn base64(b: Seq<u8>) -> Seq<char>
    decreases b.len(),
{
    if b.len() == 0 {
        Seq::empty()
    } else if b.len() == 1 {
        seq![sextet_char((b[0] / 4) as int), sextet_char(((b[0] % 4) * 16) as int), '=', '=']
    } else if b.len() == 2 {
        seq![
            sextet_char((b[0] / 4) as int),
            sextet_char(((b[0] % 4) * 16 + b[1] / 16) as int),
            sextet_char(((b[1] % 16) * 4) as int),
            '=',
        ]
    } else {
        group(b[0], b[1], b[2]) + base64(b.subrange(3, b.len() as int))
    }
}

/// Appends the base64 text of `b`.
pub fn push_base64(out: &mut Vec<char>, b: &[u8])
    ensures
        final(out)@ == old(out)@ + base64(b@),
{
    let ghost start = out@;
    let n = b.len();
    let mut i: usize = 0;
    assert(b@.subrange(0, n as int) =~= b@);
    while n - i >= 3
        invariant
            n == b@.len(),
            i <= n,
            out@ + base64(b@.subrange(i as int, n as int)) == start + base64(b@),
        decreases n - i,
    {
        let x = b[i];
        let y = b[i + 1];
        let z = b[i + 2];
        let ghost rest = b@.subrange(i as int, n as int);
        assert(rest.subrange(3, rest.len() as int) =~= b@.subrange(i + 3, n as int));
        assert(rest[0] == x && rest[1] == y && rest[2] == z);
        out.push(sextet(x / 4));
        out.push(sextet((x % 4) * 16 + y / 16));
        out.push(sextet((y % 16) * 4 + z / 64));
        out.push(sextet(z % 64));
        i = i + 3;
        assert(out@ + base64(b@.subrange(i as int, n as int)) =~= start + base64(b@));
    }
    let ghost rest = b@.subrange(i as int, n as int);
    if n - i == 1 {
        let x = b[i];
        assert(rest[0] == x);
        out.push(sextet(x / 4));
        out.push(sextet((x % 4) * 16));
        out.push('=');
        out.push('=');
    } else if n - i == 2 {
        let x = b[i];
        let y = b[i + 1];
        assert(rest[0] == x && rest[1] == y);
        out.push(sextet(x / 4));
        out.push(sextet((x % 4) * 16 + y / 16));
        out.push(sextet((y % 16) * 4));
        out.push('=');
    }
    assert(final(out)@ =~= old(out)@ + base64(b@));
}

} // verus!
