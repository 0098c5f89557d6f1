//! Decimal and hexadecimal rendering of machine integers, with the
//! injectivity facts that scope-id uniqueness rests on.

use vstd::prelude::*;

use crate::text::Text;

verus! {

/// The decimal digit character for `d`.
pub open spec fn dec_digit(d: nat) -> char {
    if d == 0 {
        '0'
    } else if d == 1 {
        '1'
    } else if d == 2 {
        '2'
    } else if d == 3 {
        '3'
    } else if d == 4 {
        '4'
    } else if d == 5 {
        '5'
    } else if d == 6 {
        '6'
    } else if d == 7 {
        '7'
    } else if d == 8 {
        '8'
    } else {
        '9'
    }
}

/// The hexadecimal digit character for `d`.
pub open spec fn hex_digit(d: nat) -> char {
    if d < 10 {
        dec_digit(d)
    } else if d == 10 {
        'a'
    } else if d == 11 {
        'b'
    } else if d == 12 {
        'c'
    } else if d == 13 {
        'd'
    } else if d == 14 {
        'e'
    } else {
        'f'
    }
}

/// `n` written in decimal, most significant digit first.
pub open spec fn dec_spec(n: nat) -> Seq<char>
    decreases n,
{
    if n < 10 {
        seq![dec_digit(n)]
    } else {
        dec_spec(n / 10) + seq![dec_digit(n % 10)]
    }
}

/// `n` written in hexadecimal, most significant digit first.
pub open spec fn hex_spec(n: nat) -> Seq<char>
    decreases n,
{
    if n < 16 {
        seq![hex_digit(n)]
    } else {
        hex_spec(n / 16) + seq![hex_digit(n % 16)]
    }
}

fn dec_digit_char(d: u64) -> (c: char)
    requires
        d < 10,
    ensures
        c == dec_digit(d as nat),
{
    if d == 0 {
        '0'
    } else if d == 1 {
        '1'
    } else if d == 2 {
        '2'
    } else if d == 3 {
        '3'
    } else if d == 4 {
        '4'
    } else if d == 5 {
        '5'
    } else if d == 6 {
        '6'
    } else if d == 7 {
        '7'
    } else if d == 8 {
        '8'
    } else {
        '9'
    }
}

fn hex_digit_char(d: u64) -> (c: char)
    requires
        d < 16,
    ensures
        c == hex_digit(d as nat),
{
    if d < 10 {
        dec_digit_char(d)
    } else if d == 10 {
        'a'
    } else if d == 11 {
        'b'
    } else if d == 12 {
        'c'
    } else if d == 13 {
        'd'
    } else if d == 14 {
        'e'
    } else {
        'f'
    }
}

/// Renders `n` in decimal.
pub fn u64_to_dec(n: u64) -> (r: Text)
    ensures
        r@ == dec_spec(n as nat),
    decreases n,
{
    if n < 10 {
        let mut r: Text = Vec::new();
        r.push(dec_digit_char(n));
        assert(r@ =~= dec_spec(n as nat));
        r
    } else {
        let mut r = u64_to_dec(n / 10);
        r.push(dec_digit_char(n % 10));
        assert(r@ =~= dec_spec((n / 10) as nat).push(dec_digit((n % 10) as nat)));
        assert(dec_spec((n / 10) as nat).push(dec_digit((n % 10) as nat)) =~= dec_spec(
            (n / 10) as nat,
        ) + seq![dec_digit((n % 10) as nat)]);
        r
    }
}

/// Renders `n` in hexadecimal.
pub fn u64_to_hex(n: u64) -> (r: Text)
    ensures
        r@ == hex_spec(n as nat),
    decreases n,
{
    if n < 16 {
        let mut r: Text = Vec::new();
        r.push(hex_digit_char(n));
        assert(r@ =~= hex_spec(n as nat));
        r
    } else {
        let mut r = u64_to_hex(n / 16);
        r.push(hex_digit_char(n % 16));
        assert(r@ =~= hex_spec((n / 16) as nat).push(hex_digit((n % 16) as nat)));
        assert(hex_spec((n / 16) as nat).push(hex_digit((n % 16) as nat)) =~= hex_spec(
            (n / 16) as nat,
        ) + seq![hex_digit((n % 16) as nat)]);
        r
    }
}

/// A decimal rendering is never empty.
pub proof fn lemma_dec_len(n: nat)
    ensures
        dec_spec(n).len() >= 1,
    decreases n,
{
    if n >= 10 {
        lemma_dec_len(n / 10);
    }
}

/// Two different numbers never render to the same decimal text.
pub proof fn lemma_dec_injective(a: nat, b: nat)
    requires
        dec_spec(a) == dec_spec(b),
    ensures
        a == b,
    decreases a,
{
    if a < 10 && b < 10 {
        assert(dec_spec(a)[0] == dec_digit(a));
        assert(dec_spec(b)[0] == dec_digit(b));
    } else if a < 10 && b >= 10 {
        lemma_dec_len(b / 10);
        assert(dec_spec(b).len() >= 2);
    } else if a >= 10 && b < 10 {
        lemma_dec_len(a / 10);
        assert(dec_spec(a).len() >= 2);
    } else {
        let da = dec_spec(a);
        let db = dec_spec(b);
        assert(da.last() == dec_digit(a % 10));
        assert(db.last() == dec_digit(b % 10));
        assert(a % 10 == b % 10);
        assert(da.drop_last() =~= dec_spec(a / 10));
        assert(db.drop_last() =~= dec_spec(b / 10));
        lemma_dec_injective(a / 10, b / 10);
    }
}

} // verus!
