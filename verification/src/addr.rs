//! The resolved IPv4 address and its dotted-decimal rendering.

use vstd::prelude::*;
use vstd::string::StringExecFns;

verus! {

/// Four octets of an IPv4 address, in network order.
#[derive(Clone, Copy, Debug, PartialEq, Eq, Structural)]
pub struct ResolvedAddress {
    pub octet0: u8,
    pub octet1: u8,
    pub octet2: u8,
    pub octet3: u8,
}

/// The character for one decimal digit.
pub open spec fn dec_digit(d: int) -> char
    recommends
        0 <= d <= 9,
{
    if d == 0 {
        '0'
    } else if d == 1 {
        '1'
    } else if d == 2 {
        '2'
    } else if d == 3 {
        '3'
    } else if d == 4 {
        '4'
    } else if d == 5 {
        '5'
    } else if d == 6 {
        '6'
    } else if d == 7 {
        '7'
    } else if d == 8 {
        '8'
    } else {
        '9'
    }
}

/// The decimal digits of a non-negative number, most significant first,
/// without leading zeros (a single zero for 0).
pub open spec fn dec_rep(n: int) -> Seq<char>
    recommends
        n >= 0,
    decreases n,
{
    if 0 <= n <= 9 {
        seq![dec_digit(n)]
    } else if n >= 10 {
        dec_rep(n / 10) + seq![dec_digit(n % 10)]
    } else {
        Seq::empty()
    }
}

/// The dotted-decimal rendering of an address: the four octets in decimal,
/// separated by dots.
pub open spec fn dotted(a: ResolvedAddress) -> Seq<char> {
    dec_rep(a.octet0 as int) + seq!['.'] + dec_rep(a.octet1 as int) + seq!['.'] + dec_rep(
        a.octet2 as int,
    ) + seq!['.'] + dec_rep(a.octet3 as int)
}

/// Appends the character of the decimal digit `d`.
fn push_digit(s: &mut String, d: u8)
    requires
        d < 10,
    ensures
        final(s)@ == old(s)@ + seq![dec_digit(d as int)],
{
    let t: &str = if d == 0 {
        "0"
    } else if d == 1 {
        "1"
    } else if d == 2 {
        "2"
    } else if d == 3 {
        "3"
    } else if d == 4 {
        "4"
    } else if d == 5 {
        "5"
    } else if d == 6 {
        "6"
    } else if d == 7 {
        "7"
    } else if d == 8 {
        "8"
    } else {
        "9"
    };
    proof {
        reveal_strlit("0");
        reveal_strlit("1");
        reveal_strlit("2");
        reveal_strlit("3");
        reveal_strlit("4");
        reveal_strlit("5");
        reveal_strlit("6");
        reveal_strlit("7");
        reveal_strlit("8");
        reveal_strlit("9");
        assert(t@ =~= seq![dec_digit(d as int)]);
    }
    s.append(t);
}

/// Appends the decimal digits of `n`, most significant first.
fn push_decimal(s: &mut String, n: u8)
    ensures
        final(s)@ == old(s)@ + dec_rep(n as int),
    decreases n,
{
    if n >= 10 {
        push_decimal(s, n / 10);
        push_digit(s, n % 10);
    } else {
        push_digit(s, n);
    }
}

impl ResolvedAddress {
    /// Renders the address in dotted-decimal notation.
    pub fn to_dotted_string(&self) -> (r: String)
        ensures
            r@ == dotted(*self),
    {
        let mut s = String::new();
        push_decimal(&mut s, self.octet0);
        push_dot(&mut s);
        push_decimal(&mut s, self.octet1);
        push_dot(&mut s);
        push_decimal(&mut s, self.octet2);
        push_dot(&mut s);
        push_decimal(&mut s, self.octet3);
        s
    }
}

/// Appends the dot that separates two octets.
fn push_dot(s: &mut String)
    ensures
        final(s)@ == old(s)@ + seq!['.'],
{
    proof {
        reveal_strlit(".");
        assert("."@ =~= seq!['.']);
    }
    s.append(".");
}

} // verus!
