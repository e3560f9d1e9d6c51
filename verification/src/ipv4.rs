//! IPv4 addresses in dotted-decimal text, read and written the way
//! `std::net::Ipv4Addr` does, and the /24 subnet broadcast address.

use vstd::prelude::*;
use crate::number::{
    all_digits, decimal, digits_value, is_digit, lemma_decimal_digits, parse_digits, push_decimal,
};
use crate::text::{chars_of, lemma_split_nonempty, push_char, split_chars, split_seq};

verus! {

/// An IPv4 address as its four octets, most significant first.
#[derive(Clone, Copy, Debug, PartialEq, Eq, Structural)]
pub struct Ipv4(pub u8, pub u8, pub u8, pub u8);

/// The octet that the text `p` denotes inside a dotted-decimal address:
/// one to three ASCII digits, no leading zero, at most 255.
pub open spec fn octet_value(p: Seq<char>) -> Option<u8> {
    if 1 <= p.len() <= 3 && all_digits(p) && !(p.len() > 1 && p[0] == '0') && digits_value(p)
        <= 255 {
        Some(digits_value(p) as u8)
    } else {
        None
    }
}

/// What `str::parse::<Ipv4Addr>` gives: exactly four octets separated by dots.
pub open spec fn spec_parse_ipv4(s: Seq<char>) -> Option<Ipv4> {
    let parts = split_seq(s, '.');
    if parts.len() == 4 && octet_value(parts[0]) is Some && octet_value(parts[1]) is Some
        && octet_value(parts[2]) is Some && octet_value(parts[3]) is Some {
        Some(
            Ipv4(
                octet_value(parts[0])->0,
                octet_value(parts[1])->0,
                octet_value(parts[2])->0,
                octet_value(parts[3])->0,
            ),
        )
    } else {
        None
    }
}

/// The dotted-decimal text of `ip` (what `Ipv4Addr::to_string` gives).
pub open spec fn ipv4_text(ip: Ipv4) -> Seq<char> {
    decimal(ip.0 as nat) + seq!['.'] + decimal(ip.1 as nat) + seq!['.'] + decimal(ip.2 as nat)
        + seq!['.'] + decimal(ip.3 as nat)
}

/// `127.0.0.0/8` (`Ipv4Addr::is_loopback`).
pub open spec fn spec_is_loopback(ip: Ipv4) -> bool {
    ip.0 == 127
}

/// `169.254.0.0/16` (`Ipv4Addr::is_link_local`).
pub open spec fn spec_is_link_local(ip: Ipv4) -> bool {
    ip.0 == 169 && ip.1 == 254
}

/// The broadcast address of the /24 subnet that holds `ip`.
pub open spec fn subnet_broadcast_of(ip: Ipv4) -> Ipv4 {
    Ipv4(ip.0, ip.1, ip.2, 255)
}

/// The subnet broadcast address for the address text `ip`: none when the text
/// is no IPv4 address or the address starts with 127 or 169.
pub open spec fn spec_subnet_broadcast(ip: Seq<char>) -> Option<Seq<char>> {
    match spec_parse_ipv4(ip) {
        Some(a) => if a.0 != 127 && a.0 != 169 {
            Some(ipv4_text(subnet_broadcast_of(a)))
        } else {
            None
        },
        None => None,
    }
}

/// A piece without `sep` splits into itself.
pub proof fn lemma_split_without_sep(x: Seq<char>, sep: char)
    requires
        forall|i: int| 0 <= i < x.len() ==> x[i] != sep,
    ensures
        split_seq(x, sep) == seq![x],
    decreases x.len(),
{
    if x.len() > 0 {
        lemma_split_without_sep(x.drop_last(), sep);
        assert(x.drop_last().push(x.last()) =~= x);
        assert(split_seq(x, sep) =~= seq![x]);
    } else {
        assert(x =~= Seq::<char>::empty());
    }
}

/// Splitting at one separator splits the two sides independently.
pub proof fn lemma_split_concat(x: Seq<char>, y: Seq<char>, sep: char)
    ensures
        split_seq(x + seq![sep] + y, sep) == split_seq(x, sep) + split_seq(y, sep),
    decreases y.len(),
{
    let xs = x + seq![sep];
    if y.len() == 0 {
        assert(xs + y =~= xs);
        assert(xs.drop_last() =~= x);
        assert(split_seq(x + seq![sep] + y, sep) =~= split_seq(x, sep) + split_seq(y, sep));
    } else {
        let y0 = y.drop_last();
        lemma_split_concat(x, y0, sep);
        lemma_split_nonempty(y0, sep);
        assert((xs + y).drop_last() =~= xs + y0);
        assert((xs + y).last() == y.last());
        assert(split_seq(x + seq![sep] + y, sep) =~= split_seq(x, sep) + split_seq(y, sep));
    }
}

/// A decimal text is a valid octet when the number is at most 255.
pub proof fn lemma_octet_of_decimal(n: u8)
    ensures
        octet_value(decimal(n as nat)) == Some(n),
        forall|i: int| 0 <= i < decimal(n as nat).len() ==> decimal(n as nat)[i] != '.',
{
    lemma_decimal_digits(n as nat);
    let d = decimal(n as nat);
    assert forall|i: int| 0 <= i < d.len() implies d[i] != '.' by {
        assert(is_digit(d[i]));
    }
}

/// Reading back the text of an address gives the address.
pub proof fn lemma_parse_ipv4_text(ip: Ipv4)
    ensures
        spec_parse_ipv4(ipv4_text(ip)) == Some(ip),
{
    let d0 = decimal(ip.0 as nat);
    let d1 = decimal(ip.1 as nat);
    let d2 = decimal(ip.2 as nat);
    let d3 = decimal(ip.3 as nat);
    lemma_octet_of_decimal(ip.0);
    lemma_octet_of_decimal(ip.1);
    lemma_octet_of_decimal(ip.2);
    lemma_octet_of_decimal(ip.3);
    lemma_split_without_sep(d0, '.');
    lemma_split_without_sep(d1, '.');
    lemma_split_without_sep(d2, '.');
    lemma_split_without_sep(d3, '.');
    lemma_split_concat(d0, d1, '.');
    let x1 = d0 + seq!['.'] + d1;
    lemma_split_concat(x1, d2, '.');
    let x2 = x1 + seq!['.'] + d2;
    lemma_split_concat(x2, d3, '.');
    let parts = split_seq(ipv4_text(ip), '.');
    assert(parts =~= seq![d0, d1, d2, d3]);
}

/// Parses one octet of a dotted-decimal address.
pub fn parse_octet(p: &[char]) -> (r: Option<u8>)
    ensures
        r == octet_value(p@),
{
    if p.len() < 1 || p.len() > 3 {
        return None;
    }
    if p.len() > 1 && p[0] == '0' {
        return None;
    }
    assert(p@ =~= p@.subrange(0, p@.len() as int));
    match parse_digits(p, 0, 255) {
        Some(v) => Some(v as u8),
        None => None,
    }
}

/// Parses `s` as `str::parse::<Ipv4Addr>` does.
pub fn parse_ipv4(s: &[char]) -> (r: Option<Ipv4>)
    ensures
        r == spec_parse_ipv4(s@),
{
    let parts = split_chars(s, '.');
    if parts.len() != 4 {
        return None;
    }
    let a = parse_octet(parts[0].as_slice());
    let b = parse_octet(parts[1].as_slice());
    let c = parse_octet(parts[2].as_slice());
    let d = parse_octet(parts[3].as_slice());
    match (a, b, c, d) {
        (Some(a), Some(b), Some(c), Some(d)) => Some(Ipv4(a, b, c, d)),
        _ => None,
    }
}

/// Parses the text `s` as `str::parse::<Ipv4Addr>` does.
pub fn parse_ipv4_str(s: &str) -> (r: Option<Ipv4>)
    ensures
        r == spec_parse_ipv4(s@),
{
    let cs = chars_of(s);
    parse_ipv4(cs.as_slice())
}

/// Whether `ip` is a loopback address.
pub fn is_loopback(ip: Ipv4) -> (b: bool)
    ensures
        b == spec_is_loopback(ip),
{
    ip.0 == 127
}

/// Whether `ip` is a link-local address.
pub fn is_link_local(ip: Ipv4) -> (b: bool)
    ensures
        b == spec_is_link_local(ip),
{
    ip.0 == 169 && ip.1 == 254
}

/// The dotted-decimal text of `ip`.
pub fn format_ipv4(ip: Ipv4) -> (s: String)
    ensures
        s@ == ipv4_text(ip),
{
    let mut s = String::new();
    push_decimal(&mut s, ip.0 as u64);
    push_char(&mut s, '.');
    push_decimal(&mut s, ip.1 as u64);
    push_char(&mut s, '.');
    push_decimal(&mut s, ip.2 as u64);
    push_char(&mut s, '.');
    push_decimal(&mut s, ip.3 as u64);
    assert(s@ =~= ipv4_text(ip));
    s
}

/// The broadcast address of the /24 subnet of `ip`, taken as an IPv4 text;
/// none for text that is no address and for addresses starting with 127 or 169.
pub fn subnet_broadcast(ip: &str) -> (r: Option<String>)
    ensures
        r matches Some(b) ==> spec_subnet_broadcast(ip@) == Some(b@),
        r is None ==> spec_subnet_broadcast(ip@) is None,
{
    match parse_ipv4_str(ip) {
        Some(a) => {
            if a.0 != 127 && a.0 != 169 {
                Some(format_ipv4(Ipv4(a.0, a.1, a.2, 255)))
            } else {
                None
            }
        },
        None => None,
    }
}

/// The subnet broadcast address is its own subnet broadcast address.
pub proof fn lemma_subnet_broadcast_idempotent(ip: Seq<char>)
    requires
        spec_subnet_broadcast(ip) is Some,
    ensures
        spec_subnet_broadcast(spec_subnet_broadcast(ip)->0) == spec_subnet_broadcast(ip),
{
    let a = spec_parse_ipv4(ip)->0;
    lemma_parse_ipv4_text(subnet_broadcast_of(a));
}

/// The subnet broadcast address of an address text: for every address whose
/// first octet is neither 127 nor 169 it is the same address with the last
/// octet set to 255; for 127.x.x.x and 169.x.x.x there is none, and for text
/// that is no IPv4 address there is none.
pub proof fn lemma_subnet_broadcast_law(a: Ipv4, s: Seq<char>)
    ensures
        a.0 != 127 && a.0 != 169 ==> spec_subnet_broadcast(ipv4_text(a)) == Some(
            ipv4_text(Ipv4(a.0, a.1, a.2, 255)),
        ),
        a.0 == 127 || a.0 == 169 ==> spec_subnet_broadcast(ipv4_text(a)) is None,
        spec_parse_ipv4(s) is None ==> spec_subnet_broadcast(s) is None,
        spec_parse_ipv4(s) matches Some(b) ==> (b.0 != 127 && b.0 != 169 ==> spec_subnet_broadcast(s)
            == Some(ipv4_text(Ipv4(b.0, b.1, b.2, 255)))),
{
    lemma_parse_ipv4_text(a);
}

} // verus!
