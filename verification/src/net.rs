//! A plain model of IPv4 addresses and the strict textual grammar that the
//! standard address parser accepts: exactly four dot-separated octets, each
//! one to three digits, no leading zeros, each at most 255.
//!
//! Network device identifiers carry a port after a single colon; an address
//! with more than one colon can therefore never be split into two fields, so
//! only dotted-quad addresses ever classify an identifier as remote.

use vstd::prelude::*;

use crate::text::{
    all_digits, digits_value, is_digit_char, parse_u16, seq_views, spec_parse_u16, spec_split,
    split_char,
};

verus! {

#[derive(Clone, Copy, PartialEq, Eq, Structural, Debug)]
pub struct Ipv4Address {
    pub a: u8,
    pub b: u8,
    pub c: u8,
    pub d: u8,
}

impl Ipv4Address {
    /// Loopback addresses occupy the whole `127.0.0.0/8` block.
    pub open spec fn spec_is_loopback(self) -> bool {
        self.a == 127
    }

    pub fn is_loopback(&self) -> (r: bool)
        ensures
            r == self.spec_is_loopback(),
    {
        self.a == 127
    }
}

/// A dotted-quad octet: one to three digits, no leading zero, at most 255.
pub open spec fn valid_octet_text(s: Seq<char>) -> bool {
    1 <= s.len() <= 3 && all_digits(s) && (s.len() > 1 ==> s[0] != '0') && 0 <= digits_value(s)
        <= 255
}

pub open spec fn spec_parse_octet(s: Seq<char>) -> Option<u8> {
    if valid_octet_text(s) {
        Some(digits_value(s) as u8)
    } else {
        None
    }
}

pub fn parse_octet(s: &str) -> (r: Option<u8>)
    ensures
        r == spec_parse_octet(s@),
{
    let n = s.unicode_len();
    if n == 0 || n > 3 {
        return None;
    }
    let mut acc: u32 = 0;
    let mut i: usize = 0;
    proof {
        assert(s@.subrange(0, 0) =~= Seq::<char>::empty());
    }
    while i < n
        invariant
            i <= n <= 3,
            n == s@.len(),
            all_digits(s@.subrange(0, i as int)),
            acc as int == digits_value(s@.subrange(0, i as int)),
            i == 0 ==> acc == 0,
            i <= 1 ==> acc <= 9,
            i <= 2 ==> acc <= 99,
            acc <= 999,
        decreases n - i,
    {
        let c = s.get_char(i);
        let u = c as u32;
        if !(48 <= u && u <= 57) {
            proof {
                assert(!is_digit_char(s@[i as int]));
            }
            return None;
        }
        proof {
            assert(s@.subrange(0, i + 1).drop_last() =~= s@.subrange(0, i as int));
            assert(s@.subrange(0, i + 1).last() == s@[i as int]);
        }
        acc = acc * 10 + (u - 48);
        i = i + 1;
    }
    proof {
        assert(s@.subrange(0, n as int) =~= s@);
    }
    if n > 1 && s.get_char(0) == '0' {
        return None;
    }
    if acc > 255 {
        return None;
    }
    Some(acc as u8)
}

pub open spec fn spec_parse_ipv4(s: Seq<char>) -> Option<Ipv4Address> {
    let parts = spec_split(s, '.');
    if parts.len() == 4 {
        match (
            spec_parse_octet(parts[0]),
            spec_parse_octet(parts[1]),
            spec_parse_octet(parts[2]),
            spec_parse_octet(parts[3]),
        ) {
            (Some(a), Some(b), Some(c), Some(d)) => Some(Ipv4Address { a, b, c, d }),
            _ => None,
        }
    } else {
        None
    }
}

pub fn parse_ipv4(s: &str) -> (r: Option<Ipv4Address>)
    ensures
        r == spec_parse_ipv4(s@),
{
    let parts = split_char(s, '.');
    proof {
        assert(forall|k: int| 0 <= k < parts@.len() ==> #[trigger] parts@[k]@ == seq_views(
            parts@,
        )[k]);
    }
    if parts.len() != 4 {
        return None;
    }
    let a = parse_octet(parts[0].as_str());
    let b = parse_octet(parts[1].as_str());
    let c = parse_octet(parts[2].as_str());
    let d = parse_octet(parts[3].as_str());
    match (a, b, c, d) {
        (Some(a), Some(b), Some(c), Some(d)) => Some(Ipv4Address { a, b, c, d }),
        _ => None,
    }
}

/// The classification of a device identifier of the form `address:port`.
pub open spec fn spec_parse_remote_id(field: Seq<char>) -> Option<(Ipv4Address, u16)> {
    let parts = spec_split(field, ':');
    if parts.len() == 2 {
        match (spec_parse_ipv4(parts[0]), spec_parse_u16(parts[1])) {
            (Some(ip), Some(port)) => Some((ip, port)),
            _ => None,
        }
    } else {
        None
    }
}

pub fn try_parse_remote_id(field: &str) -> (r: Option<(Ipv4Address, u16)>)
    ensures
        r == spec_parse_remote_id(field@),
{
    let parts = split_char(field, ':');
    proof {
        assert(forall|k: int| 0 <= k < parts@.len() ==> #[trigger] parts@[k]@ == seq_views(
            parts@,
        )[k]);
    }
    if parts.len() != 2 {
        return None;
    }
    let port = match parse_u16(parts[1].as_str()) {
        Some(p) => p,
        None => {
            return None;
        },
    };
    let address = match parse_ipv4(parts[0].as_str()) {
        Some(ip) => ip,
        None => {
            return None;
        },
    };
    Some((address, port))
}

} // verus!
