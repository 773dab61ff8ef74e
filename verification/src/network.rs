//! Network values for the VM-boot mode: plain addresses and the small
//! computations around the tap-device setup.  The netlink exchanges
//! themselves live outside the library; they hand in bytes and numbers
//! and take back the strings and device ids computed here.

use vstd::prelude::*;

use crate::numfmt::{hex_byte, hex_byte_string, u64_dec, u64_to_string};

verus! {

/// The network parameters handed to the VM: addresses as plain octets,
/// the interface's hardware address already rendered, and the macvtap
/// device index.
pub struct VirtioNetworkConfig {
    pub ip: [u8; 4],
    pub gateway: [u8; 4],
    pub mask: [u8; 4],
    pub mac: String,
    pub macvtap_index: u32,
}

/// The dotted-decimal rendering of an address.
pub open spec fn spec_ipv4_string(a: [u8; 4]) -> Seq<char> {
    u64_dec(a[0] as u64) + seq!['.'] + u64_dec(a[1] as u64) + seq!['.'] + u64_dec(a[2] as u64)
        + seq!['.'] + u64_dec(a[3] as u64)
}

/// Render an address in dotted decimal.
pub fn ipv4_string(a: &[u8; 4]) -> (r: String)
    ensures
        r@ == spec_ipv4_string(*a),
{
    proof {
        reveal_strlit(".");
        assert("."@ =~= seq!['.']);
    }
    let mut s = u64_to_string(a[0] as u64);
    s.append(".");
    let p1 = u64_to_string(a[1] as u64);
    s.append(p1.as_str());
    s.append(".");
    let p2 = u64_to_string(a[2] as u64);
    s.append(p2.as_str());
    s.append(".");
    let p3 = u64_to_string(a[3] as u64);
    s.append(p3.as_str());
    s
}

/// The colon-separated lowercase-hex rendering of a hardware address.
pub open spec fn spec_mac_string(b: Seq<u8>) -> Seq<char>
    recommends
        b.len() == 6,
{
    hex_byte(b[0]) + seq![':'] + hex_byte(b[1]) + seq![':'] + hex_byte(b[2]) + seq![':'] + hex_byte(
        b[3],
    ) + seq![':'] + hex_byte(b[4]) + seq![':'] + hex_byte(b[5])
}

/// Render a six-byte hardware address as colon-separated hex pairs.
pub fn mac_string(b: &Vec<u8>) -> (r: String)
    requires
        b@.len() == 6,
    ensures
        r@ == spec_mac_string(b@),
{
    proof {
        reveal_strlit(":");
        assert(":"@ =~= seq![':']);
    }
    let mut s = hex_byte_string(b[0]);
    s.append(":");
    let p1 = hex_byte_string(b[1]);
    s.append(p1.as_str());
    s.append(":");
    let p2 = hex_byte_string(b[2]);
    s.append(p2.as_str());
    s.append(":");
    let p3 = hex_byte_string(b[3]);
    s.append(p3.as_str());
    s.append(":");
    let p4 = hex_byte_string(b[4]);
    s.append(p4.as_str());
    s.append(":");
    let p5 = hex_byte_string(b[5]);
    s.append(p5.as_str());
    s
}

/// The network mask derived from a prefix length, as the tap setup
/// computes it: the all-ones word shifted left by the prefix.
pub fn prefix_to_mask(prefix: u8) -> (r: u32)
    requires
        prefix < 32,
    ensures
        r == 0xffffffffu32 << prefix,
{
    0xffffffffu32 << prefix
}

/// The octets of a 32-bit address word, most significant first.
pub fn mask_octets(m: u32) -> (r: [u8; 4])
    ensures
        r[0] == (m >> 24) & 0xff,
        r[1] == (m >> 16) & 0xff,
        r[2] == (m >> 8) & 0xff,
        r[3] == m & 0xff,
{
    proof {
        assert((m >> 24) & 0xff < 256 && (m >> 16) & 0xff < 256 && (m >> 8) & 0xff < 256 && m
            & 0xff < 256) by (bit_vector);
    }
    [((m >> 24) & 0xff) as u8, ((m >> 16) & 0xff) as u8, ((m >> 8) & 0xff) as u8, (m & 0xff) as u8]
}

/// `p` is a decimal number surrounded by blanks, with value `v`.
pub open spec fn ws_trimmed_value(p: Seq<char>, v: u64) -> bool {
    exists|i: int, j: int|
        #![trigger p.subrange(i, j)]
        0 <= i <= j <= p.len() && (forall|k: int| 0 <= k < i ==> is_ws(#[trigger] p[k])) && (
        forall|k: int| j <= k < p.len() ==> is_ws(#[trigger] p[k]))
            && crate::numfmt::is_dec_digits(p.subrange(i, j)) && v == crate::numfmt::dec_val(
            p.subrange(i, j),
        )
}

/// Split a sysfs `dev` entry of the form `major:minor` into its two
/// numbers.  Whitespace around each number is tolerated; anything else
/// is rejected: a successful parse means the string is exactly two
/// colon-free parts, each a blank-padded decimal with the returned
/// value.
pub fn parse_dev_numbers(s: &str) -> (r: Option<(u64, u64)>)
    ensures
        r matches Some(pair) ==> exists|p0: Seq<char>, p1: Seq<char>|
            {
                &&& crate::paths::join_with(seq![':'], seq![p0, p1]) == s@
                &&& (forall|k: int| 0 <= k < p0.len() ==> #[trigger] p0[k] != ':')
                &&& (forall|k: int| 0 <= k < p1.len() ==> #[trigger] p1[k] != ':')
                &&& ws_trimmed_value(p0, pair.0)
                &&& ws_trimmed_value(p1, pair.1)
            },
{
    let parts = crate::paths::split_on(s, ':');
    if parts.len() != 2 {
        return Option::None;
    }
    let t0 = trim_ws(parts[0].as_str());
    let t1 = trim_ws(parts[1].as_str());
    let major = crate::numfmt::parse_u64_dec(t0.as_str());
    let minor = crate::numfmt::parse_u64_dec(t1.as_str());
    match (major, minor) {
        (Option::Some(ma), Option::Some(mi)) => {
            proof {
                let dv = parts.deep_view();
                assert(dv =~= seq![dv[0], dv[1]]);
                let (i0, j0) = choose|i: int, j: int|
                    0 <= i <= j <= dv[0].len() && t0@ == dv[0].subrange(i, j) && (forall|k: int|
                        0 <= k < i ==> is_ws(#[trigger] dv[0][k])) && (forall|k: int|
                        j <= k < dv[0].len() ==> is_ws(#[trigger] dv[0][k]));
                assert(ws_trimmed_value(dv[0], ma)) by {
                    assert(crate::numfmt::is_dec_digits(dv[0].subrange(i0, j0)));
                }
                let (i1, j1) = choose|i: int, j: int|
                    0 <= i <= j <= dv[1].len() && t1@ == dv[1].subrange(i, j) && (forall|k: int|
                        0 <= k < i ==> is_ws(#[trigger] dv[1][k])) && (forall|k: int|
                        j <= k < dv[1].len() ==> is_ws(#[trigger] dv[1][k]));
                assert(ws_trimmed_value(dv[1], mi)) by {
                    assert(crate::numfmt::is_dec_digits(dv[1].subrange(i1, j1)));
                }
            }
            Option::Some((ma, mi))
        },
        _ => Option::None,
    }
}

/// Is the character one of the blanks trimming removes?
pub open spec fn is_ws(c: char) -> bool {
    c == ' ' || c == '\n' || c == '\t' || c == '\r'
}

/// The string with leading and trailing blanks removed.
pub fn trim_ws(s: &str) -> (r: String)
    ensures
        exists|i: int, j: int|
            0 <= i <= j <= s@.len() && r@ == s@.subrange(i, j) && (forall|k: int|
                0 <= k < i ==> is_ws(#[trigger] s@[k])) && (forall|k: int|
                j <= k < s@.len() ==> is_ws(#[trigger] s@[k])) && (i < j ==> !is_ws(s@[i]) && !is_ws(
                s@[j - 1],
            )),
{
    let n = s.unicode_len();
    let mut i: usize = 0;
    while i < n && is_ws_char(s.get_char(i))
        invariant
            i <= n,
            n == s@.len(),
            forall|k: int| 0 <= k < i ==> is_ws(#[trigger] s@[k]),
        decreases n - i,
    {
        i += 1;
    }
    let mut j: usize = n;
    while j > i && is_ws_char(s.get_char(j - 1))
        invariant
            i <= j <= n,
            n == s@.len(),
            forall|k: int| j <= k < n ==> is_ws(#[trigger] s@[k]),
        decreases j,
    {
        j -= 1;
    }
    let out = s.substring_char(i, j).to_owned();
    proof {
        assert(out@ == s@.subrange(i as int, j as int));
    }
    out
}

/// Is the character one of the blanks trimming removes?
fn is_ws_char(c: char) -> (r: bool)
    ensures
        r == is_ws(c),
{
    c == ' ' || c == '\n' || c == '\t' || c == '\r'
}

} // verus!
