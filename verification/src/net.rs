//! Socket addresses as plain values, and the parsing of the relayer's
//! advertised ingress sockets into the heartbeat event.

use vstd::prelude::*;
use vstd::arithmetic::div_mod::{
    lemma_div_denominator, lemma_fundamental_div_mod, lemma_fundamental_div_mod_converse,
};
use vstd::string::StringSliceAdditionalSpecFns;
use crate::error::ProxyError;

verus! {

/// An IPv4 address as four octets.
#[derive(PartialEq, Eq, Structural, Clone, Copy, Debug)]
pub struct Ipv4Addr {
    pub a: u8,
    pub b: u8,
    pub c: u8,
    pub d: u8,
}

/// An IPv4 socket address.
#[derive(PartialEq, Eq, Structural, Clone, Copy, Debug)]
pub struct SocketAddr {
    pub ip: Ipv4Addr,
    pub port: u16,
}

/// The pair of ingress sockets learned once at session start and re-emitted
/// on every heartbeat, so that downstream can re-arm the advertised ingress.
#[derive(PartialEq, Eq, Structural, Clone, Copy, Debug)]
pub struct HeartbeatEvent {
    pub tpu: SocketAddr,
    pub tpu_forward: SocketAddr,
}

/// A socket description as the relayer reports it: a host string and a port
/// that is wider than a real port.
pub struct HostPort {
    pub ip: String,
    pub port: u32,
}

/// What the relayer answers when asked for its ingress configuration.
pub struct TpuConfigs {
    pub tpu: Option<HostPort>,
    pub tpu_forward: Option<HostPort>,
}

/// The UTF-8 bytes of a string value.
pub open spec fn text_bytes(s: Seq<char>) -> Seq<u8> {
    vstd::utf8::encode_utf8(s)
}

/// An ASCII decimal digit.
pub open spec fn is_digit(b: u8) -> bool {
    48 <= b <= 57
}

/// The canonical decimal rendering of an octet: one to three digits, no
/// leading zero.
pub open spec fn dec_bytes(n: int) -> Seq<u8> {
    if n < 10 {
        seq![(48 + n) as u8]
    } else if n < 100 {
        seq![(48 + n / 10) as u8, (48 + n % 10) as u8]
    } else {
        seq![(48 + n / 100) as u8, (48 + (n / 10) % 10) as u8, (48 + n % 10) as u8]
    }
}

/// The numeric value of a digit string.
pub open spec fn digits_val(s: Seq<u8>) -> int
    decreases s.len(),
{
    if s.len() == 0 {
        0
    } else {
        digits_val(s.drop_last()) * 10 + (s.last() - 48)
    }
}

/// The canonical text of an IPv4 address: four octet renderings joined by dots.
pub open spec fn ipv4_bytes(a: u8, b: u8, c: u8, d: u8) -> Seq<u8> {
    dec_bytes(a as int) + seq![46u8] + dec_bytes(b as int) + seq![46u8] + dec_bytes(c as int)
        + seq![46u8] + dec_bytes(d as int)
}

/// Shape of a canonical octet rendering: short, all digits, no leading zero,
/// and it reads back to the octet it renders.
proof fn lemma_dec_bytes_shape(n: u8)
    ensures
        1 <= dec_bytes(n as int).len() <= 3,
        forall|i: int|
            0 <= i < dec_bytes(n as int).len() ==> is_digit(#[trigger] dec_bytes(n as int)[i]),
        dec_bytes(n as int).len() > 1 ==> dec_bytes(n as int)[0] != 48,
        digits_val(dec_bytes(n as int)) == n,
{
    let s = dec_bytes(n as int);
    assert(digits_val(Seq::<u8>::empty()) == 0);
    if n < 10 {
        assert(s =~= seq![(48 + n as int) as u8]);
        assert(s.drop_last() =~= Seq::<u8>::empty());
        assert(digits_val(s) == digits_val(s.drop_last()) * 10 + (s.last() - 48));
    } else if n < 100 {
        lemma_fundamental_div_mod(n as int, 10);
        let s1 = s.drop_last();
        assert(s1 =~= seq![(48 + n as int / 10) as u8]);
        assert(s1.drop_last() =~= Seq::<u8>::empty());
        assert(digits_val(s1) == digits_val(s1.drop_last()) * 10 + (s1.last() - 48));
        assert(digits_val(s) == digits_val(s1) * 10 + (s.last() - 48));
    } else {
        lemma_fundamental_div_mod(n as int, 10);
        lemma_fundamental_div_mod(n as int / 10, 10);
        lemma_div_denominator(n as int, 10, 10);
        let s2 = s.drop_last();
        let s1 = s2.drop_last();
        assert(s2 =~= seq![(48 + n as int / 100) as u8, (48 + (n as int / 10) % 10) as u8]);
        assert(s1 =~= seq![(48 + n as int / 100) as u8]);
        assert(s1.drop_last() =~= Seq::<u8>::empty());
        assert(digits_val(s1) == digits_val(s1.drop_last()) * 10 + (s1.last() - 48));
        assert(digits_val(s2) == digits_val(s1) * 10 + (s2.last() - 48));
        assert(digits_val(s) == digits_val(s2) * 10 + (s.last() - 48));
    }
}

/// A digit string of canonical shape renders back from its own value.
proof fn lemma_octet_inverse(t: Seq<u8>)
    requires
        1 <= t.len() <= 3,
        forall|i: int| 0 <= i < t.len() ==> is_digit(#[trigger] t[i]),
        t.len() > 1 ==> t[0] != 48,
        digits_val(t) <= 255,
    ensures
        dec_bytes(digits_val(t)) == t,
{
    let v = digits_val(t);
    assert(digits_val(Seq::<u8>::empty()) == 0);
    if t.len() == 1 {
        assert(t.drop_last() =~= Seq::<u8>::empty());
        assert(v == digits_val(t.drop_last()) * 10 + (t.last() - 48));
        assert(v == t[0] - 48);
        assert(dec_bytes(v) =~= t);
    } else if t.len() == 2 {
        let t1 = t.drop_last();
        assert(t1.drop_last() =~= Seq::<u8>::empty());
        assert(digits_val(t1) == digits_val(t1.drop_last()) * 10 + (t1.last() - 48));
        assert(v == digits_val(t1) * 10 + (t.last() - 48));
        assert(v == (t[0] - 48) * 10 + (t[1] - 48));
        lemma_fundamental_div_mod_converse(v, 10, t[0] - 48, t[1] - 48);
        assert(t[0] != 48 && is_digit(t[0]));
        assert(v >= 10);
        assert(dec_bytes(v) =~= t);
    } else {
        let t2 = t.drop_last();
        let t1 = t2.drop_last();
        assert(t1.drop_last() =~= Seq::<u8>::empty());
        assert(digits_val(t1) == digits_val(t1.drop_last()) * 10 + (t1.last() - 48));
        assert(digits_val(t2) == digits_val(t1) * 10 + (t2.last() - 48));
        assert(v == digits_val(t2) * 10 + (t.last() - 48));
        assert(v == ((t[0] - 48) * 10 + (t[1] - 48)) * 10 + (t[2] - 48));
        lemma_fundamental_div_mod_converse(
            v,
            10,
            (t[0] - 48) * 10 + (t[1] - 48),
            t[2] - 48,
        );
        lemma_fundamental_div_mod_converse(
            (t[0] - 48) * 10 + (t[1] - 48),
            10,
            t[0] - 48,
            t[1] - 48,
        );
        lemma_div_denominator(v, 10, 10);
        assert(v / 100 == t[0] - 48);
        assert((v / 10) % 10 == t[1] - 48);
        assert(v % 10 == t[2] - 48);
        assert(t[0] != 48 && is_digit(t[0]));
        assert(v >= 100);
        assert(dec_bytes(v) =~= t);
    }
}

/// A canonical octet rendering of value `v` sits in `s` at `start`, and ends
/// at the end of `s` or before a non-digit.
pub open spec fn octet_here(s: Seq<u8>, start: int, v: u8) -> bool {
    let e = start + dec_bytes(v as int).len();
    &&& 0 <= start
    &&& e <= s.len()
    &&& s.subrange(start, e) == dec_bytes(v as int)
    &&& (e == s.len() || !is_digit(s[e]))
}

/// A scan that returned `(v, next)` at `start` agrees with any canonical
/// octet sitting there: same end, same value.
proof fn lemma_scan_agrees(s: Seq<u8>, start: int, v: u8, next: int, v0: u8)
    requires
        0 <= start < next <= s.len(),
        s.subrange(start, next) == dec_bytes(v as int),
        next == s.len() || !is_digit(s[next]),
        octet_here(s, start, v0),
    ensures
        next == start + dec_bytes(v0 as int).len(),
        v == v0,
{
    lemma_dec_bytes_shape(v);
    lemma_dec_bytes_shape(v0);
    let e = start + dec_bytes(v0 as int).len();
    if next < e {
        assert(is_digit(s[next])) by {
            assert(s.subrange(start, e) == dec_bytes(v0 as int));
            assert(s[next] == dec_bytes(v0 as int)[next - start]);
        }
        assert(next < s.len());
        assert(false);
    }
    if next > e {
        assert(e < s.len());
        assert(!is_digit(s[e]));
        assert(s[e] == dec_bytes(v as int)[e - start]) by {
            assert(s.subrange(start, next) == dec_bytes(v as int));
        }
        assert(is_digit(dec_bytes(v as int)[e - start]));
        assert(false);
    }
    assert(next == e);
    assert(dec_bytes(v as int) == dec_bytes(v0 as int));
    assert(digits_val(dec_bytes(v as int)) == digits_val(dec_bytes(v0 as int)));
}

/// Reads one canonical octet at `start`: one to three digits, no leading
/// zero, value at most 255, ending at the end of the input or before a
/// non-digit.  Returns the octet and the position after it, or `None` when
/// no canonical octet sits there.
fn scan_octet(bytes: &[u8], start: usize) -> (r: Option<(u8, usize)>)
    requires
        start <= bytes@.len(),
    ensures
        match r {
            Some(p) => {
                &&& start < p.1 <= bytes@.len()
                &&& bytes@.subrange(start as int, p.1 as int) == dec_bytes(p.0 as int)
                &&& (p.1 == bytes@.len() || !is_digit(bytes@[p.1 as int]))
            },
            None => forall|v: u8| !octet_here(bytes@, start as int, v),
        },
{
    let len = bytes.len();
    if start >= len || !(48 <= bytes[start] && bytes[start] <= 57) {
        assert forall|v: u8| !octet_here(bytes@, start as int, v) by {
            lemma_dec_bytes_shape(v);
            if octet_here(bytes@, start as int, v) {
                let e = start + dec_bytes(v as int).len();
                assert(start < e <= bytes@.len());
                assert(bytes@[start as int] == dec_bytes(v as int)[0]);
            }
        }
        return None;
    }
    let d0 = bytes[start];
    let mut ndig: usize = 1;
    if start + 1 < len && 48 <= bytes[start + 1] && bytes[start + 1] <= 57 {
        ndig = 2;
        if start + 2 < len && 48 <= bytes[start + 2] && bytes[start + 2] <= 57 {
            ndig = 3;
            if start + 3 < len && 48 <= bytes[start + 3] && bytes[start + 3] <= 57 {
                // four digits in a row: no canonical octet can end here
                assert forall|v: u8| !octet_here(bytes@, start as int, v) by {
                    lemma_dec_bytes_shape(v);
                    if octet_here(bytes@, start as int, v) {
                        let e = start + dec_bytes(v as int).len();
                        assert(e <= start + 3);
                        assert(e < bytes@.len());
                        assert(is_digit(bytes@[e]));
                    }
                }
                return None;
            }
        }
    }
    if ndig > 1 && d0 == 48 {
        // a leading zero is canonical only for the single digit `0`
        assert forall|v: u8| !octet_here(bytes@, start as int, v) by {
            lemma_dec_bytes_shape(v);
            if octet_here(bytes@, start as int, v) {
                let e = start + dec_bytes(v as int).len();
                assert(dec_bytes(v as int)[0] == bytes@[start as int]);
                assert(dec_bytes(v as int).len() == 1);
                assert(e == start + 1 < bytes@.len());
                assert(is_digit(bytes@[e]));
            }
        }
        return None;
    }
    let val: u32 = if ndig == 1 {
        (d0 - 48) as u32
    } else if ndig == 2 {
        (d0 - 48) as u32 * 10 + (bytes[start + 1] - 48) as u32
    } else {
        (d0 - 48) as u32 * 100 + (bytes[start + 1] - 48) as u32 * 10 + (bytes[start + 2]
            - 48) as u32
    };
    proof {
        let t = bytes@.subrange(start as int, start as int + ndig as int);
        assert(t.len() == ndig);
        assert(digits_val(Seq::<u8>::empty()) == 0);
        if ndig == 1 {
            assert(t.drop_last() =~= Seq::<u8>::empty());
            assert(digits_val(t) == digits_val(t.drop_last()) * 10 + (t.last() - 48));
            assert(t.last() == d0);
        } else if ndig == 2 {
            let t1 = t.drop_last();
            assert(t1 =~= bytes@.subrange(start as int, start as int + 1));
            assert(t1.drop_last() =~= Seq::<u8>::empty());
            assert(digits_val(t1) == digits_val(t1.drop_last()) * 10 + (t1.last() - 48));
            assert(digits_val(t) == digits_val(t1) * 10 + (t.last() - 48));
            assert(t1.last() == d0);
            assert(t.last() == bytes@[start as int + 1]);
        } else {
            let t2 = t.drop_last();
            let t1 = t2.drop_last();
            assert(t2 =~= bytes@.subrange(start as int, start as int + 2));
            assert(t1 =~= bytes@.subrange(start as int, start as int + 1));
            assert(t1.drop_last() =~= Seq::<u8>::empty());
            assert(digits_val(t1) == digits_val(t1.drop_last()) * 10 + (t1.last() - 48));
            assert(digits_val(t2) == digits_val(t1) * 10 + (t2.last() - 48));
            assert(digits_val(t) == digits_val(t2) * 10 + (t.last() - 48));
            assert(t1.last() == d0);
            assert(t2.last() == bytes@[start as int + 1]);
            assert(t.last() == bytes@[start as int + 2]);
        }
        assert(digits_val(t) == val);
    }
    if val > 255 {
        // three maximal digits reading above 255: no canonical octet here
        assert forall|v: u8| !octet_here(bytes@, start as int, v) by {
            lemma_dec_bytes_shape(v);
            if octet_here(bytes@, start as int, v) {
                let e = start + dec_bytes(v as int).len();
                if dec_bytes(v as int).len() < 3 {
                    assert(e < bytes@.len());
                    assert(is_digit(bytes@[e]));
                    assert(false);
                }
                let t = bytes@.subrange(start as int, start as int + 3);
                assert(t == dec_bytes(v as int));
                assert(digits_val(t) == v);
            }
        }
        return None;
    }
    proof {
        let t = bytes@.subrange(start as int, start as int + ndig as int);
        lemma_octet_inverse(t);
    }
    Some((val as u8, start + ndig))
}

/// Fixes the canonical rendering from the address it renders.
proof fn lemma_ipv4_structure(s: Seq<u8>, a: u8, b: u8, c: u8, d: u8)
    requires
        s == ipv4_bytes(a, b, c, d),
    ensures
        s.len() == dec_bytes(a as int).len() + dec_bytes(b as int).len() + dec_bytes(
            c as int,
        ).len() + dec_bytes(d as int).len() + 3,
        octet_here(s, 0, a),
        s[dec_bytes(a as int).len() as int] == 46,
        octet_here(s, dec_bytes(a as int).len() as int + 1, b),
        s[dec_bytes(a as int).len() as int + dec_bytes(b as int).len() as int + 1] == 46,
        octet_here(s, dec_bytes(a as int).len() as int + dec_bytes(b as int).len() as int + 2, c),
        s[dec_bytes(a as int).len() as int + dec_bytes(b as int).len() as int + dec_bytes(
            c as int,
        ).len() as int + 2] == 46,
        octet_here(
            s,
            dec_bytes(a as int).len() as int + dec_bytes(b as int).len() as int + dec_bytes(
                c as int,
            ).len() as int + 3,
            d,
        ),
{
    lemma_dec_bytes_shape(a);
    lemma_dec_bytes_shape(b);
    lemma_dec_bytes_shape(c);
    lemma_dec_bytes_shape(d);
    let la = dec_bytes(a as int).len() as int;
    let lb = dec_bytes(b as int).len() as int;
    let lc = dec_bytes(c as int).len() as int;
    let ld = dec_bytes(d as int).len() as int;
    assert(s.subrange(0, la) =~= dec_bytes(a as int));
    assert(s.subrange(la + 1, la + 1 + lb) =~= dec_bytes(b as int));
    assert(s.subrange(la + lb + 2, la + lb + 2 + lc) =~= dec_bytes(c as int));
    assert(s.subrange(la + lb + lc + 3, la + lb + lc + 3 + ld) =~= dec_bytes(d as int));
    assert(s[la] == 46);
    assert(s[la + lb + 1] == 46);
    assert(s[la + lb + lc + 2] == 46);
    assert(!is_digit(46u8));
}

/// Parses the canonical text of an IPv4 address: four decimal octets joined
/// by dots, no leading zeros.  Returns `Some` exactly on such text.
#[verifier::rlimit(100)]
pub fn parse_ipv4(s: &str) -> (r: Option<Ipv4Addr>)
    ensures
        match r {
            Some(ip) => s.spec_bytes() == ipv4_bytes(ip.a, ip.b, ip.c, ip.d),
            None => forall|a: u8, b: u8, c: u8, d: u8|
                s.spec_bytes() != #[trigger] ipv4_bytes(a, b, c, d),
        },
{
    let bytes = s.as_bytes();
    let len = bytes.len();
    let ghost sv = bytes@;

    let r1 = scan_octet(bytes, 0);
    if r1.is_none() {
        proof {
            assert forall|a: u8, b: u8, c: u8, d: u8|
                sv != #[trigger] ipv4_bytes(a, b, c, d) by {
                if sv == ipv4_bytes(a, b, c, d) {
                    lemma_ipv4_structure(sv, a, b, c, d);
                }
            }
        }
        return None;
    }
    let (a, p1) = r1.unwrap();
    if p1 >= len || bytes[p1] != 46 {
        proof {
            assert forall|a0: u8, b0: u8, c0: u8, d0: u8|
                sv != #[trigger] ipv4_bytes(a0, b0, c0, d0) by {
                if sv == ipv4_bytes(a0, b0, c0, d0) {
                    lemma_ipv4_structure(sv, a0, b0, c0, d0);
                    lemma_scan_agrees(sv, 0, a, p1 as int, a0);
                }
            }
        }
        return None;
    }

    let r2 = scan_octet(bytes, p1 + 1);
    if r2.is_none() {
        proof {
            assert forall|a0: u8, b0: u8, c0: u8, d0: u8|
                sv != #[trigger] ipv4_bytes(a0, b0, c0, d0) by {
                if sv == ipv4_bytes(a0, b0, c0, d0) {
                    lemma_ipv4_structure(sv, a0, b0, c0, d0);
                    lemma_scan_agrees(sv, 0, a, p1 as int, a0);
                }
            }
        }
        return None;
    }
    let (b, p2) = r2.unwrap();
    if p2 >= len || bytes[p2] != 46 {
        proof {
            assert forall|a0: u8, b0: u8, c0: u8, d0: u8|
                sv != #[trigger] ipv4_bytes(a0, b0, c0, d0) by {
                if sv == ipv4_bytes(a0, b0, c0, d0) {
                    lemma_ipv4_structure(sv, a0, b0, c0, d0);
                    lemma_scan_agrees(sv, 0, a, p1 as int, a0);
                    lemma_scan_agrees(sv, p1 + 1, b, p2 as int, b0);
                }
            }
        }
        return None;
    }

    let r3 = scan_octet(bytes, p2 + 1);
    if r3.is_none() {
        proof {
            assert forall|a0: u8, b0: u8, c0: u8, d0: u8|
                sv != #[trigger] ipv4_bytes(a0, b0, c0, d0) by {
                if sv == ipv4_bytes(a0, b0, c0, d0) {
                    lemma_ipv4_structure(sv, a0, b0, c0, d0);
                    lemma_scan_agrees(sv, 0, a, p1 as int, a0);
                    lemma_scan_agrees(sv, p1 + 1, b, p2 as int, b0);
                }
            }
        }
        return None;
    }
    let (c, p3) = r3.unwrap();
    if p3 >= len || bytes[p3] != 46 {
        proof {
            assert forall|a0: u8, b0: u8, c0: u8, d0: u8|
                sv != #[trigger] ipv4_bytes(a0, b0, c0, d0) by {
                if sv == ipv4_bytes(a0, b0, c0, d0) {
                    lemma_ipv4_structure(sv, a0, b0, c0, d0);
                    lemma_scan_agrees(sv, 0, a, p1 as int, a0);
                    lemma_scan_agrees(sv, p1 + 1, b, p2 as int, b0);
                    lemma_scan_agrees(sv, p2 + 1, c, p3 as int, c0);
                }
            }
        }
        return None;
    }

    let r4 = scan_octet(bytes, p3 + 1);
    if r4.is_none() {
        proof {
            assert forall|a0: u8, b0: u8, c0: u8, d0: u8|
                sv != #[trigger] ipv4_bytes(a0, b0, c0, d0) by {
                if sv == ipv4_bytes(a0, b0, c0, d0) {
                    lemma_ipv4_structure(sv, a0, b0, c0, d0);
                    lemma_scan_agrees(sv, 0, a, p1 as int, a0);
                    lemma_scan_agrees(sv, p1 + 1, b, p2 as int, b0);
                    lemma_scan_agrees(sv, p2 + 1, c, p3 as int, c0);
                }
            }
        }
        return None;
    }
    let (d, p4) = r4.unwrap();
    if p4 != len {
        proof {
            assert forall|a0: u8, b0: u8, c0: u8, d0: u8|
                sv != #[trigger] ipv4_bytes(a0, b0, c0, d0) by {
                if sv == ipv4_bytes(a0, b0, c0, d0) {
                    lemma_ipv4_structure(sv, a0, b0, c0, d0);
                    lemma_scan_agrees(sv, 0, a, p1 as int, a0);
                    lemma_scan_agrees(sv, p1 + 1, b, p2 as int, b0);
                    lemma_scan_agrees(sv, p2 + 1, c, p3 as int, c0);
                    lemma_scan_agrees(sv, p3 + 1, d, p4 as int, d0);
                }
            }
        }
        return None;
    }
    proof {
        assert(sv =~= sv.subrange(0, p1 as int) + seq![46u8] + sv.subrange(
            p1 + 1,
            p2 as int,
        ) + seq![46u8] + sv.subrange(p2 + 1, p3 as int) + seq![46u8] + sv.subrange(
            p3 + 1,
            p4 as int,
        ));
    }
    Some(Ipv4Addr { a, b, c, d })
}

/// Truncates a wire port to 16 bits, as the advertised socket uses it.
pub fn truncate_port(port: u32) -> (r: u16)
    ensures
        r == port % 0x10000,
{
    (port % 0x10000) as u16
}

/// Builds the heartbeat event from the relayer's answer about its ingress
/// sockets: both sockets must be present and their hosts must be canonical
/// IPv4 text; ports are truncated to 16 bits.  Each failure is the error the
/// session ends with.
pub fn heartbeat_event_from_configs(configs: &TpuConfigs) -> (r: Result<
    HeartbeatEvent,
    ProxyError,
>)
    ensures
        match r {
            Ok(ev) => {
                &&& configs.tpu matches Some(t) && ev.tpu.port == t.port % 0x10000
                    && text_bytes(t.ip@) == ipv4_bytes(
                    ev.tpu.ip.a,
                    ev.tpu.ip.b,
                    ev.tpu.ip.c,
                    ev.tpu.ip.d,
                )
                &&& configs.tpu_forward matches Some(f) && ev.tpu_forward.port == f.port
                    % 0x10000 && text_bytes(f.ip@) == ipv4_bytes(
                    ev.tpu_forward.ip.a,
                    ev.tpu_forward.ip.b,
                    ev.tpu_forward.ip.c,
                    ev.tpu_forward.ip.d,
                )
            },
            Err(e) => match e {
                ProxyError::MissingTpuSocket(w) => {
                    ||| (configs.tpu is None && w@ == "tpu"@)
                    ||| (configs.tpu is Some && configs.tpu_forward is None && w@ == "tpu_fwd"@)
                },
                ProxyError::BadSocketAddress(_) => configs.tpu is Some
                    && configs.tpu_forward is Some,
                _ => false,
            },
        },
        (r is Err && configs.tpu is Some && configs.tpu_forward is Some) ==> ((forall|
            a: u8,
            b: u8,
            c: u8,
            d: u8,
        |
            text_bytes(configs.tpu->Some_0.ip@) != #[trigger] ipv4_bytes(a, b, c, d)) || (
        forall|a: u8, b: u8, c: u8, d: u8|
            text_bytes(configs.tpu_forward->Some_0.ip@) != #[trigger] ipv4_bytes(a, b, c, d))),
{
    let tpu = match &configs.tpu {
        None => {
            return Err(ProxyError::MissingTpuSocket("tpu".to_owned()));
        },
        Some(t) => t,
    };
    let tpu_forward = match &configs.tpu_forward {
        None => {
            return Err(ProxyError::MissingTpuSocket("tpu_fwd".to_owned()));
        },
        Some(f) => f,
    };
    let tpu_ip = match parse_ipv4(tpu.ip.as_str()) {
        None => {
            return Err(ProxyError::BadSocketAddress("tpu".to_owned()));
        },
        Some(ip) => ip,
    };
    let tpu_forward_ip = match parse_ipv4(tpu_forward.ip.as_str()) {
        None => {
            return Err(ProxyError::BadSocketAddress("tpu_fwd".to_owned()));
        },
        Some(ip) => ip,
    };
    Ok(HeartbeatEvent {
        tpu: SocketAddr { ip: tpu_ip, port: truncate_port(tpu.port) },
        tpu_forward: SocketAddr { ip: tpu_forward_ip, port: truncate_port(tpu_forward.port) },
    })
}

} // verus!
