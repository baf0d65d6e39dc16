//! Socket addresses as plain values.
use vstd::prelude::*;

use crate::text::{concat2, concat3, decimal, decimal_text, digit_char};

verus! {

/// An IP address: four octets (IPv4) or eight 16-bit segments (IPv6).
#[derive(Clone, Copy, Debug)]
pub enum IpAddress {
    V4([u8; 4]),
    V6([u16; 8]),
}

/// An IP address and a port; an IPv6 socket address also carries its flow
/// information and scope id (both 0 for IPv4).
#[derive(Clone, Copy, Debug)]
pub struct SocketAddress {
    pub ip: IpAddress,
    pub port: u16,
    pub flowinfo: u32,
    pub scope_id: u32,
}

impl IpAddress {
    /// A loopback address: `127.0.0.0/8` for IPv4, `::1` for IPv6.
    pub open spec fn spec_is_loopback(self) -> bool {
        match self {
            IpAddress::V4(o) => o@[0] == 127,
            IpAddress::V6(s) => s@ == seq![0u16, 0, 0, 0, 0, 0, 0, 1],
        }
    }

    /// Whether the address is a loopback address.
    pub fn is_loopback(&self) -> (b: bool)
        ensures
            b == self.spec_is_loopback(),
    {
        match self {
            IpAddress::V4(o) => o[0] == 127,
            IpAddress::V6(s) => {
                let r = s[0] == 0 && s[1] == 0 && s[2] == 0 && s[3] == 0 && s[4] == 0 && s[5] == 0
                    && s[6] == 0 && s[7] == 1;
                assert(r == (s@ =~= seq![0u16, 0, 0, 0, 0, 0, 0, 1]));
                r
            },
        }
    }
}

/// Lower-case hexadecimal digit for `d` (meaningful for `d < 16`).
pub open spec fn hex_digit(d: nat) -> char {
    if d < 10 {
        digit_char(d)
    } else if d == 10 {
        'a'
    } else if d == 11 {
        'b'
    } else if d == 12 {
        'c'
    } else if d == 13 {
        'd'
    } else if d == 14 {
        'e'
    } else {
        'f'
    }
}

/// Lower-case hexadecimal text of `n` without leading zeros.
pub open spec fn hex(n: nat) -> Seq<char>
    decreases n,
{
    if n < 16 {
        seq![hex_digit(n)]
    } else {
        hex(n / 16).push(hex_digit(n % 16))
    }
}

/// Segments in hexadecimal, separated by `:`.
pub open spec fn join_hex(s: Seq<u16>) -> Seq<char>
    decreases s.len(),
{
    if s.len() == 0 {
        Seq::empty()
    } else if s.len() == 1 {
        hex(s[0] as nat)
    } else {
        join_hex(s.drop_last()) + ":"@ + hex(s.last() as nat)
    }
}

/// Number of consecutive zero segments starting at `i`.
pub open spec fn zero_run(s: Seq<u16>, i: int) -> nat
    decreases s.len() - i,
{
    if 0 <= i < s.len() && s[i] == 0 {
        1 + zero_run(s, i + 1)
    } else {
        0
    }
}

/// The longest zero run starting before index `i`.
pub open spec fn longest_run_before(s: Seq<u16>, i: int) -> nat
    decreases i,
{
    if i <= 0 {
        0
    } else {
        let m = longest_run_before(s, i - 1);
        let r = zero_run(s, i - 1);
        if r > m { r } else { m }
    }
}

/// The first index (before `i`) at which a zero run of length `len` starts;
/// `i` when there is none.
pub open spec fn first_run_of(s: Seq<u16>, len: nat, i: int) -> int
    decreases i,
{
    if i <= 0 {
        0
    } else if first_run_of(s, len, i - 1) < i - 1 {
        first_run_of(s, len, i - 1)
    } else if zero_run(s, i - 1) == len {
        i - 1
    } else {
        i
    }
}

/// The IPv4 address an IPv4-mapped IPv6 address (`::ffff:a.b.c.d`) stands for.
pub open spec fn is_ipv4_mapped(s: Seq<u16>) -> bool {
    s.len() == 8 && s.subrange(0, 6) == seq![0u16, 0, 0, 0, 0, 0xffff]
}

/// Dotted-decimal text of the four octets of two 16-bit segments.
pub open spec fn dotted_pair(hi: u16, lo: u16) -> Seq<char> {
    decimal((hi / 256) as nat) + "."@ + decimal((hi % 256) as nat) + "."@ + decimal((lo / 256) as nat)
        + "."@ + decimal((lo % 256) as nat)
}

/// The text `std::net::Ipv6Addr` displays for these segments: an IPv4-mapped
/// address as `::ffff:a.b.c.d`; otherwise the segments in lower-case
/// hexadecimal separated by `:`, the first of the longest runs of two or more
/// zero segments replaced by `::`.
pub open spec fn ipv6_text(s: Seq<u16>) -> Seq<char> {
    if is_ipv4_mapped(s) {
        "::ffff:"@ + dotted_pair(s[6], s[7])
    } else {
        let len = longest_run_before(s, s.len() as int);
        if len > 1 {
            let start = first_run_of(s, len, s.len() as int);
            join_hex(s.subrange(0, start)) + "::"@ + join_hex(s.subrange(start + len, s.len() as int))
        } else {
            join_hex(s)
        }
    }
}

proof fn lemma_zero_run_bound(s: Seq<u16>, i: int)
    requires
        0 <= i <= s.len(),
    ensures
        zero_run(s, i) <= s.len() - i,
    decreases s.len() - i,
{
    if i < s.len() {
        lemma_zero_run_bound(s, i + 1);
    }
}

proof fn lemma_longest_bounds(s: Seq<u16>, i: int)
    requires
        0 <= i,
    ensures
        forall|j: int| 0 <= j < i ==> zero_run(s, j) <= longest_run_before(s, i),
    decreases i,
{
    if i > 0 {
        lemma_longest_bounds(s, i - 1);
    }
}

proof fn lemma_first_run_range(s: Seq<u16>, len: nat, i: int)
    requires
        0 <= i,
    ensures
        0 <= first_run_of(s, len, i) <= i,
        first_run_of(s, len, i) < i ==> zero_run(s, first_run_of(s, len, i)) == len,
        (forall|j: int| 0 <= j < i ==> zero_run(s, j) != len) ==> first_run_of(s, len, i) == i,
    decreases i,
{
    if i > 0 {
        lemma_first_run_range(s, len, i - 1);
    }
}

fn hex_digit_text(d: u64) -> (s: &'static str)
    requires
        d < 16,
    ensures
        s@ == seq![hex_digit(d as nat)],
{
    proof {
        reveal_strlit("0");
        reveal_strlit("1");
        reveal_strlit("2");
        reveal_strlit("3");
        reveal_strlit("4");
        reveal_strlit("5");
        reveal_strlit("6");
        reveal_strlit("7");
        reveal_strlit("8");
        reveal_strlit("9");
        reveal_strlit("a");
        reveal_strlit("b");
        reveal_strlit("c");
        reveal_strlit("d");
        reveal_strlit("e");
        reveal_strlit("f");
    }
    if d == 0 { "0" }
    else if d == 1 { "1" }
    else if d == 2 { "2" }
    else if d == 3 { "3" }
    else if d == 4 { "4" }
    else if d == 5 { "5" }
    else if d == 6 { "6" }
    else if d == 7 { "7" }
    else if d == 8 { "8" }
    else if d == 9 { "9" }
    else if d == 10 { "a" }
    else if d == 11 { "b" }
    else if d == 12 { "c" }
    else if d == 13 { "d" }
    else if d == 14 { "e" }
    else { "f" }
}

fn hex_text(n: u64) -> (s: String)
    ensures
        s@ == hex(n as nat),
    decreases n,
{
    if n < 16 {
        String::from_str(hex_digit_text(n))
    } else {
        let mut s = hex_text(n / 16);
        s.append(hex_digit_text(n % 16));
        s
    }
}

fn join_hex_text(s: &[u16; 8], from: usize, to: usize) -> (r: String)
    requires
        from <= to <= 8,
    ensures
        r@ == join_hex(s@.subrange(from as int, to as int)),
{
    proof {
        reveal_strlit(":");
    }
    let mut r = String::new();
    let mut i = from;
    assert(s@.subrange(from as int, from as int) =~= Seq::<u16>::empty());
    while i < to
        invariant
            from <= i <= to <= 8,
            r@ == join_hex(s@.subrange(from as int, i as int)),
        decreases to - i,
    {
        let h = hex_text(s[i] as u64);
        let ghost prev = s@.subrange(from as int, i as int);
        let ghost next = s@.subrange(from as int, i + 1);
        assert(next.drop_last() =~= prev);
        if i > from {
            r.append(":");
        }
        r.append(h.as_str());
        i = i + 1;
    }
    r
}

fn zero_run_at(s: &[u16; 8], i: usize) -> (n: usize)
    requires
        i <= 8,
    ensures
        n == zero_run(s@, i as int),
        n <= 8 - i,
    decreases 8 - i,
{
    if i < 8 && s[i] == 0 {
        1 + zero_run_at(s, i + 1)
    } else {
        0
    }
}

fn ipv6_to_text(s: [u16; 8]) -> (r: String)
    ensures
        r@ == ipv6_text(s@),
{
    proof {
        reveal_strlit("::ffff:");
        reveal_strlit("::");
        reveal_strlit(".");
    }
    if s[0] == 0 && s[1] == 0 && s[2] == 0 && s[3] == 0 && s[4] == 0 && s[5] == 0xffff {
        assert(is_ipv4_mapped(s@)) by {
            assert(s@.subrange(0, 6) =~= seq![0u16, 0, 0, 0, 0, 0xffff]);
        }
        let a = decimal_text((s[6] / 256) as u64);
        let b = decimal_text((s[6] % 256) as u64);
        let c = decimal_text((s[7] / 256) as u64);
        let d = decimal_text((s[7] % 256) as u64);
        let t = concat3("::ffff:", a.as_str(), ".");
        let t = concat3(t.as_str(), b.as_str(), ".");
        let t = concat3(t.as_str(), c.as_str(), ".");
        return concat2(t.as_str(), d.as_str());
    }
    assert(!is_ipv4_mapped(s@)) by {
        if is_ipv4_mapped(s@) {
            assert(s@.subrange(0, 6)[5] == 0xffff);
            assert(s@.subrange(0, 6)[0] == 0);
            assert(s@.subrange(0, 6)[1] == 0);
            assert(s@.subrange(0, 6)[2] == 0);
            assert(s@.subrange(0, 6)[3] == 0);
            assert(s@.subrange(0, 6)[4] == 0);
        }
    }
    let mut best_len: usize = 0;
    let mut best_start: usize = 0;
    let mut i: usize = 0;
    while i < 8
        invariant
            i <= 8,
            best_len == longest_run_before(s@, i as int),
            best_len <= 8,
            best_start == first_run_of(s@, best_len as nat, i as int) || best_len == 0,
            best_len > 0 ==> best_start < i,
        decreases 8 - i,
    {
        let r = zero_run_at(&s, i);
        proof {
            lemma_longest_bounds(s@, i as int);
            lemma_first_run_range(s@, r as nat, i as int);
        }
        if r > best_len {
            best_len = r;
            best_start = i;
        }
        i = i + 1;
    }
    proof {
        if best_len > 1 {
            lemma_first_run_range(s@, best_len as nat, 8);
            lemma_zero_run_bound(s@, best_start as int);
        }
    }
    if best_len > 1 {
        let left = join_hex_text(&s, 0, best_start);
        let right = join_hex_text(&s, best_start + best_len, 8);
        concat3(left.as_str(), "::", right.as_str())
    } else {
        assert(s@.subrange(0, 8) =~= s@);
        join_hex_text(&s, 0, 8)
    }
}

/// The text of a socket address as `std::net::SocketAddr` displays it:
/// `a.b.c.d:port` for IPv4, `[segments]:port` for IPv6, and
/// `[segments%scope]:port` for IPv6 with a nonzero scope id.
pub open spec fn socket_text(a: SocketAddress) -> Seq<char> {
    match a.ip {
        IpAddress::V4(o) => decimal(o@[0] as nat) + "."@ + decimal(o@[1] as nat) + "."@ + decimal(
            o@[2] as nat,
        ) + "."@ + decimal(o@[3] as nat) + ":"@ + decimal(a.port as nat),
        IpAddress::V6(s) => if a.scope_id == 0 {
            "["@ + ipv6_text(s@) + "]:"@ + decimal(a.port as nat)
        } else {
            "["@ + ipv6_text(s@) + "%"@ + decimal(a.scope_id as nat) + "]:"@ + decimal(
                a.port as nat,
            )
        },
    }
}

impl SocketAddress {
    /// `127.0.0.1:0`
    pub fn localhost_unbound() -> (a: Self)
        ensures
            a.ip == IpAddress::V4([127u8, 0, 0, 1]),
            a.ip matches IpAddress::V4(o) && o@ == seq![127u8, 0, 0, 1],
            a.port == 0,
            a.flowinfo == 0,
            a.scope_id == 0,
    {
        let a = SocketAddress { ip: IpAddress::V4([127u8, 0, 0, 1]), port: 0, flowinfo: 0, scope_id: 0 };
        proof {
            if let IpAddress::V4(o) = a.ip {
                assert(o@ =~= seq![127u8, 0, 0, 1]);
            }
        }
        a
    }

    /// The address as text (`Display` of `std::net::SocketAddr`).
    pub fn to_text(&self) -> (s: String)
        ensures
            s@ == socket_text(*self),
    {
        proof {
            reveal_strlit(".");
            reveal_strlit(":");
            reveal_strlit("[");
            reveal_strlit("]:");
            reveal_strlit("%");
        }
        let port = decimal_text(self.port as u64);
        match self.ip {
            IpAddress::V4(o) => {
                let a = decimal_text(o[0] as u64);
                let b = decimal_text(o[1] as u64);
                let c = decimal_text(o[2] as u64);
                let d = decimal_text(o[3] as u64);
                let s = concat3(a.as_str(), ".", b.as_str());
                let s = concat3(s.as_str(), ".", c.as_str());
                let s = concat3(s.as_str(), ".", d.as_str());
                concat3(s.as_str(), ":", port.as_str())
            },
            IpAddress::V6(seg) => {
                let t = ipv6_to_text(seg);
                let t = if self.scope_id == 0 {
                    t
                } else {
                    let scope = decimal_text(self.scope_id as u64);
                    concat3(t.as_str(), "%", scope.as_str())
                };
                let s = concat3("[", t.as_str(), "]:");
                let r = String::from_str(s.as_str());
                r.concat(port.as_str())
            },
        }
    }
}

} // verus!
