//! IPv4 addresses, as numbers of 32 bits, and IPv4 networks.

use std::str::FromStr;

use vstd::arithmetic::power2::*;
use vstd::prelude::*;

use crate::text;

verus! {

/// The four octets of an address, the highest first.
pub open spec fn octet(addr: u32, i: int) -> nat {
    if i == 0 {
        (addr / 0x100_0000) as nat
    } else if i == 1 {
        ((addr / 0x1_0000) % 256) as nat
    } else if i == 2 {
        ((addr / 0x100) % 256) as nat
    } else {
        (addr % 256) as nat
    }
}

/// The text of an address: its octets in decimal, with dots between them.
pub open spec fn address_text(addr: u32) -> Seq<char> {
    text::decimal(octet(addr, 0)) + seq!['.'] + text::decimal(octet(addr, 1)) + seq!['.']
        + text::decimal(octet(addr, 2)) + seq!['.'] + text::decimal(octet(addr, 3))
}

/// The address of which `s` is the text.
pub open spec fn address_of(s: Seq<char>) -> Option<u32> {
    if exists|addr: u32| s == address_text(addr) {
        Some(choose|addr: u32| s == address_text(addr))
    } else {
        None
    }
}

/// The text of an address.
pub fn to_text(addr: u32) -> (s: String)
    ensures
        s@ == address_text(addr),
{
    let mut s = text::decimal_text((addr / 0x100_0000) as u64);
    s.push('.');
    s.append(text::decimal_text(((addr / 0x1_0000) % 256) as u64).as_str());
    s.push('.');
    s.append(text::decimal_text(((addr / 0x100) % 256) as u64).as_str());
    s.push('.');
    s.append(text::decimal_text((addr % 256) as u64).as_str());
    assert(s@ == address_text(addr));
    s
}

/// Digits without a needless leading zero are the decimal notation of their value.
proof fn lemma_canonical(s: Seq<char>)
    requires
        s.len() > 0,
        text::all_digits(s),
        s.len() == 1 || s[0] != '0',
    ensures
        text::decimal_value(s) >= 0,
        s.len() > 1 ==> text::decimal_value(s) >= 10,
        s == text::decimal(text::decimal_value(s) as nat),
    decreases s.len(),
{
    let head = s.drop_last();
    let last = s.last();
    assert(text::is_digit(s[s.len() - 1]));
    if s.len() == 1 {
        reveal_with_fuel(text::decimal_value, 2);
        assert(head == Seq::<char>::empty());
        assert(s == seq![last]);
    } else {
        assert(text::all_digits(head)) by {
            assert forall|i: int| 0 <= i < head.len() implies text::is_digit(#[trigger] head[i]) by {
                assert(text::is_digit(s[i]));
            }
        }
        if head.len() == 1 {
            reveal_with_fuel(text::decimal_value, 2);
            assert(head.drop_last() == Seq::<char>::empty());
            assert(text::is_digit(s[0]));
            lemma_canonical(head);
            assert(text::decimal_value(head) == text::digit_value(s[0]));
            assert(text::decimal_value(head) >= 1);
        } else {
            lemma_canonical(head);
        }
        let v = text::decimal_value(head);
        assert(text::decimal_value(s) == v * 10 + text::digit_value(last));
        assert((v * 10 + text::digit_value(last)) / 10 == v);
        assert((v * 10 + text::digit_value(last)) % 10 == text::digit_value(last));
        assert(s == head.push(last));
    }
}

/// The digits of `s` from `i` to before `j` are the decimal notation of the octet `n`.
spec fn octet_at(s: Seq<char>, i: int, n: nat, j: int) -> bool {
    &&& n <= 255
    &&& text::run_ends(s, i, j)
    &&& s.subrange(i, j) == text::decimal(n)
}

/// The octet `n`, with a dot at `j` behind it.
spec fn dotted_at(s: Seq<char>, i: int, n: nat, j: int) -> bool {
    &&& octet_at(s, i, n, j)
    &&& j < s.len()
    &&& s[j] == '.'
}

/// At most one octet stands at a position.
proof fn lemma_octet_at(s: Seq<char>, i: int, m: nat, j: int, n: nat, k: int)
    requires
        octet_at(s, i, m, j),
        octet_at(s, i, n, k),
    ensures
        m == n,
        j == k,
{
    text::lemma_run_ends(s, i, j, k);
    text::lemma_decimal_injective(m, n);
}

/// Reads the octet at `i`. Returns it with the position behind it.
fn read_octet(s: &Vec<char>, i: usize) -> (r: Option<(u32, usize)>)
    requires
        i <= s.len(),
    ensures
        r matches Some((n, j)) ==> octet_at(s@, i as int, n as nat, j as int),
        r is None ==> forall|n: nat, j: int| !octet_at(s@, i as int, n, j),
{
    let mut j: usize = i;
    while j < s.len() && '0' <= s[j] && s[j] <= '9'
        invariant
            i <= j <= s.len(),
            text::all_digits(s@.subrange(i as int, j as int)),
        decreases s.len() - j,
    {
        proof {
            let run = s@.subrange(i as int, j as int);
            assert(s@.subrange(i as int, j + 1) == run.push(s@[j as int]));
        }
        j += 1;
    }
    let ghost run = s@.subrange(i as int, j as int);
    proof {
        assert forall|n: nat, k: int| octet_at(s@, i as int, n, k) implies {
            &&& 1 <= run.len() <= 3
            &&& run.len() == 1 || run[0] != '0'
            &&& text::decimal_value(run) == n
        } by {
            text::lemma_run_ends(s@, i as int, j as int, k);
            text::lemma_decimal(n);
            reveal_with_fuel(text::decimal, 4);
        }
    }
    if j == i || j - i > 3 || (j - i > 1 && s[i] == '0') {
        return None;
    }
    assert(text::is_digit(run[0]));
    assert(run[0] == s@[i as int]);
    proof {
        lemma_canonical(run);
    }
    match text::parse_u32(s, i, j) {
        Some(n) => {
            if n <= 255 {
                Some((n, j))
            } else {
                None
            }
        },
        None => None,
    }
}

/// Reads the octet at `i` and the dot behind it. Returns the octet with the position of the dot.
fn read_dotted(s: &Vec<char>, i: usize) -> (r: Option<(u32, usize)>)
    requires
        i <= s.len(),
    ensures
        r matches Some((n, j)) ==> j < s.len() && dotted_at(s@, i as int, n as nat, j as int),
        r is None ==> forall|n: nat, j: int| !dotted_at(s@, i as int, n, j),
{
    match read_octet(s, i) {
        Some((n, j)) => {
            proof {
                assert forall|m: nat, k: int| dotted_at(s@, i as int, m, k) implies k == j by {
                    lemma_octet_at(s@, i as int, m, k, n as nat, j as int);
                }
            }
            if j < s.len() && s[j] == '.' {
                Some((n, j))
            } else {
                None
            }
        },
        None => None,
    }
}

/// Where the octets and the dots of an address stand in its text.
proof fn lemma_address_layout(s: Seq<char>, addr: u32) -> (dots: (int, int, int))
    requires
        s == address_text(addr),
    ensures
        dotted_at(s, 0, octet(addr, 0), dots.0),
        dotted_at(s, dots.0 + 1, octet(addr, 1), dots.1),
        dotted_at(s, dots.1 + 1, octet(addr, 2), dots.2),
        octet_at(s, dots.2 + 1, octet(addr, 3), s.len() as int),
{
    let d0 = text::decimal(octet(addr, 0));
    let d1 = text::decimal(octet(addr, 1));
    let d2 = text::decimal(octet(addr, 2));
    let d3 = text::decimal(octet(addr, 3));
    let j0 = d0.len() as int;
    let j1 = j0 + 1 + d1.len();
    let j2 = j1 + 1 + d2.len();
    text::lemma_decimal(octet(addr, 0));
    text::lemma_decimal(octet(addr, 1));
    text::lemma_decimal(octet(addr, 2));
    text::lemma_decimal(octet(addr, 3));
    assert(s.subrange(0, j0) == d0);
    assert(s.subrange(j0 + 1, j1) == d1);
    assert(s.subrange(j1 + 1, j2) == d2);
    assert(s.subrange(j2 + 1, s.len() as int) == d3);
    (j0, j1, j2)
}

/// Octets and dots in their places make the text of an address.
proof fn lemma_address_of_octets(s: Seq<char>, addr: u32, j0: int, j1: int, j2: int)
    requires
        dotted_at(s, 0, octet(addr, 0), j0),
        dotted_at(s, j0 + 1, octet(addr, 1), j1),
        dotted_at(s, j1 + 1, octet(addr, 2), j2),
        octet_at(s, j2 + 1, octet(addr, 3), s.len() as int),
    ensures
        s == address_text(addr),
{
    assert(s == s.subrange(0, j0) + seq!['.'] + s.subrange(j0 + 1, j1) + seq!['.'] + s.subrange(
        j1 + 1,
        j2,
    ) + seq!['.'] + s.subrange(j2 + 1, s.len() as int));
}

/// An address is the number that its octets make.
proof fn lemma_octets(addr: u32)
    ensures
        addr == octet(addr, 0) * 0x100_0000 + octet(addr, 1) * 0x1_0000 + octet(addr, 2) * 0x100
            + octet(addr, 3),
{
}

/// No two addresses have the same text.
pub proof fn law_address_text_injective(a: u32, b: u32)
    requires
        address_text(a) == address_text(b),
    ensures
        a == b,
{
    let s = address_text(a);
    let i = lemma_address_layout(s, a);
    let j = lemma_address_layout(s, b);
    lemma_octet_at(s, 0, octet(a, 0), i.0, octet(b, 0), j.0);
    lemma_octet_at(s, i.0 + 1, octet(a, 1), i.1, octet(b, 1), j.1);
    lemma_octet_at(s, i.1 + 1, octet(a, 2), i.2, octet(b, 2), j.2);
    lemma_octet_at(s, i.2 + 1, octet(a, 3), s.len() as int, octet(b, 3), s.len() as int);
    lemma_octets(a);
    lemma_octets(b);
}

/// The text of an address is read back as that address.
pub proof fn law_address_round_trip(addr: u32)
    ensures
        address_of(address_text(addr)) == Some(addr),
{
    let s = address_text(addr);
    let other = choose|other: u32| s == address_text(other);
    law_address_text_injective(addr, other);
}

/// The address with the given octets.
fn join_octets(o0: u32, o1: u32, o2: u32, o3: u32) -> (addr: u32)
    requires
        o0 <= 255,
        o1 <= 255,
        o2 <= 255,
        o3 <= 255,
    ensures
        octet(addr, 0) == o0,
        octet(addr, 1) == o1,
        octet(addr, 2) == o2,
        octet(addr, 3) == o3,
{
    let addr: u32 = o0 * 0x100_0000 + o1 * 0x1_0000 + o2 * 0x100 + o3;
    assert(addr / 0x100_0000 == o0 && (addr / 0x1_0000) % 256 == o1 && (addr / 0x100) % 256 == o2
        && addr % 256 == o3) by (bit_vector)
        requires
            o0 <= 255,
            o1 <= 255,
            o2 <= 255,
            o3 <= 255,
            addr == o0 * 0x100_0000 + o1 * 0x1_0000 + o2 * 0x100 + o3,
    ;
    addr
}

/// The address that a text writes.
pub fn from_text(s: &str) -> (r: Option<u32>)
    ensures
        r == address_of(s@),
        r matches Some(addr) ==> s@ == address_text(addr),
        r is None ==> forall|addr: u32| s@ != #[trigger] address_text(addr),
{
    let r = read_address(&text::chars_of(s));
    proof {
        if let Some(addr) = r {
            law_address_round_trip(addr);
        }
    }
    r
}

/// The address of which `s` are the characters.
fn read_address(s: &Vec<char>) -> (r: Option<u32>)
    ensures
        r matches Some(addr) ==> s@ == address_text(addr),
        r is None ==> forall|addr: u32| s@ != #[trigger] address_text(addr),
{
    let (o0, j0) = match read_dotted(s, 0) {
        Some(found) => found,
        None => {
            proof {
                assert forall|addr: u32| s@ != #[trigger] address_text(addr) by {
                    if s@ == address_text(addr) {
                        let dots = lemma_address_layout(s@, addr);
                        assert(dotted_at(s@, 0, octet(addr, 0), dots.0));
                    }
                }
            }
            return None;
        },
    };
    let (o1, j1) = match read_dotted(s, j0 + 1) {
        Some(found) => found,
        None => {
            proof {
                assert forall|addr: u32| s@ != #[trigger] address_text(addr) by {
                    if s@ == address_text(addr) {
                        let dots = lemma_address_layout(s@, addr);
                        lemma_octet_at(s@, 0, octet(addr, 0), dots.0, o0 as nat, j0 as int);
                        assert(dotted_at(s@, j0 + 1, octet(addr, 1), dots.1));
                    }
                }
            }
            return None;
        },
    };
    let (o2, j2) = match read_dotted(s, j1 + 1) {
        Some(found) => found,
        None => {
            proof {
                assert forall|addr: u32| s@ != #[trigger] address_text(addr) by {
                    if s@ == address_text(addr) {
                        let dots = lemma_address_layout(s@, addr);
                        lemma_octet_at(s@, 0, octet(addr, 0), dots.0, o0 as nat, j0 as int);
                        lemma_octet_at(s@, j0 + 1, octet(addr, 1), dots.1, o1 as nat, j1 as int);
                        assert(dotted_at(s@, j1 + 1, octet(addr, 2), dots.2));
                    }
                }
            }
            return None;
        },
    };
    let last = read_octet(s, j2 + 1);
    proof {
        assert forall|addr: u32| s@ == #[trigger] address_text(addr) implies octet_at(
            s@,
            j2 + 1,
            octet(addr, 3),
            s@.len() as int,
        ) by {
            let dots = lemma_address_layout(s@, addr);
            lemma_octet_at(s@, 0, octet(addr, 0), dots.0, o0 as nat, j0 as int);
            lemma_octet_at(s@, j0 + 1, octet(addr, 1), dots.1, o1 as nat, j1 as int);
            lemma_octet_at(s@, j1 + 1, octet(addr, 2), dots.2, o2 as nat, j2 as int);
        }
    }
    match last {
        Some((o3, end)) => {
            if end != s.len() {
                proof {
                    assert forall|addr: u32| s@ != #[trigger] address_text(addr) by {
                        if s@ == address_text(addr) {
                            lemma_octet_at(
                                s@,
                                j2 + 1,
                                octet(addr, 3),
                                s@.len() as int,
                                o3 as nat,
                                end as int,
                            );
                        }
                    }
                }
                return None;
            }
            let addr = join_octets(o0, o1, o2, o3);
            proof {
                lemma_address_of_octets(s@, addr, j0 as int, j1 as int, j2 as int);
            }
            Some(addr)
        },
        None => None,
    }
}

/// How many addresses a network of the given prefix length has.
pub open spec fn host_count(prefix_len: u8) -> nat {
    pow2((32 - prefix_len) as nat)
}

/// The netmask of a prefix length: as many ones, then zeros.
pub open spec fn netmask(prefix_len: u8) -> u32 {
    (0x1_0000_0000 - host_count(prefix_len)) as u32
}

/// The network part of an address: its first `prefix_len` bits, then zeros.
pub open spec fn network_part(addr: u32, prefix_len: u8) -> u32 {
    (addr - addr as int % host_count(prefix_len) as int) as u32
}

/// A network has between one address and all of them.
proof fn lemma_host_count(prefix_len: u8)
    requires
        prefix_len <= 32,
    ensures
        1 <= host_count(prefix_len) <= 0x1_0000_0000,
        prefix_len > 0 ==> 1u32 << (32 - prefix_len) as u32 == host_count(prefix_len),
        prefix_len == 0 ==> host_count(prefix_len) == 0x1_0000_0000,
{
    let shift = (32 - prefix_len) as nat;
    lemma_pow2_pos(shift);
    lemma2_to64();
    if prefix_len > 0 {
        if shift < 31 {
            lemma_pow2_strictly_increases(shift, 31);
        }
        vstd::bits::lemma_u32_shl_is_mul(1, shift as u32);
    }
}

/// The netmask of a prefix length.
pub fn prefix_to_netmask(prefix_len: u8) -> (mask: u32)
    requires
        prefix_len <= 32,
    ensures
        mask == netmask(prefix_len),
        mask == 0x1_0000_0000 - host_count(prefix_len),
{
    proof {
        lemma_host_count(prefix_len);
    }
    if prefix_len == 0 {
        0
    } else {
        let shift: u32 = (32 - prefix_len) as u32;
        assert((0xffff_ffffu32 << shift) + (1u32 << shift) == 0x1_0000_0000) by (bit_vector)
            requires
                shift < 32,
        ;
        0xffff_ffffu32 << shift
    }
}

/// An IPv4 network: an address in it and the length of its prefix.
#[derive(Debug, Clone, Copy, PartialEq, Eq, Structural)]
pub struct Ipv4Network {
    pub addr: u32,
    pub prefix_len: u8,
}

impl Ipv4Network {
    /// The prefix is no longer than an address.
    pub open spec fn wf(self) -> bool {
        self.prefix_len <= 32
    }
}

/// `ipnet::AddrParseError`: a text is no network.
#[verifier::external_type_specification]
#[verifier::external_body]
pub struct ExAddrParseError(ipnet::AddrParseError);

/// `ipnet::PrefixLenError`: a prefix is longer than an address.
#[verifier::external_type_specification]
#[verifier::external_body]
pub struct ExPrefixLenError(ipnet::PrefixLenError);

/// One to `most` digits of a value of at most `max`.
pub open spec fn is_number(s: Seq<char>, most: nat, max: int) -> bool {
    &&& 1 <= s.len() <= most
    &&& text::all_digits(s)
    &&& text::decimal_value(s) <= max
}

/// `s` consists of four numbers with dots between them, a slash and the length of a prefix.
pub open spec fn network_parts(
    s: Seq<char>,
    a: Seq<char>,
    b: Seq<char>,
    c: Seq<char>,
    d: Seq<char>,
    p: Seq<char>,
) -> bool {
    &&& is_number(a, 3, 255)
    &&& is_number(b, 3, 255)
    &&& is_number(c, 3, 255)
    &&& is_number(d, 3, 255)
    &&& is_number(p, 2, 32)
    &&& s == a + seq!['.'] + b + seq!['.'] + c + seq!['.'] + d + seq!['/'] + p
}

/// `s` writes the network `net`. The numbers may have leading zeros.
pub open spec fn writes_network(s: Seq<char>, net: Ipv4Network) -> bool {
    exists|a: Seq<char>, b: Seq<char>, c: Seq<char>, d: Seq<char>, p: Seq<char>|
        {
            &&& #[trigger] network_parts(s, a, b, c, d, p)
            &&& net.addr == text::decimal_value(a) * 0x100_0000 + text::decimal_value(b) * 0x1_0000
                + text::decimal_value(c) * 0x100 + text::decimal_value(d)
            &&& net.prefix_len == text::decimal_value(p)
        }
}

/// `ipnet::Ipv4Net::from_str` reads four numbers with dots between them, a slash and the length of
/// a prefix. It refuses every other text.
#[verifier::external_body]
pub(crate) fn read_network(s: &str) -> (r: Result<Ipv4Network, ipnet::AddrParseError>)
    ensures
        r matches Ok(net) ==> writes_network(s@, net),
        r is Err ==> forall|net: Ipv4Network| !writes_network(s@, net),
{
    match ipnet::Ipv4Net::from_str(s) {
        Ok(net) => Ok(Ipv4Network { addr: net.addr().into(), prefix_len: net.prefix_len() }),
        Err(error) => Err(error),
    }
}

/// `ipnet::Ipv4Net::new` refuses a prefix of more than 32 bits; `ipnet::Ipv4Net::network` clears
/// the bits of the address behind the prefix.
#[verifier::external_body]
pub(crate) fn network_address(net: Ipv4Network) -> (r: Result<u32, ipnet::PrefixLenError>)
    ensures
        r is Err <==> !net.wf(),
        r matches Ok(addr) ==> addr == network_part(net.addr, net.prefix_len),
{
    match ipnet::Ipv4Net::new(net.addr.into(), net.prefix_len) {
        Ok(net) => Ok(net.network().into()),
        Err(error) => Err(error),
    }
}

/// The `Display` form of `ipnet::AddrParseError` is a fixed text.
#[verifier::external_body]
pub(crate) fn addr_parse_error_text(error: &ipnet::AddrParseError) -> (s: String)
    ensures
        s@ == "invalid IP address syntax"@,
{
    error.to_string()
}

/// The `Display` form of `ipnet::PrefixLenError` is a fixed text.
#[verifier::external_body]
pub(crate) fn prefix_len_error_text(error: &ipnet::PrefixLenError) -> (s: String)
    ensures
        s@ == "invalid IP prefix length"@,
{
    error.to_string()
}

/// The parts of a network's text are where the runs of digits are.
proof fn lemma_network_layout(
    s: Seq<char>,
    a: Seq<char>,
    b: Seq<char>,
    c: Seq<char>,
    d: Seq<char>,
    p: Seq<char>,
)
    requires
        network_parts(s, a, b, c, d, p),
    ensures
        ({
            let j0 = a.len() as int;
            let j1 = j0 + 1 + b.len();
            let j2 = j1 + 1 + c.len();
            let j3 = j2 + 1 + d.len();
            &&& text::run_ends(s, 0, j0) && s.subrange(0, j0) == a
            &&& text::run_ends(s, j0 + 1, j1) && s.subrange(j0 + 1, j1) == b
            &&& text::run_ends(s, j1 + 1, j2) && s.subrange(j1 + 1, j2) == c
            &&& text::run_ends(s, j2 + 1, j3) && s.subrange(j2 + 1, j3) == d
            &&& text::run_ends(s, j3 + 1, s.len() as int) && s.subrange(j3 + 1, s.len() as int) == p
        }),
{
    let j0 = a.len() as int;
    let j1 = j0 + 1 + b.len();
    let j2 = j1 + 1 + c.len();
    let j3 = j2 + 1 + d.len();
    assert(s.subrange(0, j0) == a);
    assert(s.subrange(j0 + 1, j1) == b);
    assert(s.subrange(j1 + 1, j2) == c);
    assert(s.subrange(j2 + 1, j3) == d);
    assert(s.subrange(j3 + 1, s.len() as int) == p);
}

/// A text writes at most one network.
pub proof fn law_network_text_unambiguous(s: Seq<char>, m: Ipv4Network, n: Ipv4Network)
    requires
        writes_network(s, m),
        writes_network(s, n),
    ensures
        m == n,
{
    let (a, b, c, d, p) = choose|
        a: Seq<char>,
        b: Seq<char>,
        c: Seq<char>,
        d: Seq<char>,
        p: Seq<char>,
    |
        {
            &&& #[trigger] network_parts(s, a, b, c, d, p)
            &&& m.addr == text::decimal_value(a) * 0x100_0000 + text::decimal_value(b) * 0x1_0000
                + text::decimal_value(c) * 0x100 + text::decimal_value(d)
            &&& m.prefix_len == text::decimal_value(p)
        };
    let (e, f, g, h, q) = choose|
        a: Seq<char>,
        b: Seq<char>,
        c: Seq<char>,
        d: Seq<char>,
        p: Seq<char>,
    |
        {
            &&& #[trigger] network_parts(s, a, b, c, d, p)
            &&& n.addr == text::decimal_value(a) * 0x100_0000 + text::decimal_value(b) * 0x1_0000
                + text::decimal_value(c) * 0x100 + text::decimal_value(d)
            &&& n.prefix_len == text::decimal_value(p)
        };
    lemma_network_layout(s, a, b, c, d, p);
    lemma_network_layout(s, e, f, g, h, q);
    let j0 = a.len() as int;
    text::lemma_run_ends(s, 0, j0, e.len() as int);
    let j1 = j0 + 1 + b.len();
    text::lemma_run_ends(s, j0 + 1, j1, j0 + 1 + f.len());
    let j2 = j1 + 1 + c.len();
    text::lemma_run_ends(s, j1 + 1, j2, j1 + 1 + g.len());
    let j3 = j2 + 1 + d.len();
    text::lemma_run_ends(s, j2 + 1, j3, j2 + 1 + h.len());
}

/// The usual text of a network, its address and its prefix length with a slash between them,
/// writes that network.
pub proof fn law_network_text(net: Ipv4Network)
    requires
        net.wf(),
    ensures
        writes_network(
            address_text(net.addr) + seq!['/'] + text::decimal(net.prefix_len as nat),
            net,
        ),
{
    let s = address_text(net.addr) + seq!['/'] + text::decimal(net.prefix_len as nat);
    let a = text::decimal(octet(net.addr, 0));
    let b = text::decimal(octet(net.addr, 1));
    let c = text::decimal(octet(net.addr, 2));
    let d = text::decimal(octet(net.addr, 3));
    let p = text::decimal(net.prefix_len as nat);
    text::lemma_decimal(octet(net.addr, 0));
    text::lemma_decimal(octet(net.addr, 1));
    text::lemma_decimal(octet(net.addr, 2));
    text::lemma_decimal(octet(net.addr, 3));
    text::lemma_decimal(net.prefix_len as nat);
    lemma_decimal_len(octet(net.addr, 0));
    lemma_decimal_len(octet(net.addr, 1));
    lemma_decimal_len(octet(net.addr, 2));
    lemma_decimal_len(octet(net.addr, 3));
    lemma_decimal_len(net.prefix_len as nat);
    lemma_octets(net.addr);
    assert(network_parts(s, a, b, c, d, p));
}

/// A number below a thousand has at most three digits, one below a hundred at most two.
proof fn lemma_decimal_len(n: nat)
    requires
        n < 1000,
    ensures
        text::decimal(n).len() <= 3,
        n < 100 ==> text::decimal(n).len() <= 2,
{
    reveal_with_fuel(text::decimal, 4);
}

/// The network part of an address is the address under its netmask.
pub proof fn law_network_part_is_masked(addr: u32, prefix_len: u8)
    requires
        prefix_len <= 32,
    ensures
        network_part(addr, prefix_len) == addr & netmask(prefix_len),
{
    lemma_host_count(prefix_len);
    if prefix_len == 0 {
        assert(addr & 0 == 0) by (bit_vector);
        assert(addr as int % 0x1_0000_0000 == addr);
    } else {
        let shift: u32 = (32 - prefix_len) as u32;
        let size: u32 = 1u32 << shift;
        let mask: u32 = 0xffff_ffffu32 << shift;
        let high: u32 = addr >> shift;
        assert(mask + size == 0x1_0000_0000 && addr & mask == high << shift) by (bit_vector)
            requires
                shift < 32,
                size == 1u32 << shift,
                mask == 0xffff_ffffu32 << shift,
                high == addr >> shift,
        ;
        vstd::bits::lemma_u32_shr_is_div(addr, shift);
        vstd::arithmetic::div_mod::lemma_fundamental_div_mod(addr as int, size as int);
        vstd::arithmetic::div_mod::lemma_mod_bound(addr as int, size as int);
        vstd::arithmetic::mul::lemma_mul_is_commutative(size as int, high as int);
        vstd::bits::lemma_u32_shl_is_mul(high, shift);
        assert(netmask(prefix_len) == mask);
    }
}

/// A longer prefix has a greater netmask, so that no two prefix lengths have the same.
pub proof fn law_netmask_increases(shorter: u8, longer: u8)
    requires
        shorter < longer <= 32,
    ensures
        netmask(shorter) < netmask(longer),
{
    lemma_host_count(shorter);
    lemma_host_count(longer);
    lemma_pow2_strictly_increases((32 - longer) as nat, (32 - shorter) as nat);
}

/// The network part of an address is the first address of the block of [`host_count`] addresses
/// that it lies in, and is its own network part.
pub proof fn law_network_part_is_first(addr: u32, prefix_len: u8)
    requires
        prefix_len <= 32,
    ensures
        network_part(addr, prefix_len) <= addr < network_part(addr, prefix_len) + host_count(
            prefix_len,
        ),
        network_part(network_part(addr, prefix_len), prefix_len) == network_part(addr, prefix_len),
{
    lemma_host_count(prefix_len);
    let size = host_count(prefix_len) as int;
    let a = addr as int;
    vstd::arithmetic::div_mod::lemma_fundamental_div_mod(a, size);
    vstd::arithmetic::div_mod::lemma_mod_bound(a, size);
    vstd::arithmetic::mul::lemma_mul_nonnegative(size, a / size);
    vstd::arithmetic::div_mod::lemma_mod_multiples_basic(a / size, size);
    vstd::arithmetic::mul::lemma_mul_is_commutative(size, a / size);
}

/// An address is written as its four octets in decimal, with dots between them.
pub proof fn law_address_text(a: u8, b: u8, c: u8, d: u8)
    ensures
        address_text((a * 0x100_0000 + b * 0x1_0000 + c * 0x100 + d) as u32) == text::decimal(
            a as nat,
        ) + seq!['.'] + text::decimal(b as nat) + seq!['.'] + text::decimal(c as nat) + seq!['.']
            + text::decimal(d as nat),
{
    let addr = (a * 0x100_0000 + b * 0x1_0000 + c * 0x100 + d) as u32;
    assert(addr == a * 0x100_0000 + b * 0x1_0000 + c * 0x100 + d);
    assert(addr / 0x100_0000 == a && (addr / 0x1_0000) % 256 == b && (addr / 0x100) % 256 == c && addr
        % 256 == d) by (bit_vector)
        requires
            addr == a * 0x100_0000 + b * 0x1_0000 + c * 0x100 + d,
    ;
}

/// A text is read as an address exactly if it is the text of that address.
pub proof fn law_address_is_read(s: Seq<char>, addr: u32)
    ensures
        address_of(s) == Some(addr) <==> s == address_text(addr),
        address_of(s) is None <==> forall|other: u32| s != #[trigger] address_text(other),
{
    if s == address_text(addr) {
        law_address_round_trip(addr);
    }
    if address_of(s) is Some {
        let other = choose|other: u32| s == address_text(other);
        assert(s == address_text(other));
    }
}

/// The netmask of a prefix length is all ones, shifted out of the way of the bits behind the prefix.
pub proof fn law_netmask_is_shifted(prefix_len: u8)
    requires
        prefix_len <= 32,
    ensures
        prefix_len == 0 ==> netmask(prefix_len) == 0,
        prefix_len > 0 ==> netmask(prefix_len) == 0xffff_ffffu32 << (32 - prefix_len) as u32,
        prefix_len == 32 ==> netmask(prefix_len) == 0xffff_ffff,
{
    lemma_host_count(prefix_len);
    if prefix_len > 0 {
        let shift: u32 = (32 - prefix_len) as u32;
        assert((0xffff_ffffu32 << shift) + (1u32 << shift) == 0x1_0000_0000) by (bit_vector)
            requires
                shift < 32,
        ;
        assert(0xffff_ffffu32 << 0u32 == 0xffff_ffff) by (bit_vector);
    }
}

/// A network whose prefix is the whole address has one address; one bit less makes twice as many.
pub proof fn law_host_count(prefix_len: u8)
    requires
        prefix_len < 32,
    ensures
        host_count(32) == 1,
        host_count(prefix_len) == 2 * host_count((prefix_len + 1) as u8),
{
    lemma2_to64();
    lemma_pow2_unfold((32 - prefix_len) as nat);
}

/// What a text writes is a valid network, and the text has three dots and a slash in it.
pub proof fn law_written_network_is_valid(s: Seq<char>, net: Ipv4Network)
    requires
        writes_network(s, net),
    ensures
        net.wf(),
        s.contains('.'),
        s.contains('/'),
        s.len() <= 18,
{
    let (a, b, c, d, p) = choose|
        a: Seq<char>,
        b: Seq<char>,
        c: Seq<char>,
        d: Seq<char>,
        p: Seq<char>,
    |
        {
            &&& #[trigger] network_parts(s, a, b, c, d, p)
            &&& net.addr == text::decimal_value(a) * 0x100_0000 + text::decimal_value(b) * 0x1_0000
                + text::decimal_value(c) * 0x100 + text::decimal_value(d)
            &&& net.prefix_len == text::decimal_value(p)
        };
    assert(s[a.len() as int] == '.');
    assert(s[s.len() - p.len() - 1] == '/');
}

/// A network is valid exactly if its prefix has at most 32 bits.
pub proof fn law_network_validity(net: Ipv4Network)
    ensures
        net.wf() <==> net.prefix_len <= 32,
{
}

} // verus!
