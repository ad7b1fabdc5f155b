//! Where devices are looked for, and how what answers is recognised.
use crate::domain::{
    DeviceSummary, DeviceSummaryView, TransportKind, DEFAULT_DEVICE_HOST, USB_FALLBACK_ADDR,
};
use crate::errors::RustProviderError;
use crate::http::{is_success, Sent};
use crate::json::{json_value, member, value_text, JsonView};
use crate::numbers::{decimal, number_text, parse_number, parsed_number};
use crate::order::{increasing, insert_ordered};
use crate::provider::RustNativeProvider;
use crate::text::{
    begins, cat2, cat3, cat4, contains, is_blank, join, joined, lowered, occurs, pieces, same,
    split, starts_with, texts, to_lower, trim, trimmed,
};
use vstd::prelude::*;
use vstd::string::*;

verus! {

/// Byte `i` of an IPv4 address, counted from the left.
pub open spec fn octet(ip: u32, i: int) -> u8 {
    if i == 0 {
        (ip / 16777216) as u8
    } else if i == 1 {
        (ip / 65536 % 256) as u8
    } else if i == 2 {
        (ip / 256 % 256) as u8
    } else {
        (ip % 256) as u8
    }
}

/// An IPv4 address in dotted form.
pub open spec fn dotted(ip: u32) -> Seq<char> {
    decimal(octet(ip, 0) as nat) + "."@ + decimal(octet(ip, 1) as nat) + "."@ + decimal(
        octet(ip, 2) as nat,
    ) + "."@ + decimal(octet(ip, 3) as nat)
}

/// The four bytes of an IPv4 address.
pub fn octets(ip: u32) -> (r: (u8, u8, u8, u8))
    ensures
        r.0 == octet(ip, 0),
        r.1 == octet(ip, 1),
        r.2 == octet(ip, 2),
        r.3 == octet(ip, 3),
{
    (
        (ip / 16777216) as u8,
        (ip / 65536 % 256) as u8,
        (ip / 256 % 256) as u8,
        (ip % 256) as u8,
    )
}

/// The IPv4 address with the given bytes.
pub open spec fn address_of(a: u8, b: u8, c: u8, d: u8) -> u32 {
    (a as int * 16777216 + b as int * 65536 + c as int * 256 + d as int) as u32
}

/// The IPv4 address with the given bytes.
pub fn make_address(a: u8, b: u8, c: u8, d: u8) -> (r: u32)
    ensures
        r == address_of(a, b, c, d),
{
    a as u32 * 16777216 + b as u32 * 65536 + c as u32 * 256 + d as u32
}

/// The bytes of an IPv4 address make it up again.
pub proof fn octets_roundtrip(ip: u32)
    ensures
        address_of(octet(ip, 0), octet(ip, 1), octet(ip, 2), octet(ip, 3)) == ip,
{
}

/// An IPv4 address in dotted form.
pub fn show_ip(ip: u32) -> (r: String)
    ensures
        r@ == dotted(ip),
{
    let (a, b, c, d) = octets(ip);
    let first = crate::text::cat5(
        number_text(a as u64).as_str(),
        ".",
        number_text(b as u64).as_str(),
        ".",
        number_text(c as u64).as_str(),
    );
    cat3(first.as_str(), ".", number_text(d as u64).as_str())
}

/// Whether a text is a byte in an IPv4 address: one to three digits, at most
/// 255, no leading zero but in zero itself.
pub open spec fn is_octet_text(s: Seq<char>) -> bool {
    exists|n: nat| n <= 255 && s == #[trigger] decimal(n)
}

/// The byte that a text writes, if it writes one.
fn parse_octet(s: &str) -> (r: Option<u8>)
    ensures
        match r {
            Some(n) => s@ == decimal(n as nat),
            None => !is_octet_text(s@),
        },
{
    proof {
        assert forall|n: nat| n <= 255 && s@ == #[trigger] decimal(n) implies parsed_number(s@, 255)
            == Some(n) by {
            crate::numbers::number_roundtrip(n, 255);
        }
    }
    if let Some(n) = parse_number(s, 255) {
        if same(number_text(n).as_str(), s) {
            return Some(n as u8);
        }
    }
    None
}

/// Whether a text is an IPv4 address in dotted form.
pub open spec fn is_dotted(s: Seq<char>) -> bool {
    exists|ip: u32| s == #[trigger] dotted(ip)
}

/// Whether an address is in a range set aside for private networks.
pub open spec fn is_private(ip: u32) -> bool {
    octet(ip, 0) == 10 || (octet(ip, 0) == 172 && 16 <= octet(ip, 1) <= 31) || (octet(ip, 0) == 192
        && octet(ip, 1) == 168)
}

/// Whether an address is in a range set aside for private networks.
pub fn is_private_ipv4(ip: u32) -> (r: bool)
    ensures
        r == is_private(ip),
{
    let (a, b, _, _) = octets(ip);
    a == 10 || (a == 172 && 16 <= b && b <= 31) || (a == 192 && b == 168)
}

/// Splitting at a separator splits what stands before it and after it.
proof fn pieces_around(s: Seq<char>, t: Seq<char>, c: char)
    ensures
        pieces(s.push(c) + t, c) == pieces(s, c) + pieces(t, c),
    decreases t.len(),
{
    let all = s.push(c) + t;
    if t.len() == 0 {
        assert(all =~= s.push(c));
        assert(all.drop_last() =~= s);
        assert(pieces(all, c) =~= pieces(s, c) + pieces(t, c));
    } else {
        let init = t.drop_last();
        pieces_around(s, init, c);
        assert(all.drop_last() =~= s.push(c) + init);
        assert(all.last() == t.last());
        crate::text::split_then_join(init, c);
        let before = pieces(all.drop_last(), c);
        assert(before.last() == pieces(init, c).last());
        assert(pieces(all, c) =~= pieces(s, c) + pieces(t, c));
    }
}

/// A text without the separator is one piece.
proof fn one_piece(s: Seq<char>, c: char)
    requires
        !s.contains(c),
    ensures
        pieces(s, c) == seq![s],
    decreases s.len(),
{
    if s.len() == 0 {
        assert(s =~= Seq::<char>::empty());
    } else {
        let init = s.drop_last();
        if init.contains(c) {
            let k = choose|k: int| 0 <= k < init.len() && init[k] == c;
            assert(s[k] == c);
        }
        one_piece(init, c);
        assert(s[s.len() - 1] != c);
        assert(init.push(s.last()) =~= s);
        assert(pieces(s, c) =~= seq![s]);
    }
}

/// A number in decimal has no dot.
proof fn no_dot(n: nat)
    ensures
        !decimal(n).contains('.'),
{
    crate::numbers::number_roundtrip(n, n);
    if decimal(n).contains('.') {
        let k = choose|k: int| 0 <= k < decimal(n).len() && decimal(n)[k] == '.';
        assert(crate::numbers::is_digit(decimal(n)[k]));
    }
}

/// The pieces of a dotted address are its four bytes.
proof fn dotted_pieces(ip: u32)
    ensures
        pieces(dotted(ip), '.') == seq![
            decimal(octet(ip, 0) as nat),
            decimal(octet(ip, 1) as nat),
            decimal(octet(ip, 2) as nat),
            decimal(octet(ip, 3) as nat),
        ],
{
    reveal_strlit(".");
    let a = decimal(octet(ip, 0) as nat);
    let b = decimal(octet(ip, 1) as nat);
    let c = decimal(octet(ip, 2) as nat);
    let d = decimal(octet(ip, 3) as nat);
    no_dot(octet(ip, 0) as nat);
    no_dot(octet(ip, 1) as nat);
    no_dot(octet(ip, 2) as nat);
    no_dot(octet(ip, 3) as nat);
    one_piece(a, '.');
    one_piece(b, '.');
    one_piece(c, '.');
    one_piece(d, '.');
    let ab = a.push('.') + b;
    let abc = ab.push('.') + c;
    pieces_around(a, b, '.');
    pieces_around(ab, c, '.');
    pieces_around(abc, d, '.');
    assert(dotted(ip) =~= abc.push('.') + d);
    assert(pieces(dotted(ip), '.') =~= seq![a, b, c, d]);
}

/// Different addresses have different dotted forms.
pub proof fn dotted_is_injective(a: u32, b: u32)
    requires
        dotted(a) == dotted(b),
    ensures
        a == b,
{
    dotted_pieces(a);
    dotted_pieces(b);
    let x = pieces(dotted(a), '.');
    assert forall|i: int| 0 <= i < 4 implies octet(a, i) == octet(b, i) by {
        crate::numbers::number_roundtrip(octet(a, i) as nat, 255);
        crate::numbers::number_roundtrip(octet(b, i) as nat, 255);
        assert(x[i] == decimal(octet(a, i) as nat));
        assert(x[i] == decimal(octet(b, i) as nat));
    }
    octets_roundtrip(a);
    octets_roundtrip(b);
}

/// Four bytes between dots are a dotted address.
proof fn pieces_make_dotted(s: Seq<char>, ip: u32)
    requires
        pieces(s, '.').len() == 4,
        forall|i: int|
            0 <= i < 4 ==> #[trigger] pieces(s, '.')[i] == decimal(octet(ip, i) as nat),
    ensures
        s == dotted(ip),
{
    let p = pieces(s, '.');
    crate::text::split_then_join(s, '.');
    reveal_strlit(".");
    let dot = seq!['.'];
    assert("."@ =~= dot);
    let q1 = p.take(1);
    let q2 = p.take(2);
    let q3 = p.take(3);
    assert(p.drop_last() =~= q3);
    assert(q3.drop_last() =~= q2);
    assert(q2.drop_last() =~= q1);
    assert(joined(q1, dot) == p[0]);
    assert(joined(q2, dot) == p[0] + dot + p[1]);
    assert(joined(q3, dot) == p[0] + dot + p[1] + dot + p[2]);
    assert(joined(p, dot) == p[0] + dot + p[1] + dot + p[2] + dot + p[3]);
}

/// The pieces of a dotted address are four texts of bytes.
proof fn dotted_has_octets(s: Seq<char>)
    requires
        is_dotted(s),
    ensures
        pieces(s, '.').len() == 4,
        forall|i: int| 0 <= i < 4 ==> is_octet_text(#[trigger] pieces(s, '.')[i]),
{
    let ip = choose|ip: u32| s == #[trigger] dotted(ip);
    dotted_pieces(ip);
    assert forall|i: int| 0 <= i < 4 implies is_octet_text(#[trigger] pieces(s, '.')[i]) by {
        assert(pieces(s, '.')[i] == decimal(octet(ip, i) as nat));
    }
}

/// The bytes of an address made of four bytes.
proof fn made_octets(a: u8, b: u8, c: u8, d: u8)
    ensures
        octet(address_of(a, b, c, d), 0) == a,
        octet(address_of(a, b, c, d), 1) == b,
        octet(address_of(a, b, c, d), 2) == c,
        octet(address_of(a, b, c, d), 3) == d,
{
    let n = a as int * 16777216 + b as int * 65536 + c as int * 256 + d as int;
    assert(0 <= n < 4294967296);
    assert(n / 16777216 == a);
    assert(n / 65536 == a as int * 256 + b as int);
    assert(n / 256 == a as int * 65536 + b as int * 256 + c as int);
    assert((a as int * 256 + b as int) % 256 == b);
    assert((a as int * 65536 + b as int * 256 + c as int) % 256 == c);
    assert(n % 256 == d);
}

/// The IPv4 address that a text writes in dotted form, if it writes one.
pub fn parse_ip(s: &str) -> (r: Option<u32>)
    ensures
        match r {
            Some(ip) => s@ == dotted(ip),
            None => !is_dotted(s@),
        },
{
    let parts = split(s, '.');
    let ghost p = texts(parts@);
    proof {
        if is_dotted(s@) {
            dotted_has_octets(s@);
        }
    }
    if parts.len() != 4 {
        return None;
    }
    assert(p[0] == parts@[0]@ && p[1] == parts@[1]@ && p[2] == parts@[2]@ && p[3] == parts@[3]@);
    match (
        parse_octet(parts[0].as_str()),
        parse_octet(parts[1].as_str()),
        parse_octet(parts[2].as_str()),
        parse_octet(parts[3].as_str()),
    ) {
        (Some(a), Some(b), Some(c), Some(d)) => {
            let ip = make_address(a, b, c, d);
            proof {
                made_octets(a, b, c, d);
                pieces_make_dotted(s@, ip);
            }
            Some(ip)
        },
        _ => None,
    }
}

/// An IPv4 address of this machine, with the mask of its network.
#[derive(Debug, Clone, Copy)]
pub struct Interface {
    pub ip: u32,
    pub netmask: u32,
}

impl Interface {
    /// Whether devices may be in the interface's network: it is private (which
    /// leaves out this machine's own loop).
    pub open spec fn counts(self) -> bool {
        octet(self.ip, 0) != 127 && is_private(self.ip)
    }

    /// The lowest address of the network.
    pub open spec fn network(self) -> u32 {
        self.ip & self.netmask
    }

    /// The highest address of the network.
    pub open spec fn broadcast(self) -> u32 {
        self.network() | !self.netmask
    }

    /// Whether an address is strictly inside the network.
    pub open spec fn holds(self, ip: u32) -> bool {
        self.network() < ip < self.broadcast()
    }

    fn is_counted(&self) -> (r: bool)
        ensures
            r == self.counts(),
    {
        octets(self.ip).0 != 127 && is_private_ipv4(self.ip)
    }

    fn bounds(&self) -> (r: (u32, u32))
        ensures
            r.0 == self.network(),
            r.1 == self.broadcast(),
            r.0 <= self.ip,
            r.0 <= r.1,
    {
        let network = self.ip & self.netmask;
        let broadcast = network | !self.netmask;
        let ip = self.ip;
        let mask = self.netmask;
        assert(ip & mask <= ip) by (bit_vector);
        assert((ip & mask) <= (ip & mask) | !mask) by (bit_vector);
        (network, broadcast)
    }
}

/// The networks in which devices may be: lowest and highest address of each.
pub open spec fn subnets(interfaces: Seq<Interface>) -> Seq<(u32, u32)>
    decreases interfaces.len(),
{
    if interfaces.len() == 0 {
        Seq::empty()
    } else {
        let before = subnets(interfaces.drop_last());
        let last = interfaces.last();
        if last.counts() {
            before.push((last.network(), last.broadcast()))
        } else {
            before
        }
    }
}

/// The networks in which devices may be.
pub fn current_ipv4_subnets(interfaces: &Vec<Interface>) -> (r: Vec<(u32, u32)>)
    ensures
        r@ == subnets(interfaces@),
{
    let mut out: Vec<(u32, u32)> = Vec::new();
    assert(interfaces@.take(0) =~= Seq::<Interface>::empty());
    for i in 0..interfaces.len()
        invariant
            out@ == subnets(interfaces@.take(i as int)),
    {
        assert(interfaces@.take(i + 1).drop_last() =~= interfaces@.take(i as int));
        if interfaces[i].is_counted() {
            let (network, broadcast) = interfaces[i].bounds();
            out.push((network, broadcast));
        }
    }
    assert(interfaces@.take(interfaces@.len() as int) =~= interfaces@);
    out
}

/// Whether an address is strictly inside one of some networks.
pub open spec fn in_some_subnet(ip: u32, nets: Seq<(u32, u32)>) -> bool {
    exists|k: int| 0 <= k < nets.len() && (#[trigger] nets[k]).0 < ip < nets[k].1
}

/// Whether a known address is worth trying: a private IPv4 address only where
/// this machine is in its network, everything else always.
pub open spec fn worth_trying(addr: Seq<char>, nets: Seq<(u32, u32)>) -> bool {
    forall|ip: u32| addr == #[trigger] dotted(ip) && is_private(ip) ==> in_some_subnet(ip, nets)
}

/// Whether a known address is worth trying.
pub fn is_worth_trying(addr: &str, nets: &Vec<(u32, u32)>) -> (r: bool)
    ensures
        r == worth_trying(addr@, nets@),
{
    let ip = match parse_ip(addr) {
        Some(ip) => ip,
        None => {
            return true;
        },
    };
    proof {
        assert forall|other: u32| addr@ == #[trigger] dotted(other) implies other == ip by {
            dotted_is_injective(other, ip);
        }
    }
    if !is_private_ipv4(ip) {
        return true;
    }
    for k in 0..nets.len()
        invariant
            addr@ == dotted(ip),
            forall|other: u32| addr@ == #[trigger] dotted(other) ==> other == ip,
            forall|j: int| 0 <= j < k ==> !((#[trigger] nets@[j]).0 < ip < nets@[j].1),
    {
        if nets[k].0 < ip && ip < nets[k].1 {
            assert(in_some_subnet(ip, nets@));
            return true;
        }
    }
    assert(!in_some_subnet(ip, nets@));
    false
}

/// The known addresses that are worth trying, in order.
pub open spec fn tried(known: Seq<Seq<char>>, nets: Seq<(u32, u32)>) -> Seq<Seq<char>> {
    known.filter(|a: Seq<char>| worth_trying(a, nets))
}

/// The known addresses that are worth trying.
pub fn filtered_known_addrs(known: &Vec<String>, nets: &Vec<(u32, u32)>) -> (r: Vec<String>)
    ensures
        texts(r@) == tried(texts(known@), nets@),
{
    let mut out: Vec<String> = Vec::new();
    let ghost all = texts(known@);
    let ghost keep = |a: Seq<char>| worth_trying(a, nets@);
    proof {
        reveal(Seq::filter);
        assert(all.take(0) =~= Seq::<Seq<char>>::empty());
        assert(texts(out@) =~= all.take(0).filter(keep));
    }
    for i in 0..known.len()
        invariant
            all == texts(known@),
            keep == (|a: Seq<char>| worth_trying(a, nets@)),
            texts(out@) == all.take(i as int).filter(keep),
    {
        let ghost was = texts(out@);
        proof {
            reveal(Seq::filter);
            assert(all.take(i + 1).drop_last() =~= all.take(i as int));
            assert(all.take(i + 1).last() == known@[i as int]@);
        }
        if is_worth_trying(known[i].as_str(), nets) {
            out.push(known[i].as_str().to_owned());
            assert(texts(out@) =~= was.push(known@[i as int]@));
        }
    }
    assert(all.take(all.len() as int) =~= all);
    out
}

/// The host numbers that are tried in a large network.
pub const COMMON_HOSTS: [u8; 13] = [1, 2, 10, 20, 30, 50, 80, 92, 100, 110, 150, 200, 254];

/// The most hosts of a network of which all are tried.
pub const SMALL_NETWORK: u32 = 64;

/// All addresses from above `network` to below `end`, but for this machine's own.
pub open spec fn all_hosts(ip: u32, network: int, end: int) -> Seq<Seq<char>>
    decreases end - network,
{
    if end <= network + 1 {
        Seq::empty()
    } else {
        let before = all_hosts(ip, network, end - 1);
        if end - 1 == ip {
            before
        } else {
            before.push(dotted((end - 1) as u32))
        }
    }
}

/// The first `n` common hosts of an interface's network, but for this machine's
/// own number and those outside the network.
pub open spec fn common_hosts(interface: Interface, n: int) -> Seq<Seq<char>>
    decreases n,
{
    if n <= 0 {
        Seq::empty()
    } else {
        let before = common_hosts(interface, n - 1);
        let host = COMMON_HOSTS@[n - 1];
        let candidate = address_of(
            octet(interface.ip, 0),
            octet(interface.ip, 1),
            octet(interface.ip, 2),
            host,
        );
        if host != octet(interface.ip, 3) && interface.holds(candidate) {
            before.push(dotted(candidate))
        } else {
            before
        }
    }
}

/// The addresses that are tried in an interface's network: all of a small one,
/// the common ones of a large one.
pub open spec fn hosts_of(interface: Interface) -> Seq<Seq<char>> {
    if !interface.counts() {
        Seq::empty()
    } else if interface.broadcast() - interface.network() - 1 <= SMALL_NETWORK {
        all_hosts(interface.ip, interface.network() as int, interface.broadcast() as int)
    } else {
        common_hosts(interface, 13)
    }
}

/// The addresses that are tried in the networks of all interfaces.
pub open spec fn lan_hosts(interfaces: Seq<Interface>) -> Seq<Seq<char>>
    decreases interfaces.len(),
{
    if interfaces.len() == 0 {
        Seq::empty()
    } else {
        lan_hosts(interfaces.drop_last()) + hosts_of(interfaces.last())
    }
}

/// Adds the addresses that are tried in an interface's network.
fn add_hosts(interface: &Interface, out: &mut Vec<String>)
    ensures
        texts(final(out)@) == texts(old(out)@) + hosts_of(*interface),
{
    let ghost was = texts(out@);
    if !interface.is_counted() {
        assert(was + hosts_of(*interface) =~= was);
        return;
    }
    let ip = interface.ip;
    let (network, broadcast) = interface.bounds();
    if network >= broadcast || broadcast - network - 1 <= SMALL_NETWORK {
        assert(network < 0xffff_ffff);
        proof {
            assert(was + all_hosts(ip, network as int, network + 1) =~= was);
        }
        let mut host: u32 = network + 1;
        while host < broadcast
            invariant
                network < host,
                host <= broadcast || host == network + 1,
                texts(out@) == was + all_hosts(ip, network as int, host as int),
            decreases broadcast - host,
        {
            let ghost now = texts(out@);
            if host != ip {
                out.push(show_ip(host));
                assert(texts(out@) =~= now.push(dotted(host)));
            }
            assert(texts(out@) =~= was + all_hosts(ip, network as int, host + 1));
            host = host + 1;
        }
        if broadcast <= network + 1 {
            assert(all_hosts(ip, network as int, broadcast as int) =~= all_hosts(
                ip,
                network as int,
                network + 1,
            ));
        }
    } else {
        let (a, b, c, d) = octets(ip);
        assert(was + common_hosts(*interface, 0) =~= was);
        for i in 0..13usize
            invariant
                a == octet(ip, 0),
                b == octet(ip, 1),
                c == octet(ip, 2),
                d == octet(ip, 3),
                ip == interface.ip,
                network == interface.network(),
                broadcast == interface.broadcast(),
                texts(out@) == was + common_hosts(*interface, i as int),
        {
            let ghost now = texts(out@);
            let host = COMMON_HOSTS[i];
            let candidate = make_address(a, b, c, host);
            if host != d && network < candidate && candidate < broadcast {
                out.push(show_ip(candidate));
                assert(texts(out@) =~= now.push(dotted(candidate)));
            }
            assert(texts(out@) =~= was + common_hosts(*interface, i + 1));
        }
    }
}

/// The addresses that are tried in this machine's networks.
pub fn lan_probe_candidates(interfaces: &Vec<Interface>) -> (r: Vec<String>)
    ensures
        texts(r@) == lan_hosts(interfaces@),
{
    let mut out: Vec<String> = Vec::new();
    proof {
        assert(interfaces@.take(0) =~= Seq::<Interface>::empty());
        assert(texts(out@) =~= lan_hosts(interfaces@.take(0)));
    }
    for i in 0..interfaces.len()
        invariant
            texts(out@) == lan_hosts(interfaces@.take(i as int)),
    {
        assert(interfaces@.take(i + 1).drop_last() =~= interfaces@.take(i as int));
        assert(interfaces@.take(i + 1).last() == interfaces@[i as int]);
        add_hosts(&interfaces[i], &mut out);
    }
    assert(interfaces@.take(interfaces@.len() as int) =~= interfaces@);
    out
}

/// Addresses at which a device may be whatever the networks are.
pub fn fallback_device_addrs() -> (r: Vec<String>)
    ensures
        texts(r@) == seq![USB_FALLBACK_ADDR@],
{
    let r: Vec<String> = vec![USB_FALLBACK_ADDR.to_owned()];
    assert(texts(r@) =~= seq![USB_FALLBACK_ADDR@]);
    r
}

/// Whether a text is one of the trimmed, non-empty pieces of some texts.
pub open spec fn is_trimmed_of(list: Seq<Seq<char>>, x: Seq<char>) -> bool {
    x.len() > 0 && exists|k: int| 0 <= k < list.len() && trimmed(#[trigger] list[k]) == x
}

/// Adds the trimmed texts that are not empty to an ordered list.
fn add_trimmed(values: &mut Vec<String>, list: &Vec<String>)
    requires
        increasing(texts(old(values)@)),
    ensures
        increasing(texts(final(values)@)),
        forall|x: Seq<char>| #[trigger]
            texts(final(values)@).contains(x) <==> texts(old(values)@).contains(x) || is_trimmed_of(
                texts(list@),
                x,
            ),
{
    let ghost was = texts(values@);
    let ghost all = texts(list@);
    for i in 0..list.len()
        invariant
            increasing(texts(values@)),
            all == texts(list@),
            forall|x: Seq<char>| #[trigger]
                texts(values@).contains(x) <==> was.contains(x) || is_trimmed_of(
                    all.take(i as int),
                    x,
                ),
    {
        let ghost now = texts(values@);
        let clean = trim(list[i].as_str());
        let ghost text = clean@;
        assert(text == trimmed(all[i as int]));
        assert(all.take(i + 1)[i as int] == all[i as int]);
        if !is_blank(clean.as_str()) {
            insert_ordered(values, clean);
        }
        assert forall|x: Seq<char>| #[trigger]
            texts(values@).contains(x) <==> was.contains(x) || is_trimmed_of(
                all.take(i + 1),
                x,
            ) by {
            assert(texts(values@).contains(x) <==> now.contains(x) || (x == text && text.len()
                > 0));
            if is_trimmed_of(all.take(i as int), x) {
                let k = choose|k: int|
                    0 <= k < all.take(i as int).len() && trimmed(#[trigger] all.take(i as int)[k])
                        == x;
                assert(all.take(i + 1)[k] == all.take(i as int)[k]);
            }
            if is_trimmed_of(all.take(i + 1), x) {
                let k = choose|k: int|
                    0 <= k < all.take(i + 1).len() && trimmed(#[trigger] all.take(i + 1)[k]) == x;
                if k < i {
                    assert(all.take(i as int)[k] == all.take(i + 1)[k]);
                }
            }
        }
    }
    assert(all.take(all.len() as int) =~= all);
}

/// Adds texts to an ordered list.
fn add_all(values: &mut Vec<String>, list: &Vec<String>)
    requires
        increasing(texts(old(values)@)),
    ensures
        increasing(texts(final(values)@)),
        forall|x: Seq<char>| #[trigger]
            texts(final(values)@).contains(x) <==> texts(old(values)@).contains(x) || texts(
                list@,
            ).contains(x),
{
    let ghost was = texts(values@);
    let ghost all = texts(list@);
    for i in 0..list.len()
        invariant
            increasing(texts(values@)),
            all == texts(list@),
            forall|x: Seq<char>| #[trigger]
                texts(values@).contains(x) <==> was.contains(x) || all.take(i as int).contains(x),
    {
        let ghost now = texts(values@);
        insert_ordered(values, list[i].as_str().to_owned());
        assert forall|x: Seq<char>| #[trigger]
            texts(values@).contains(x) <==> was.contains(x) || all.take(i + 1).contains(x) by {
            assert(texts(values@).contains(x) <==> now.contains(x) || x == all[i as int]);
            assert(all.take(i + 1) =~= all.take(i as int).push(all[i as int]));
            if all.take(i as int).contains(x) {
                let k = choose|k: int| 0 <= k < i && all.take(i as int)[k] == x;
                assert(all.take(i + 1)[k] == x);
            }
            if x == all[i as int] {
                assert(all.take(i + 1)[i as int] == x);
            }
            let upto = all.take(i + 1);
            if upto.contains(x) && x != all[i as int] {
                let k = choose|k: int| 0 <= k < upto.len() && upto[k] == x;
                assert(all.take(i as int)[k] == x);
            }
        }
    }
    assert(all.take(all.len() as int) =~= all);
}

/// Whether an address is tried: it was named by the user, is known, is where
/// devices always may be, or is in one of this machine's networks.
pub open spec fn is_candidate(
    named: Option<Seq<char>>,
    known: Seq<Seq<char>>,
    interfaces: Seq<Interface>,
    x: Seq<char>,
) -> bool {
    ||| named is Some && is_trimmed_of(pieces(named->Some_0, ','), x)
    ||| tried(known, subnets(interfaces)).contains(x)
    ||| x == USB_FALLBACK_ADDR@
    ||| x == DEFAULT_DEVICE_HOST@
    ||| lan_hosts(interfaces).contains(x)
}

/// The addresses that are tried, in order and without repeats. `named` is the
/// user's comma-separated list.
pub fn candidate_addrs(
    named: &Option<String>,
    known: &Vec<String>,
    interfaces: &Vec<Interface>,
) -> (r: Vec<String>)
    ensures
        increasing(texts(r@)),
        forall|x: Seq<char>| #[trigger]
            texts(r@).contains(x) <==> is_candidate(
                named.deep_view(),
                texts(known@),
                interfaces@,
                x,
            ),
{
    let mut values: Vec<String> = Vec::new();
    assert(texts(values@) =~= Seq::<Seq<char>>::empty());
    if let Some(raw) = named {
        add_trimmed(&mut values, &split(raw.as_str(), ','));
    }
    let nets = current_ipv4_subnets(interfaces);
    add_all(&mut values, &filtered_known_addrs(known, &nets));
    let fallback = fallback_device_addrs();
    add_all(&mut values, &fallback);
    assert(forall|x: Seq<char>|
        texts(fallback@).contains(x) <==> x == USB_FALLBACK_ADDR@) by {
        assert(texts(fallback@)[0] == USB_FALLBACK_ADDR@);
    }
    insert_ordered(&mut values, DEFAULT_DEVICE_HOST.to_owned());
    add_all(&mut values, &lan_probe_candidates(interfaces));
    values
}

/// The known addresses with more of them, in order and without repeats; white
/// space around an address does not count, nor does an empty one.
pub fn merge_known_addrs(known: &Vec<String>, addrs: &Vec<String>) -> (r: Vec<String>)
    ensures
        increasing(texts(r@)),
        forall|x: Seq<char>| #[trigger]
            texts(r@).contains(x) <==> texts(known@).contains(x) || is_trimmed_of(
                texts(addrs@),
                x,
            ),
{
    let mut all: Vec<String> = Vec::new();
    assert(texts(all@) =~= Seq::<Seq<char>>::empty());
    add_all(&mut all, known);
    add_trimmed(&mut all, addrs);
    all
}

/// The member under the first of two names that is there.
pub open spec fn either_member(value: JsonView, first: Seq<char>, second: Seq<char>) -> Option<
    JsonView,
> {
    match value.get(first) {
        Some(found) => Some(found),
        None => value.get(second),
    }
}

/// The model that a device tells of itself, if it tells one that is not blank.
pub open spec fn model_of(value: JsonView) -> Seq<char> {
    match either_member(value, "model_name"@, "modelName"@) {
        Some(JsonView::Text(text)) if trimmed(text).len() > 0 => text,
        _ => "Sony Digital Paper"@,
    }
}

/// The serial number that a device tells of itself.
pub open spec fn serial_of(value: JsonView) -> Seq<char> {
    match either_member(value, "serial_number"@, "serialNumber"@) {
        Some(JsonView::Text(text)) => text,
        _ => Seq::empty(),
    }
}

/// Whether what answered is a digital paper device: by its model, or by having
/// a serial number.
pub open spec fn is_paper(model: Seq<char>, serial: Seq<char>) -> bool {
    occurs(lowered(model), "dpt"@) || occurs(lowered(model), "digital paper"@) || serial.len() > 0
}

/// The name under which a device that answered at an address is shown.
pub open spec fn shown_name(model: Seq<char>, addr: Seq<char>) -> Seq<char> {
    if addr == DEFAULT_DEVICE_HOST@ {
        model
    } else {
        model + " ("@ + addr + ")"@
    }
}

/// The name of the device that answered at an address, if one did.
pub open spec fn probed_name(addr: Seq<char>, reply: Sent) -> Option<Seq<char>> {
    match reply {
        Err(_) => None,
        Ok(reply) => if !is_success(reply.code) {
            None
        } else {
            match reply.body.as_json() {
                Err(_) => None,
                Ok(value) => if is_paper(model_of(value), serial_of(value)) {
                    Some(shown_name(model_of(value), addr))
                } else {
                    None
                },
            }
        },
    }
}

/// What is written to the debug log of an answer at an address.
pub open spec fn probe_note(addr: Seq<char>, reply: Sent) -> Option<Seq<char>> {
    match reply {
        Err(e) => Some("register/information request failed for "@ + addr + ": "@ + e@),
        Ok(reply) => if !is_success(reply.code) {
            Some("register/information returned "@ + reply.status@ + " for "@ + addr)
        } else {
            match reply.body.as_json() {
                Err(_) => None,
                Ok(value) => {
                    let told = addr + ": model="@ + model_of(value) + " serial="@ + serial_of(
                        value,
                    );
                    if is_paper(model_of(value), serial_of(value)) {
                        Some("Detected DPT response from "@ + told)
                    } else {
                        Some("Ignoring non-DPT response from "@ + told)
                    }
                },
            }
        },
    }
}

fn find_member<'a>(value: &'a serde_json::Value, first: &str, second: &str) -> (r: Option<
    &'a str,
>)
    ensures
        match r {
            Some(s) => either_member(json_value(*value), first@, second@) == Some(
                JsonView::Text(s@),
            ),
            None => !(either_member(json_value(*value), first@, second@) matches Some(
                JsonView::Text(_),
            )),
        },
{
    match member(value, first) {
        Some(found) => value_text(found),
        None => match member(value, second) {
            Some(found) => value_text(found),
            None => None,
        },
    }
}

fn read_model(value: &serde_json::Value) -> (r: String)
    ensures
        r@ == model_of(json_value(*value)),
{
    if let Some(text) = find_member(value, "model_name", "modelName") {
        if !is_blank(trim(text).as_str()) {
            return text.to_owned();
        }
    }
    "Sony Digital Paper".to_owned()
}

fn read_serial(value: &serde_json::Value) -> (r: String)
    ensures
        r@ == serial_of(json_value(*value)),
{
    match find_member(value, "serial_number", "serialNumber") {
        Some(text) => text.to_owned(),
        None => {
            let none = String::new();
            assert(none@ =~= Seq::<char>::empty());
            none
        },
    }
}

fn recognised(model: &str, serial: &str) -> (r: bool)
    ensures
        r == is_paper(model@, serial@),
{
    let low = to_lower(model);
    contains(low.as_str(), "dpt") || contains(low.as_str(), "digital paper") || !is_blank(serial)
}

/// Recognises what answered at an address: the name under which it is shown, if
/// it is a device, and what is written to the debug log.
pub fn probe_dpt_name(addr: &str, reply: &Sent) -> (r: (Option<String>, Option<String>))
    ensures
        r.0.deep_view() == probed_name(addr@, *reply),
        r.1.deep_view() == probe_note(addr@, *reply),
{
    let reply = match reply {
        Err(e) => {
            let note = cat4(
                "register/information request failed for ",
                addr,
                ": ",
                e.as_str(),
            );
            return (None, Some(note));
        },
        Ok(reply) => reply,
    };
    if !reply.success() {
        let note = cat4(
            "register/information returned ",
            reply.status.as_str(),
            " for ",
            addr,
        );
        return (None, Some(note));
    }
    let value = match reply.body.json() {
        Err(_) => {
            return (None, None);
        },
        Ok(value) => value,
    };
    let model = read_model(&value);
    let serial = read_serial(&value);
    let told = crate::text::cat5(addr, ": model=", model.as_str(), " serial=", serial.as_str());
    if !recognised(model.as_str(), serial.as_str()) {
        return (None, Some(cat2("Ignoring non-DPT response from ", told.as_str())));
    }
    let note = cat2("Detected DPT response from ", told.as_str());
    let name = if same(addr, DEFAULT_DEVICE_HOST) {
        model
    } else {
        cat4(model.as_str(), " (", addr, ")")
    };
    (Some(name), Some(note))
}

/// Whether an address is one of a device on USB.
pub open spec fn is_usb(addr: Seq<char>) -> bool {
    begins(addr, "172.25.47."@) || begins(addr, "172.20."@)
}

/// A device that was found at an address.
pub open spec fn found_device(addr: Seq<char>, name: Seq<char>, paired: bool) -> DeviceSummaryView {
    DeviceSummaryView {
        id: "rust-"@ + addr,
        serial: None,
        name,
        reachable_addrs: seq![addr],
        transport_kinds: if is_usb(addr) {
            seq![TransportKind::UsbNetwork, TransportKind::Wifi]
        } else {
            seq![TransportKind::Wifi]
        },
        paired,
    }
}

/// A device that was found at an address.
pub fn found_summary(addr: &str, name: &str, paired: bool) -> (r: DeviceSummary)
    ensures
        r.deep_view() == found_device(addr@, name@, paired),
{
    let usb = starts_with(addr, "172.25.47.") || starts_with(addr, "172.20.");
    let transport_kinds: Vec<TransportKind> = if usb {
        vec![TransportKind::UsbNetwork, TransportKind::Wifi]
    } else {
        vec![TransportKind::Wifi]
    };
    let r = DeviceSummary {
        id: cat2("rust-", addr),
        serial: None,
        name: name.to_owned(),
        reachable_addrs: vec![addr.to_owned()],
        transport_kinds,
        paired,
    };
    assert(r.deep_view() =~= found_device(addr@, name@, paired));
    r
}

/// What was seen at an address: the device's name, if one answered, and whether
/// a login with the stored credentials went well.
pub struct Sighting {
    pub addr: String,
    pub name: Option<String>,
    pub paired: bool,
}

/// The contents of devices.
pub open spec fn summaries(devices: Seq<DeviceSummary>) -> Seq<DeviceSummaryView> {
    devices.map_values(|d: DeviceSummary| d.deep_view())
}

/// The devices among what was seen, in order.
pub open spec fn devices_seen(sightings: Seq<Sighting>) -> Seq<DeviceSummaryView>
    decreases sightings.len(),
{
    if sightings.len() == 0 {
        Seq::empty()
    } else {
        let before = devices_seen(sightings.drop_last());
        let last = sightings.last();
        match last.name {
            Some(name) => before.push(found_device(last.addr@, name@, last.paired)),
            None => before,
        }
    }
}

/// The log lines for the addresses at which nothing answered, in order.
pub open spec fn silences(sightings: Seq<Sighting>) -> Seq<Seq<char>>
    decreases sightings.len(),
{
    if sightings.len() == 0 {
        Seq::empty()
    } else {
        let before = silences(sightings.drop_last());
        match sightings.last().name {
            Some(_) => before,
            None => before.push("No device response from "@ + sightings.last().addr@),
        }
    }
}

/// The last log line of a discovery.
pub open spec fn discovery_end(count: nat) -> Seq<char> {
    if count == 0 {
        "Discovery finished without any device candidates"@
    } else {
        "Discovered "@ + decimal(count) + " device candidates"@
    }
}

impl RustNativeProvider {
    /// The devices among what was seen at the candidate addresses, and the lines
    /// for the log; a discovery without any device fails.
    pub fn discover_devices(sightings: &Vec<Sighting>) -> (r: (
        Result<Vec<DeviceSummary>, RustProviderError>,
        Vec<String>,
    ))
        ensures
            match r.0 {
                Ok(devices) => summaries(devices@) == devices_seen(sightings@) && devices@.len() > 0,
                Err(e) => devices_seen(sightings@).len() == 0 && e is DeviceNotFound,
            },
            texts(r.1@) == silences(sightings@).push(
                discovery_end(devices_seen(sightings@).len()),
            ),
    {
        let mut devices: Vec<DeviceSummary> = Vec::new();
        let mut notes: Vec<String> = Vec::new();
        proof {
            assert(sightings@.take(0) =~= Seq::<Sighting>::empty());
            assert(summaries(devices@) =~= devices_seen(sightings@.take(0)));
            assert(texts(notes@) =~= silences(sightings@.take(0)));
        }
        for i in 0..sightings.len()
            invariant
                summaries(devices@) == devices_seen(sightings@.take(i as int)),
                texts(notes@) == silences(sightings@.take(i as int)),
        {
            let ghost was = summaries(devices@);
            let ghost noted = texts(notes@);
            proof {
                assert(sightings@.take(i + 1).drop_last() =~= sightings@.take(i as int));
                assert(sightings@.take(i + 1).last() == sightings@[i as int]);
            }
            let seen = &sightings[i];
            match &seen.name {
                Some(name) => {
                    let device = found_summary(seen.addr.as_str(), name.as_str(), seen.paired);
                    devices.push(device);
                    assert(summaries(devices@) =~= was.push(device.deep_view()));
                },
                None => {
                    let note = cat2("No device response from ", seen.addr.as_str());
                    notes.push(note);
                    assert(texts(notes@) =~= noted.push(note@));
                },
            }
        }
        assert(sightings@.take(sightings@.len() as int) =~= sightings@);
        assert(summaries(devices@).len() == devices@.len());
        let ghost noted = texts(notes@);
        if devices.len() == 0 {
            notes.push("Discovery finished without any device candidates".to_owned());
            assert(texts(notes@) =~= noted.push(discovery_end(0)));
            return (Err(RustProviderError::DeviceNotFound), notes);
        }
        let count = number_text(devices.len() as u64);
        notes.push(cat3("Discovered ", count.as_str(), " device candidates"));
        assert(texts(notes@) =~= noted.push(discovery_end(devices@.len())));
        (Ok(devices), notes)
    }

    /// The first log line of a discovery.
    pub fn candidates_message(addrs: &Vec<String>) -> (r: String)
        ensures
            r@ == "Discovery candidates: "@ + joined(texts(addrs@), ", "@),
    {
        cat2("Discovery candidates: ", join(addrs, ", ").as_str())
    }
}

/// Every device that a discovery gives was seen at one of the addresses that were
/// tried, under the name that was seen there.
pub proof fn devices_were_seen(sightings: Seq<Sighting>, i: int)
    requires
        0 <= i < devices_seen(sightings).len(),
    ensures
        exists|k: int|
            0 <= k < sightings.len() && (#[trigger] sightings[k]).name is Some
                && devices_seen(sightings)[i] == found_device(
                sightings[k].addr@,
                sightings[k].name->Some_0@,
                sightings[k].paired,
            ),
    decreases sightings.len(),
{
    let init = sightings.drop_last();
    if i < devices_seen(init).len() {
        devices_were_seen(init, i);
        let k = choose|k: int|
            0 <= k < init.len() && (#[trigger] init[k]).name is Some && devices_seen(init)[i]
                == found_device(init[k].addr@, init[k].name->Some_0@, init[k].paired);
        assert(sightings[k] == init[k]);
    } else {
        assert(sightings[sightings.len() - 1].name is Some);
    }
}

/// No host outside the networks of this machine's private interfaces is tried,
/// nor any of this machine's own addresses in its own network.
pub proof fn lan_hosts_are_inside(interfaces: Seq<Interface>, i: int)
    requires
        0 <= i < lan_hosts(interfaces).len(),
    ensures
        exists|k: int, ip: u32|
            0 <= k < interfaces.len() && (#[trigger] interfaces[k]).counts()
                && interfaces[k].holds(ip) && ip != interfaces[k].ip && lan_hosts(interfaces)[i]
                == #[trigger] dotted(ip),
    decreases interfaces.len(),
{
    let init = interfaces.drop_last();
    let last = interfaces.last();
    let before = lan_hosts(init);
    if i < before.len() {
        lan_hosts_are_inside(init, i);
        let (k, ip): (int, u32) = choose|k: int, ip: u32|
            0 <= k < init.len() && (#[trigger] init[k]).counts() && init[k].holds(ip) && ip
                != init[k].ip && before[i] == #[trigger] dotted(ip);
        assert(interfaces[k] == init[k]);
        assert(lan_hosts(interfaces)[i] == dotted(ip));
    } else {
        let j = i - before.len();
        hosts_are_inside(last, j);
        let ip = choose|ip: u32|
            last.holds(ip) && ip != last.ip && hosts_of(last)[j] == #[trigger] dotted(ip);
        assert(interfaces[interfaces.len() - 1] == last);
        assert(lan_hosts(interfaces)[i] == dotted(ip));
    }
}

proof fn hosts_are_inside(interface: Interface, i: int)
    requires
        0 <= i < hosts_of(interface).len(),
    ensures
        interface.counts(),
        exists|ip: u32|
            interface.holds(ip) && ip != interface.ip && hosts_of(interface)[i] == #[trigger] dotted(
                ip,
            ),
{
    if interface.broadcast() - interface.network() - 1 <= SMALL_NETWORK {
        all_hosts_are_inside(
            interface.ip,
            interface.network() as int,
            interface.broadcast() as int,
            i,
        );
    } else {
        common_hosts_are_inside(interface, 13, i);
    }
}

proof fn all_hosts_are_inside(ip: u32, network: int, end: int, i: int)
    requires
        0 <= network,
        end <= u32::MAX,
        0 <= i < all_hosts(ip, network, end).len(),
    ensures
        exists|host: u32|
            network < host < end && host != ip && all_hosts(ip, network, end)[i] == #[trigger] dotted(
                host,
            ),
    decreases end - network,
{
    let before = all_hosts(ip, network, end - 1);
    if i < before.len() {
        all_hosts_are_inside(ip, network, end - 1, i);
        let host = choose|host: u32|
            network < host < end - 1 && host != ip && before[i] == #[trigger] dotted(host);
        assert(all_hosts(ip, network, end)[i] == dotted(host));
    } else {
        let host = (end - 1) as u32;
        assert(all_hosts(ip, network, end)[i] == dotted(host));
    }
}

proof fn common_hosts_are_inside(interface: Interface, n: int, i: int)
    requires
        0 <= i < common_hosts(interface, n).len(),
    ensures
        exists|ip: u32|
            interface.holds(ip) && ip != interface.ip && common_hosts(interface, n)[i]
                == #[trigger] dotted(ip),
    decreases n,
{
    let before = common_hosts(interface, n - 1);
    if i < before.len() {
        common_hosts_are_inside(interface, n - 1, i);
        let ip = choose|ip: u32|
            interface.holds(ip) && ip != interface.ip && before[i] == #[trigger] dotted(ip);
        assert(common_hosts(interface, n)[i] == dotted(ip));
    } else {
        let host = COMMON_HOSTS@[n - 1];
        let (a, b, c) = (octet(interface.ip, 0), octet(interface.ip, 1), octet(interface.ip, 2));
        let candidate = address_of(a, b, c, host);
        made_octets(a, b, c, host);
        assert(candidate != interface.ip);
        assert(common_hosts(interface, n)[i] == dotted(candidate));
    }
}

/// The announced name and the address on USB are always among those tried.
pub proof fn fallbacks_are_always_tried(
    named: Option<Seq<char>>,
    known: Seq<Seq<char>>,
    interfaces: Seq<Interface>,
)
    ensures
        is_candidate(named, known, interfaces, DEFAULT_DEVICE_HOST@),
        is_candidate(named, known, interfaces, USB_FALLBACK_ADDR@),
{
}

/// The private addresses are those of three ranges: 10.0.0.0 to 10.255.255.255,
/// 172.16.0.0 to 172.31.255.255, and 192.168.0.0 to 192.168.255.255.
pub proof fn private_addresses_are_three_ranges(ip: u32)
    ensures
        is_private(ip) <==> 0x0a00_0000 <= ip <= 0x0aff_ffff || 0xac10_0000 <= ip <= 0xac1f_ffff
            || 0xc0a8_0000 <= ip <= 0xc0a8_ffff,
{
    let a = ip as int / 16777216;
    let b = ip as int / 65536 % 256;
    assert(ip as int / 65536 == a * 256 + b);
}

proof fn small_network_is_walked(ip: u32, network: int, end: int, host: u32)
    requires
        network < host < end,
        host != ip,
        end <= 0xffff_ffff,
        network >= 0,
    ensures
        all_hosts(ip, network, end).contains(dotted(host)),
    decreases end - network,
{
    let all = all_hosts(ip, network, end);
    let before = all_hosts(ip, network, end - 1);
    if host == end - 1 {
        assert(all[all.len() - 1] == dotted(host));
    } else {
        small_network_is_walked(ip, network, end - 1, host);
        let k = choose|k: int| 0 <= k < before.len() && before[k] == dotted(host);
        assert(all[k] == before[k]);
    }
}

/// In a network of at most 64 hosts, every address between the network's and the
/// broadcast address is tried, but our own.
pub proof fn small_network_is_tried_in_full(interfaces: Seq<Interface>, i: int, host: u32)
    requires
        0 <= i < interfaces.len(),
        ({
            let me = interfaces[i];
            let network = me.ip & me.netmask;
            let broadcast = network | !me.netmask;
            &&& 0x0a00_0000 <= me.ip <= 0x0aff_ffff || 0xac10_0000 <= me.ip <= 0xac1f_ffff
                || 0xc0a8_0000 <= me.ip <= 0xc0a8_ffff
            &&& broadcast - network - 1 <= 64
            &&& network < host < broadcast
            &&& host != me.ip
        }),
    ensures
        lan_hosts(interfaces).contains(dotted(host)),
    decreases interfaces.len(),
{
    let me = interfaces[i];
    let all = lan_hosts(interfaces);
    let before = lan_hosts(interfaces.drop_last());
    let last = hosts_of(interfaces.last());
    if i == interfaces.len() - 1 {
        private_addresses_are_three_ranges(me.ip);
        assert(octet(me.ip, 0) != 127);
        small_network_is_walked(me.ip, me.network() as int, me.broadcast() as int, host);
        let k = choose|k: int| 0 <= k < last.len() && last[k] == dotted(host);
        assert(all[before.len() + k] == last[k]);
    } else {
        small_network_is_tried_in_full(interfaces.drop_last(), i, host);
        let k = choose|k: int| 0 <= k < before.len() && before[k] == dotted(host);
        assert(all[k] == before[k]);
    }
}

/// What answers with a serial number is taken for a device, under the model's name
/// that it gives, and with its address where it is not the announced name.
pub proof fn device_is_shown_by_its_model(
    addr: Seq<char>,
    reply: crate::http::HttpReply,
    value: JsonView,
    model: Seq<char>,
    serial: Seq<char>,
)
    requires
        200 <= reply.code <= 299,
        reply.body.as_json() == Ok::<JsonView, Seq<char>>(value),
        value.text_at("model_name"@) == Some(model),
        value.text_at("serial_number"@) == Some(serial),
        trimmed(model).len() > 0,
        serial.len() > 0,
    ensures
        addr != DEFAULT_DEVICE_HOST@ ==> probed_name(
            addr,
            Ok::<crate::http::HttpReply, String>(reply),
        ) == Some(model + " ("@ + addr + ")"@),
        addr == DEFAULT_DEVICE_HOST@ ==> probed_name(
            addr,
            Ok::<crate::http::HttpReply, String>(reply),
        ) == Some(model),
{
}

/// What does not answer, or not with success, is no device.
pub proof fn silence_is_no_device(addr: Seq<char>, reply: Sent)
    ensures
        reply is Err ==> probed_name(addr, reply) is None,
        (reply matches Ok(r) && r.code >= 300) ==> probed_name(addr, reply) is None,
{
}

/// Every device that was seen is given, at the address and under the name with
/// which it was seen.
pub proof fn seen_devices_are_given(sightings: Seq<Sighting>, k: int)
    requires
        0 <= k < sightings.len(),
        sightings[k].name is Some,
    ensures
        exists|i: int|
            0 <= i < devices_seen(sightings).len() && ({
                let device = #[trigger] devices_seen(sightings)[i];
                &&& device.reachable_addrs == seq![sightings[k].addr@]
                &&& device.name == sightings[k].name->Some_0@
                &&& device.paired == sightings[k].paired
            }),
    decreases sightings.len(),
{
    let all = devices_seen(sightings);
    let init = sightings.drop_last();
    let before = devices_seen(init);
    if k < init.len() {
        assert(init[k] == sightings[k]);
        seen_devices_are_given(init, k);
        let i = choose|i: int|
            0 <= i < before.len() && ({
                let device = #[trigger] before[i];
                &&& device.reachable_addrs == seq![init[k].addr@]
                &&& device.name == init[k].name->Some_0@
                &&& device.paired == init[k].paired
            });
        assert(all[i] == before[i]);
    } else {
        let device = all[all.len() - 1];
        assert(device.reachable_addrs == seq![sightings[k].addr@]);
    }
}

/// An address that the user names is tried, alone or before others.
pub proof fn named_address_is_tried(
    addr: Seq<char>,
    more: Seq<char>,
    known: Seq<Seq<char>>,
    interfaces: Seq<Interface>,
)
    requires
        !addr.contains(','),
        trimmed(addr).len() > 0,
    ensures
        is_candidate(Some(addr), known, interfaces, trimmed(addr)),
        is_candidate(Some(addr + seq![','] + more), known, interfaces, trimmed(addr)),
{
    crate::text::first_piece(addr, more, ',');
    assert(pieces(addr, ',')[0] == addr);
    assert(pieces(addr + seq![','] + more, ',')[0] == addr);
}

/// Each private network of this machine is one in which devices may be.
proof fn networks_are_subnets(interfaces: Seq<Interface>, k: int)
    requires
        0 <= k < interfaces.len(),
        interfaces[k].counts(),
    ensures
        subnets(interfaces).contains((interfaces[k].network(), interfaces[k].broadcast())),
    decreases interfaces.len(),
{
    let all = subnets(interfaces);
    let init = interfaces.drop_last();
    let before = subnets(init);
    let net = (interfaces[k].network(), interfaces[k].broadcast());
    if k < init.len() {
        assert(init[k] == interfaces[k]);
        networks_are_subnets(init, k);
        let i = choose|i: int| 0 <= i < before.len() && before[i] == net;
        assert(all[i] == net);
    } else {
        assert(all[all.len() - 1] == net);
    }
}

/// Each network in which devices may be is a private one of this machine.
proof fn subnets_are_networks(interfaces: Seq<Interface>, i: int)
    requires
        0 <= i < subnets(interfaces).len(),
    ensures
        exists|k: int|
            0 <= k < interfaces.len() && (#[trigger] interfaces[k]).counts() && subnets(
                interfaces,
            )[i] == (interfaces[k].network(), interfaces[k].broadcast()),
    decreases interfaces.len(),
{
    let init = interfaces.drop_last();
    let before = subnets(init);
    if i < before.len() {
        subnets_are_networks(init, i);
        let k = choose|k: int|
            0 <= k < init.len() && (#[trigger] init[k]).counts() && before[i] == (
                init[k].network(),
                init[k].broadcast(),
            );
        assert(interfaces[k] == init[k]);
    } else {
        assert(interfaces[interfaces.len() - 1].counts());
    }
}

/// A known address is tried where it is no private IPv4 address, and a private one
/// where it is inside a private network of this machine; another one is not tried
/// for being known.
pub proof fn known_address_is_tried_where_it_can_be(
    known: Seq<Seq<char>>,
    interfaces: Seq<Interface>,
    addr: Seq<char>,
    ip: u32,
    k: int,
)
    requires
        known.contains(addr),
    ensures
        (forall|other: u32| addr != #[trigger] dotted(other)) ==> is_candidate(
            None,
            known,
            interfaces,
            addr,
        ),
        addr == dotted(ip) && !is_private(ip) ==> is_candidate(None, known, interfaces, addr),
        addr == dotted(ip) && 0 <= k < interfaces.len() && is_private(interfaces[k].ip) && (
        interfaces[k].ip & interfaces[k].netmask) < ip && ip < ((interfaces[k].ip
            & interfaces[k].netmask) | !interfaces[k].netmask) ==> is_candidate(
            None,
            known,
            interfaces,
            addr,
        ),
        addr == dotted(ip) && is_private(ip) && (forall|j: int|
            0 <= j < interfaces.len() && (#[trigger] interfaces[j]).counts()
                ==> !interfaces[j].holds(ip)) ==> !tried(known, subnets(interfaces)).contains(addr),
{
    let nets = subnets(interfaces);
    let keep = |a: Seq<char>| worth_trying(a, nets);
    let i = choose|i: int| 0 <= i < known.len() && known[i] == addr;
    if worth_trying(addr, nets) {
        known.lemma_filter_contains(keep, i);
    }
    if addr == dotted(ip) {
        assert forall|other: u32| addr == #[trigger] dotted(other) implies other == ip by {
            dotted_is_injective(ip, other);
        }
    }
    if addr == dotted(ip) && 0 <= k < interfaces.len() && is_private(interfaces[k].ip)
        && interfaces[k].holds(ip) {
        private_addresses_are_three_ranges(interfaces[k].ip);
        assert(interfaces[k].counts());
        networks_are_subnets(interfaces, k);
        let net = (interfaces[k].network(), interfaces[k].broadcast());
        let n = choose|n: int| 0 <= n < nets.len() && nets[n] == net;
        assert(nets[n].0 < ip < nets[n].1);
        assert(in_some_subnet(ip, nets));
        assert(worth_trying(addr, nets));
    }
    if addr == dotted(ip) && is_private(ip) && tried(known, nets).contains(addr) {
        let kept = known.filter(keep);
        let n = choose|n: int| 0 <= n < kept.len() && kept[n] == addr;
        known.lemma_filter_pred(keep, n);
        assert(worth_trying(addr, nets));
        assert(in_some_subnet(ip, nets));
        let m = choose|m: int| 0 <= m < nets.len() && (#[trigger] nets[m]).0 < ip < nets[m].1;
        subnets_are_networks(interfaces, m);
    }
}

/// The hosts with common numbers are tried in every private network that holds
/// them, but our own.
pub proof fn common_hosts_are_tried(interface: Interface, host: u8, a: u8, b: u8, c: u8, d: u8)
    requires
        is_private(interface.ip),
        interface.ip == a * 0x100_0000 + b * 0x1_0000 + c * 0x100 + d,
        host != d,
        host == 1 || host == 2 || host == 10 || host == 20 || host == 30 || host == 50 || host == 80
            || host == 92 || host == 100 || host == 110 || host == 150 || host == 200 || host == 254,
        interface.holds((a * 0x100_0000 + b * 0x1_0000 + c * 0x100 + host) as u32),
    ensures
        hosts_of(interface).contains(
            dotted((a * 0x100_0000 + b * 0x1_0000 + c * 0x100 + host) as u32),
        ),
{
    let target = (a * 0x100_0000 + b * 0x1_0000 + c * 0x100 + host) as u32;
    private_addresses_are_three_ranges(interface.ip);
    made_octets(a, b, c, d);
    assert(address_of(a, b, c, d) == interface.ip);
    assert(address_of(a, b, c, host) == target);
    if interface.broadcast() - interface.network() - 1 <= SMALL_NETWORK {
        small_network_is_walked(
            interface.ip,
            interface.network() as int,
            interface.broadcast() as int,
            target,
        );
    } else {
        let n = choose|n: int| 0 <= n < 13 && #[trigger] COMMON_HOSTS@[n] == host;
        common_host_is_among(interface, n, 13);
    }
}

proof fn common_host_is_among(interface: Interface, n: int, count: int)
    requires
        0 <= n < count <= 13,
        COMMON_HOSTS@[n] != octet(interface.ip, 3),
        interface.holds(
            address_of(
                octet(interface.ip, 0),
                octet(interface.ip, 1),
                octet(interface.ip, 2),
                COMMON_HOSTS@[n],
            ),
        ),
    ensures
        common_hosts(interface, count).contains(
            dotted(
                address_of(
                    octet(interface.ip, 0),
                    octet(interface.ip, 1),
                    octet(interface.ip, 2),
                    COMMON_HOSTS@[n],
                ),
            ),
        ),
    decreases count,
{
    let all = common_hosts(interface, count);
    let before = common_hosts(interface, count - 1);
    let text = dotted(
        address_of(
            octet(interface.ip, 0),
            octet(interface.ip, 1),
            octet(interface.ip, 2),
            COMMON_HOSTS@[n],
        ),
    );
    if n == count - 1 {
        assert(all[all.len() - 1] == text);
    } else {
        common_host_is_among(interface, n, count - 1);
        let i = choose|i: int| 0 <= i < before.len() && before[i] == text;
        assert(all[i] == text);
    }
}

} // verus!
