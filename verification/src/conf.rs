use crate::numfmt::{dec_of, hex_of, u16_to_hex, u64_to_dec};
use vstd::prelude::*;
use vstd::string::*;

verus! {

/// An IPv4 address, as four octets in network order.
#[derive(Clone, Copy, Debug)]
pub struct IpV4 {
    pub octets: [u8; 4],
}

/// An IPv6 address, as sixteen octets in network order.
#[derive(Clone, Copy, Debug)]
pub struct IpV6 {
    pub octets: [u8; 16],
}

/// A network-layer address of either family.
#[derive(Clone, Copy, Debug)]
pub enum IpAddr {
    V4(IpV4),
    V6(IpV6),
}

/// A link-layer address, as six octets.
#[derive(Clone, Copy, Debug)]
pub struct MacAddr {
    pub octets: [u8; 6],
}

/// Network-layer protocol of a captured frame, as read from the protocol
/// field of the network header.
#[derive(Clone, Copy, Debug, PartialEq, Eq, Structural)]
pub enum Protocol {
    Tcp,
    Udp,
    Icmp,
    Unknown,
}

/// One entry of an address filter list: either a literal address or a
/// hostname; matching against displayed strings uses the hostname form.
#[derive(Clone, Debug)]
pub enum IpAddrOrHostname {
    Ip(IpAddr),
    Hostname(String),
}

impl View for IpV4 {
    type V = Seq<u8>;

    open spec fn view(&self) -> Seq<u8> {
        self.octets@
    }
}

impl View for IpV6 {
    type V = Seq<u8>;

    open spec fn view(&self) -> Seq<u8> {
        self.octets@
    }
}

impl View for MacAddr {
    type V = Seq<u8>;

    open spec fn view(&self) -> Seq<u8> {
        self.octets@
    }
}

impl From<[u8; 4]> for IpV4 {
    fn from(octets: [u8; 4]) -> (r: Self) {
        IpV4 { octets }
    }
}

impl vstd::std_specs::convert::FromSpecImpl<[u8; 4]> for IpV4 {
    open spec fn obeys_from_spec() -> bool {
        true
    }

    open spec fn from_spec(octets: [u8; 4]) -> Self {
        IpV4 { octets }
    }
}

impl From<(u8, u8, u8, u8)> for IpV4 {
    fn from(octets: (u8, u8, u8, u8)) -> (r: Self) {
        IpV4 { octets: [octets.0, octets.1, octets.2, octets.3] }
    }
}

impl vstd::std_specs::convert::FromSpecImpl<(u8, u8, u8, u8)> for IpV4 {
    open spec fn obeys_from_spec() -> bool {
        true
    }

    open spec fn from_spec(octets: (u8, u8, u8, u8)) -> Self {
        IpV4 { octets: [octets.0, octets.1, octets.2, octets.3] }
    }
}

/// The sixteen address octets that a sequence of eight 16-bit groups denotes,
/// each group split big-endian into two octets.
pub open spec fn ipv6_octets_of_groups(g: Seq<u16>) -> Seq<u8> {
    Seq::new(16, |i: int| if i % 2 == 0 {
        (g[i / 2] / 256) as u8
    } else {
        (g[i / 2] % 256) as u8
    })
}

impl IpV4 {
    /// Reads an address from the first four octets of a buffer.
    pub fn from_octet_vec(octets: &Vec<u8>) -> (r: Self)
        requires
            octets@.len() >= 4,
        ensures
            r@ == seq![octets@[0], octets@[1], octets@[2], octets@[3]],
    {
        let r = IpV4 { octets: [octets[0], octets[1], octets[2], octets[3]] };
        proof {
            assert(r@ =~= seq![octets@[0], octets@[1], octets@[2], octets@[3]]);
        }
        r
    }
}

impl IpV6 {
    /// Builds an address from the first eight 16-bit groups of a buffer,
    /// splitting each group big-endian into two octets.
    pub fn from_group_vec(groups: &Vec<u16>) -> (r: Self)
        requires
            groups@.len() >= 8,
        ensures
            r@ == ipv6_octets_of_groups(groups@.take(8)),
    {
        let r = IpV6 {
            octets: [
                (groups[0] / 256) as u8,
                (groups[0] % 256) as u8,
                (groups[1] / 256) as u8,
                (groups[1] % 256) as u8,
                (groups[2] / 256) as u8,
                (groups[2] % 256) as u8,
                (groups[3] / 256) as u8,
                (groups[3] % 256) as u8,
                (groups[4] / 256) as u8,
                (groups[4] % 256) as u8,
                (groups[5] / 256) as u8,
                (groups[5] % 256) as u8,
                (groups[6] / 256) as u8,
                (groups[6] % 256) as u8,
                (groups[7] / 256) as u8,
                (groups[7] % 256) as u8,
            ],
        };
        proof {
            assert(r@ =~= ipv6_octets_of_groups(groups@.take(8)));
        }
        r
    }
}

impl From<(u16, u16, u16, u16, u16, u16, u16, u16)> for IpV6 {
    fn from(g: (u16, u16, u16, u16, u16, u16, u16, u16)) -> (r: Self) {
        IpV6 {
            octets: [
                (g.0 / 256) as u8,
                (g.0 % 256) as u8,
                (g.1 / 256) as u8,
                (g.1 % 256) as u8,
                (g.2 / 256) as u8,
                (g.2 % 256) as u8,
                (g.3 / 256) as u8,
                (g.3 % 256) as u8,
                (g.4 / 256) as u8,
                (g.4 % 256) as u8,
                (g.5 / 256) as u8,
                (g.5 % 256) as u8,
                (g.6 / 256) as u8,
                (g.6 % 256) as u8,
                (g.7 / 256) as u8,
                (g.7 % 256) as u8,
            ],
        }
    }
}

impl vstd::std_specs::convert::FromSpecImpl<(u16, u16, u16, u16, u16, u16, u16, u16)> for IpV6 {
    open spec fn obeys_from_spec() -> bool {
        true
    }

    open spec fn from_spec(g: (u16, u16, u16, u16, u16, u16, u16, u16)) -> Self {
        IpV6 {
            octets: [
                (g.0 / 256) as u8,
                (g.0 % 256) as u8,
                (g.1 / 256) as u8,
                (g.1 % 256) as u8,
                (g.2 / 256) as u8,
                (g.2 % 256) as u8,
                (g.3 / 256) as u8,
                (g.3 % 256) as u8,
                (g.4 / 256) as u8,
                (g.4 % 256) as u8,
                (g.5 / 256) as u8,
                (g.5 % 256) as u8,
                (g.6 / 256) as u8,
                (g.6 % 256) as u8,
                (g.7 / 256) as u8,
                (g.7 % 256) as u8,
            ],
        }
    }
}

impl From<[u8; 6]> for MacAddr {
    fn from(octets: [u8; 6]) -> (r: Self) {
        MacAddr { octets }
    }
}

impl vstd::std_specs::convert::FromSpecImpl<[u8; 6]> for MacAddr {
    open spec fn obeys_from_spec() -> bool {
        true
    }

    open spec fn from_spec(octets: [u8; 6]) -> Self {
        MacAddr { octets }
    }
}

impl From<(u8, u8, u8, u8, u8, u8)> for MacAddr {
    fn from(octets: (u8, u8, u8, u8, u8, u8)) -> (r: Self) {
        MacAddr { octets: [octets.0, octets.1, octets.2, octets.3, octets.4, octets.5] }
    }
}

impl vstd::std_specs::convert::FromSpecImpl<(u8, u8, u8, u8, u8, u8)> for MacAddr {
    open spec fn obeys_from_spec() -> bool {
        true
    }

    open spec fn from_spec(octets: (u8, u8, u8, u8, u8, u8)) -> Self {
        MacAddr { octets: [octets.0, octets.1, octets.2, octets.3, octets.4, octets.5] }
    }
}

impl MacAddr {
    /// Reads an address from the first six octets of a buffer.
    pub fn from_octet_vec(octets: &Vec<u8>) -> (r: Self)
        requires
            octets@.len() >= 6,
        ensures
            r@ == seq![octets@[0], octets@[1], octets@[2], octets@[3], octets@[4], octets@[5]],
    {
        let r = MacAddr {
            octets: [octets[0], octets[1], octets[2], octets[3], octets[4], octets[5]],
        };
        proof {
            assert(r@ =~= seq![
                octets@[0],
                octets@[1],
                octets@[2],
                octets@[3],
                octets@[4],
                octets@[5],
            ]);
        }
        r
    }

    /// Whether two link-layer addresses hold the same octets.
    pub fn eq_mac(&self, other: &MacAddr) -> (r: bool)
        ensures
            r == (self@ == other@),
    {
        let r = self.octets[0] == other.octets[0] && self.octets[1] == other.octets[1]
            && self.octets[2] == other.octets[2] && self.octets[3] == other.octets[3]
            && self.octets[4] == other.octets[4] && self.octets[5] == other.octets[5];
        proof {
            if r {
                assert(self@ =~= other@);
            }
        }
        r
    }
}

/// The protocol that a given protocol-field value denotes.
pub open spec fn spec_protocol_of(num: u8) -> Protocol {
    if num == 1 {
        Protocol::Icmp
    } else if num == 6 {
        Protocol::Tcp
    } else if num == 17 {
        Protocol::Udp
    } else {
        Protocol::Unknown
    }
}

impl From<u8> for Protocol {
    fn from(num: u8) -> (p: Self) {
        match num {
            1 => Protocol::Icmp,
            6 => Protocol::Tcp,
            17 => Protocol::Udp,
            _ => Protocol::Unknown,
        }
    }
}

impl vstd::std_specs::convert::FromSpecImpl<u8> for Protocol {
    open spec fn obeys_from_spec() -> bool {
        true
    }

    open spec fn from_spec(num: u8) -> Self {
        spec_protocol_of(num)
    }
}

/// Whether two addresses are of the same family and hold the same octets.
pub open spec fn addr_eq(a: IpAddr, b: IpAddr) -> bool {
    match (a, b) {
        (IpAddr::V4(x), IpAddr::V4(y)) => x@ == y@,
        (IpAddr::V6(x), IpAddr::V6(y)) => x@ == y@,
        _ => false,
    }
}

impl IpAddr {
    /// Whether two addresses are of the same family and hold the same octets.
    pub fn eq_addr(&self, other: &IpAddr) -> (r: bool)
        ensures
            r == addr_eq(*self, *other),
    {
        match (self, other) {
            (IpAddr::V4(x), IpAddr::V4(y)) => {
                let r = x.octets[0] == y.octets[0] && x.octets[1] == y.octets[1] && x.octets[2]
                    == y.octets[2] && x.octets[3] == y.octets[3];
                proof {
                    if r {
                        assert(x@ =~= y@);
                    }
                }
                r
            },
            (IpAddr::V6(x), IpAddr::V6(y)) => {
                let r = x.octets[0] == y.octets[0] && x.octets[1] == y.octets[1] && x.octets[2]
                    == y.octets[2] && x.octets[3] == y.octets[3] && x.octets[4] == y.octets[4]
                    && x.octets[5] == y.octets[5] && x.octets[6] == y.octets[6] && x.octets[7]
                    == y.octets[7] && x.octets[8] == y.octets[8] && x.octets[9] == y.octets[9]
                    && x.octets[10] == y.octets[10] && x.octets[11] == y.octets[11] && x.octets[12]
                    == y.octets[12] && x.octets[13] == y.octets[13] && x.octets[14] == y.octets[14]
                    && x.octets[15] == y.octets[15];
                proof {
                    if r {
                        assert(x@ =~= y@);
                    }
                }
                r
            },
            _ => false,
        }
    }
}

/// Whether two filter entries are equal: two literal addresses with the same
/// octets, or two hostnames with the same characters.
pub open spec fn entry_eq(a: IpAddrOrHostname, b: IpAddrOrHostname) -> bool {
    match (a, b) {
        (IpAddrOrHostname::Ip(x), IpAddrOrHostname::Ip(y)) => addr_eq(x, y),
        (IpAddrOrHostname::Hostname(x), IpAddrOrHostname::Hostname(y)) => x@ == y@,
        _ => false,
    }
}

impl IpAddrOrHostname {
    /// Whether two filter entries are equal.
    pub fn eq_entry(&self, other: &IpAddrOrHostname) -> (r: bool)
        ensures
            r == entry_eq(*self, *other),
    {
        match (self, other) {
            (IpAddrOrHostname::Ip(x), IpAddrOrHostname::Ip(y)) => x.eq_addr(y),
            (IpAddrOrHostname::Hostname(x), IpAddrOrHostname::Hostname(y)) => x.eq(y),
            _ => false,
        }
    }
}

/// The displayed form of an IPv4 address: the four octets in decimal,
/// separated by dots.
pub open spec fn ipv4_str_of(o: Seq<u8>) -> Seq<char> {
    dec_of(o[0] as nat) + seq!['.'] + dec_of(o[1] as nat) + seq!['.'] + dec_of(o[2] as nat)
        + seq!['.'] + dec_of(o[3] as nat)
}

/// The 16-bit group of an IPv6 address starting at octet `2 * i`.
pub open spec fn group_of(o: Seq<u8>, i: int) -> nat {
    (o[2 * i] as nat) * 256 + (o[2 * i + 1] as nat)
}

/// The displayed form of an IPv6 address: the eight 16-bit groups in
/// lower-case hexadecimal without padding, separated by colons.
pub open spec fn ipv6_str_of(o: Seq<u8>) -> Seq<char> {
    ipv6_prefix_str(o, 8)
}

/// The displayed form of an address of either family.
pub open spec fn ip_str_of(a: IpAddr) -> Seq<char> {
    match a {
        IpAddr::V4(ip) => ipv4_str_of(ip@),
        IpAddr::V6(ip) => ipv6_str_of(ip@),
    }
}

/// The displayed form of a link-layer address: the six octets in lower-case
/// hexadecimal without padding, separated by colons.
pub open spec fn mac_str_of(o: Seq<u8>) -> Seq<char> {
    mac_prefix_str(o, 6)
}

/// The displayed name of a protocol.
pub open spec fn protocol_str_of(p: Protocol) -> Seq<char> {
    match p {
        Protocol::Tcp => seq!['T', 'C', 'P'],
        Protocol::Udp => seq!['U', 'D', 'P'],
        Protocol::Icmp => seq!['I', 'C', 'M', 'P'],
        Protocol::Unknown => seq!['?', '?', '?'],
    }
}

impl IpV4 {
    /// Renders the address as its dotted decimal form.
    pub fn to_display_string(&self) -> (s: String)
        ensures
            s@ == ipv4_str_of(self@),
    {
        let mut s = u64_to_dec(self.octets[0] as u64);
        proof {
            reveal_strlit(".");
        }
        s.append(".");
        let d1 = u64_to_dec(self.octets[1] as u64);
        s.append(d1.as_str());
        s.append(".");
        let d2 = u64_to_dec(self.octets[2] as u64);
        s.append(d2.as_str());
        s.append(".");
        let d3 = u64_to_dec(self.octets[3] as u64);
        s.append(d3.as_str());
        proof {
            assert((".")@ =~= seq!['.']);
            assert(s@ =~= ipv4_str_of(self@));
        }
        s
    }
}

impl IpV6 {
    /// Renders the address as its eight colon-separated hexadecimal groups.
    pub fn to_display_string(&self) -> (s: String)
        ensures
            s@ == ipv6_str_of(self@),
    {
        proof {
            reveal_strlit(":");
        }
        let mut s = String::new();
        let mut i: usize = 0;
        while i < 8
            invariant
                i <= 8,
                (":")@ =~= seq![':'],
                s@ == ipv6_prefix_str(self@, i as int),
            decreases 8 - i,
        {
            if i > 0 {
                s.append(":");
            }
            let g: u16 = (self.octets[2 * i] as u16) * 256 + (self.octets[2 * i + 1] as u16);
            let h = u16_to_hex(g);
            s.append(h.as_str());
            proof {
                assert(g as nat == group_of(self@, i as int));
                assert(s@ =~= ipv6_prefix_str(self@, i as int + 1));
            }
            i = i + 1;
        }
        proof {
            assert(ipv6_prefix_str(self@, 8) =~= ipv6_str_of(self@));
        }
        s
    }
}

/// The first `k` colon-separated groups of the displayed IPv6 form.
pub open spec fn ipv6_prefix_str(o: Seq<u8>, k: int) -> Seq<char>
    decreases k,
{
    if k <= 0 {
        Seq::empty()
    } else if k == 1 {
        hex_of(group_of(o, 0))
    } else {
        ipv6_prefix_str(o, k - 1) + seq![':'] + hex_of(group_of(o, k - 1))
    }
}

/// The first `k` colon-separated octets of the displayed link-layer form.
pub open spec fn mac_prefix_str(o: Seq<u8>, k: int) -> Seq<char>
    decreases k,
{
    if k <= 0 {
        Seq::empty()
    } else if k == 1 {
        hex_of(o[0] as nat)
    } else {
        mac_prefix_str(o, k - 1) + seq![':'] + hex_of(o[k - 1] as nat)
    }
}

impl IpAddr {
    /// Renders the address in the displayed form of its family.
    pub fn to_display_string(&self) -> (s: String)
        ensures
            s@ == ip_str_of(*self),
    {
        match self {
            IpAddr::V4(ip) => ip.to_display_string(),
            IpAddr::V6(ip) => ip.to_display_string(),
        }
    }
}

impl MacAddr {
    /// Renders the address as its six colon-separated hexadecimal octets.
    pub fn to_display_string(&self) -> (s: String)
        ensures
            s@ == mac_str_of(self@),
    {
        proof {
            reveal_strlit(":");
        }
        let mut s = String::new();
        let mut i: usize = 0;
        while i < 6
            invariant
                i <= 6,
                (":")@ =~= seq![':'],
                s@ == mac_prefix_str(self@, i as int),
            decreases 6 - i,
        {
            if i > 0 {
                s.append(":");
            }
            let h = u16_to_hex(self.octets[i] as u16);
            s.append(h.as_str());
            proof {
                assert(s@ =~= mac_prefix_str(self@, i as int + 1));
            }
            i = i + 1;
        }
        proof {
            assert(mac_prefix_str(self@, 6) =~= mac_str_of(self@));
        }
        s
    }
}

impl Protocol {
    /// Renders the protocol's displayed name.
    pub fn to_display_string(&self) -> (s: String)
        ensures
            s@ == protocol_str_of(*self),
    {
        match self {
            Protocol::Tcp => {
                proof {
                    reveal_strlit("TCP");
                    assert(("TCP")@ =~= seq!['T', 'C', 'P']);
                }
                String::from_str("TCP")
            },
            Protocol::Udp => {
                proof {
                    reveal_strlit("UDP");
                    assert(("UDP")@ =~= seq!['U', 'D', 'P']);
                }
                String::from_str("UDP")
            },
            Protocol::Icmp => {
                proof {
                    reveal_strlit("ICMP");
                    assert(("ICMP")@ =~= seq!['I', 'C', 'M', 'P']);
                }
                String::from_str("ICMP")
            },
            Protocol::Unknown => {
                proof {
                    reveal_strlit("???");
                    assert(("???")@ =~= seq!['?', '?', '?']);
                }
                String::from_str("???")
            },
        }
    }
}

} // verus!

use crate::text::{
    all_dec_digits, all_hex_digits, dec_val, eq_ignore_case, hex_val, matches_ci, parse_dec_u8,
    parse_hex_bounded, split_on, split_str, str_contains_char, views_of,
};

verus! {

/// The error of a malformed address literal.
#[derive(Clone, Copy, Debug, PartialEq, Eq, Structural)]
pub enum AddrError {
    InvalidIp,
    InvalidMac,
}

/// The message that an address error carries.
pub open spec fn addr_error_message(e: AddrError) -> Seq<char> {
    match e {
        AddrError::InvalidIp => ("Invalid IP address")@,
        AddrError::InvalidMac => ("Invalid MAC address")@,
    }
}

impl AddrError {
    /// The message that the error carries.
    pub fn message(&self) -> (m: &'static str)
        ensures
            m@ == addr_error_message(*self),
    {
        match self {
            AddrError::InvalidIp => "Invalid IP address",
            AddrError::InvalidMac => "Invalid MAC address",
        }
    }
}

/// Whether a string is a well-formed dotted-decimal IPv4 literal: four
/// dot-separated decimal labels, each no greater than 255.
pub open spec fn valid_ipv4_str(s: Seq<char>) -> bool {
    let p = split_on(s, '.');
    p.len() == 4 && forall|i: int|
        0 <= i < 4 ==> all_dec_digits(#[trigger] p[i]) && dec_val(p[i]) <= 255
}

/// The four octets that a well-formed IPv4 literal denotes.
pub open spec fn ipv4_octets_of_str(s: Seq<char>) -> Seq<u8> {
    let p = split_on(s, '.');
    seq![
        dec_val(p[0]) as u8,
        dec_val(p[1]) as u8,
        dec_val(p[2]) as u8,
        dec_val(p[3]) as u8,
    ]
}

impl IpV4 {
    /// Parses a dotted-decimal IPv4 literal; any other string is an error.
    pub fn from_str(s: &str) -> (r: Result<IpV4, AddrError>)
        ensures
            r is Ok <==> valid_ipv4_str(s@),
            r is Ok ==> r->Ok_0@ == ipv4_octets_of_str(s@),
            r is Err ==> r->Err_0 == AddrError::InvalidIp,
    {
        let parts = split_str(s, '.');
        proof {
            assert(views_of(parts@).len() == parts@.len());
        }
        if parts.len() != 4 {
            return Err(AddrError::InvalidIp);
        }
        let ghost p = split_on(s@, '.');
        proof {
            assert(p[0] == views_of(parts@)[0]);
            assert(p[1] == views_of(parts@)[1]);
            assert(p[2] == views_of(parts@)[2]);
            assert(p[3] == views_of(parts@)[3]);
        }
        let v0 = match parse_dec_u8(parts[0].as_str()) {
            Some(v) => v,
            None => {
                return Err(AddrError::InvalidIp);
            },
        };
        let v1 = match parse_dec_u8(parts[1].as_str()) {
            Some(v) => v,
            None => {
                return Err(AddrError::InvalidIp);
            },
        };
        let v2 = match parse_dec_u8(parts[2].as_str()) {
            Some(v) => v,
            None => {
                return Err(AddrError::InvalidIp);
            },
        };
        let v3 = match parse_dec_u8(parts[3].as_str()) {
            Some(v) => v,
            None => {
                return Err(AddrError::InvalidIp);
            },
        };
        let ip = IpV4 { octets: [v0, v1, v2, v3] };
        proof {
            assert(ip@ =~= ipv4_octets_of_str(s@));
        }
        Ok(ip)
    }
}

/// Whether a string is a well-formed full-form IPv6 literal: eight
/// colon-separated hexadecimal groups, each no greater than 0xffff.
pub open spec fn valid_ipv6_str(s: Seq<char>) -> bool {
    let p = split_on(s, ':');
    p.len() == 8 && forall|i: int|
        0 <= i < 8 ==> all_hex_digits(#[trigger] p[i]) && hex_val(p[i]) <= 0xFFFF
}

/// The eight 16-bit groups that a well-formed IPv6 literal denotes.
pub open spec fn ipv6_groups_of_str(s: Seq<char>) -> Seq<u16> {
    Seq::new(8, |i: int| hex_val(split_on(s, ':')[i]) as u16)
}

impl IpV6 {
    /// Parses a full-form IPv6 literal of eight hexadecimal groups; any other
    /// string, including the abbreviated `::` forms, is an error.
    pub fn from_str(s: &str) -> (r: Result<IpV6, AddrError>)
        ensures
            r is Ok <==> valid_ipv6_str(s@),
            r is Ok ==> r->Ok_0@ == ipv6_octets_of_groups(ipv6_groups_of_str(s@)),
            r is Err ==> r->Err_0 == AddrError::InvalidIp,
    {
        let parts = split_str(s, ':');
        proof {
            assert(views_of(parts@).len() == parts@.len());
        }
        if parts.len() != 8 {
            return Err(AddrError::InvalidIp);
        }
        let ghost p = split_on(s@, ':');
        proof {
            assert(forall|i: int|
                0 <= i < 8 ==> #[trigger] p[i] == views_of(parts@)[i] && views_of(parts@)[i]
                    == parts@[i]@);
        }
        let mut groups: Vec<u16> = Vec::new();
        let mut i: usize = 0;
        while i < 8
            invariant
                i <= 8,
                parts@.len() == 8,
                p == split_on(s@, ':'),
                forall|k: int| 0 <= k < 8 ==> #[trigger] p[k] == parts@[k]@,
                groups@.len() == i,
                forall|k: int|
                    0 <= k < i ==> all_hex_digits(#[trigger] p[k]) && hex_val(p[k]) <= 0xFFFF
                        && groups@[k] as nat == hex_val(p[k]),
            decreases 8 - i,
        {
            match parse_hex_bounded(parts[i].as_str(), 0xFFFF) {
                Some(v) => {
                    groups.push(v as u16);
                },
                None => {
                    proof {
                        assert(p[i as int] == views_of(parts@)[i as int]);
                    }
                    return Err(AddrError::InvalidIp);
                },
            }
            i = i + 1;
        }
        let ip = IpV6::from_group_vec(&groups);
        proof {
            assert(groups@.take(8) =~= groups@);
            assert(groups@ =~= ipv6_groups_of_str(s@));
        }
        Ok(ip)
    }
}

/// Whether a string is a well-formed MAC literal: six colon-separated
/// hexadecimal octets.
pub open spec fn valid_mac_str(s: Seq<char>) -> bool {
    let p = split_on(s, ':');
    p.len() == 6 && forall|i: int|
        0 <= i < 6 ==> all_hex_digits(#[trigger] p[i]) && hex_val(p[i]) <= 255
}

/// The six octets that a well-formed MAC literal denotes.
pub open spec fn mac_octets_of_str(s: Seq<char>) -> Seq<u8> {
    Seq::new(6, |i: int| hex_val(split_on(s, ':')[i]) as u8)
}

impl MacAddr {
    /// Parses a MAC literal of six colon-separated hexadecimal octets; any
    /// other string is an error.
    pub fn from_str(s: &str) -> (r: Result<MacAddr, AddrError>)
        ensures
            r is Ok <==> valid_mac_str(s@),
            r is Ok ==> r->Ok_0@ == mac_octets_of_str(s@),
            r is Err ==> r->Err_0 == AddrError::InvalidMac,
    {
        let parts = split_str(s, ':');
        proof {
            assert(views_of(parts@).len() == parts@.len());
        }
        if parts.len() != 6 {
            return Err(AddrError::InvalidMac);
        }
        let ghost p = split_on(s@, ':');
        proof {
            assert(forall|i: int|
                0 <= i < 6 ==> #[trigger] p[i] == views_of(parts@)[i] && views_of(parts@)[i]
                    == parts@[i]@);
        }
        let mut octets: Vec<u8> = Vec::new();
        let mut i: usize = 0;
        while i < 6
            invariant
                i <= 6,
                parts@.len() == 6,
                p == split_on(s@, ':'),
                forall|k: int| 0 <= k < 6 ==> #[trigger] p[k] == parts@[k]@,
                octets@.len() == i,
                forall|k: int|
                    0 <= k < i ==> all_hex_digits(#[trigger] p[k]) && hex_val(p[k]) <= 255
                        && octets@[k] as nat == hex_val(p[k]),
            decreases 6 - i,
        {
            match parse_hex_bounded(parts[i].as_str(), 255) {
                Some(v) => {
                    octets.push(v as u8);
                },
                None => {
                    proof {
                        assert(p[i as int] == views_of(parts@)[i as int]);
                    }
                    return Err(AddrError::InvalidMac);
                },
            }
            i = i + 1;
        }
        let mac = MacAddr::from_octet_vec(&octets);
        proof {
            assert(mac@ =~= mac_octets_of_str(s@));
        }
        Ok(mac)
    }
}

impl IpAddr {
    /// Parses an address literal: a string with a colon as a full-form IPv6
    /// literal, any other as a dotted-decimal IPv4 literal.
    pub fn from_str(s: &str) -> (r: Result<IpAddr, AddrError>)
        ensures
            s@.contains(':') ==> (r is Ok <==> valid_ipv6_str(s@)),
            s@.contains(':') && r is Ok ==> r->Ok_0 is V6 && r->Ok_0->V6_0@
                == ipv6_octets_of_groups(ipv6_groups_of_str(s@)),
            !s@.contains(':') ==> (r is Ok <==> valid_ipv4_str(s@)),
            !s@.contains(':') && r is Ok ==> r->Ok_0 is V4 && r->Ok_0->V4_0@
                == ipv4_octets_of_str(s@),
            r is Err ==> r->Err_0 == AddrError::InvalidIp,
    {
        if str_contains_char(s, ':') {
            match IpV6::from_str(s) {
                Ok(ip) => Ok(IpAddr::V6(ip)),
                Err(e) => Err(e),
            }
        } else {
            match IpV4::from_str(s) {
                Ok(ip) => Ok(IpAddr::V4(ip)),
                Err(e) => Err(e),
            }
        }
    }
}

impl IpAddrOrHostname {
    /// Reads a filter entry: a string with a colon is taken as an IPv6
    /// literal, any other as a hostname. A string with a colon that is not a
    /// well-formed IPv6 literal is outside this function's domain.
    pub fn from(s: &str) -> (r: IpAddrOrHostname)
        requires
            s@.contains(':') ==> valid_ipv6_str(s@),
        ensures
            s@.contains(':') ==> r is Ip && r->Ip_0 is V6 && r->Ip_0->V6_0@
                == ipv6_octets_of_groups(ipv6_groups_of_str(s@)),
            !s@.contains(':') ==> r is Hostname && r->Hostname_0@ == s@,
    {
        if str_contains_char(s, ':') {
            match IpAddr::from_str(s) {
                Ok(ip) => IpAddrOrHostname::Ip(ip),
                Err(_) => {
                    proof {
                        assert(false);
                    }
                    IpAddrOrHostname::Hostname(String::new())
                },
            }
        } else {
            IpAddrOrHostname::Hostname(s.to_owned())
        }
    }
}

/// The protocol that a name denotes, compared without regard to ASCII case:
/// unrecognized names denote the unknown protocol.
pub open spec fn spec_protocol_from_name(s: Seq<char>) -> Protocol {
    if matches_ci(s, ("tcp")@) {
        Protocol::Tcp
    } else if matches_ci(s, ("udp")@) {
        Protocol::Udp
    } else if matches_ci(s, ("icmp")@) {
        Protocol::Icmp
    } else {
        Protocol::Unknown
    }
}

impl Protocol {
    /// Reads a protocol name, ignoring ASCII case; an unrecognized name is the
    /// unknown protocol, not an error.
    pub fn from_str(s: &str) -> (r: Result<Protocol, AddrError>)
        ensures
            r is Ok,
            r->Ok_0 == spec_protocol_from_name(s@),
    {
        proof {
            reveal_strlit("tcp");
            reveal_strlit("udp");
            reveal_strlit("icmp");
        }
        if eq_ignore_case(s, "tcp") {
            Ok(Protocol::Tcp)
        } else if eq_ignore_case(s, "udp") {
            Ok(Protocol::Udp)
        } else if eq_ignore_case(s, "icmp") {
            Ok(Protocol::Icmp)
        } else {
            Ok(Protocol::Unknown)
        }
    }
}

/// The filtering and display policy, read once at startup.
#[derive(Clone, Debug)]
pub struct Config {
    pub verbose: bool,
    pub log_file: Option<String>,
    pub exclude_ips: Option<Vec<IpAddrOrHostname>>,
    pub exclude_macs: Option<Vec<MacAddr>>,
    pub filter_ips: Option<Vec<IpAddrOrHostname>>,
    pub filter_macs: Option<Vec<MacAddr>>,
    pub highlight_ips: Option<Vec<IpAddrOrHostname>>,
    pub highlight_macs: Option<Vec<MacAddr>>,
    pub protocol: Option<Protocol>,
    pub load_from_file: Option<String>,
    pub real_time_playback: bool,
    pub hostnames: bool,
}

/// Builds the policy from the values read off the command line. A requested
/// protocol restriction to the unknown protocol means no restriction.
pub fn get_conf(
    verbose: bool,
    log_file: Option<String>,
    exclude_ips: Option<Vec<IpAddrOrHostname>>,
    exclude_macs: Option<Vec<MacAddr>>,
    filter_ips: Option<Vec<IpAddrOrHostname>>,
    filter_macs: Option<Vec<MacAddr>>,
    highlight_ips: Option<Vec<IpAddrOrHostname>>,
    highlight_macs: Option<Vec<MacAddr>>,
    protocol: Option<Protocol>,
    load_from_file: Option<String>,
    real_time_playback: bool,
    hostnames: bool,
) -> (c: Config)
    ensures
        c.verbose == verbose,
        c.log_file == log_file,
        c.exclude_ips == exclude_ips,
        c.exclude_macs == exclude_macs,
        c.filter_ips == filter_ips,
        c.filter_macs == filter_macs,
        c.highlight_ips == highlight_ips,
        c.highlight_macs == highlight_macs,
        c.protocol == (if protocol == Some(Protocol::Unknown) {
            None::<Protocol>
        } else {
            protocol
        }),
        c.load_from_file == load_from_file,
        c.real_time_playback == real_time_playback,
        c.hostnames == hostnames,
{
    Config {
        verbose,
        log_file,
        exclude_ips,
        exclude_macs,
        filter_ips,
        filter_macs,
        highlight_ips,
        highlight_macs,
        protocol: match protocol {
            Some(Protocol::Unknown) => None,
            _ => protocol,
        },
        load_from_file,
        real_time_playback,
        hostnames,
    }
}

} // verus!
