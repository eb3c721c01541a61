//! Adapter classification.
//!
//! The hard part is not listing adapters, it is telling a real NIC apart from the pile of virtual
//! ones a normal machine accumulates. The interface type alone cannot do it: virtual switches
//! report Ethernet and Wi-Fi Direct pseudo-adapters report Wi-Fi. Descriptions are localised. The
//! reliable signal is the interface's status flags plus its physical medium.
use vstd::prelude::*;
use vstd::string::*;

use super::luid::LuidKey;
use crate::encoding;
use crate::text;

verus! {

pub const IF_TYPE_ETHERNET_CSMACD: u32 = 6;

pub const IF_TYPE_IEEE80211: u32 = 71;

pub const FLAG_HARDWARE_INTERFACE: u8 = 0x01;

pub const FLAG_FILTER_INTERFACE: u8 = 0x02;

pub const FLAG_CONNECTOR_PRESENT: u8 = 0x04;

pub const FLAG_NOT_MEDIA_CONNECTED: u8 = 0x10;

pub const FLAG_END_POINT_INTERFACE: u8 = 0x80;

/// The physical medium of Ethernet.
pub const MEDIUM_802_3: i32 = 14;

/// The physical media of Wi-Fi. The first is wireless, not Ethernet, although it is easily
/// mistaken for it.
pub const MEDIUM_WIRELESS_LAN: i32 = 1;

pub const MEDIUM_WIRELESS_WAN: i32 = 8;

pub const MEDIUM_NATIVE_802_11: i32 = 9;

pub const OPER_STATUS_UP: i32 = 1;

pub const MEDIA_CONNECTED: i32 = 1;

// --- addresses ---------------------------------------------------------------------------

#[derive(Debug, Clone, Copy, PartialEq, Eq, Structural)]
pub struct Ipv4Addr {
    pub a: u8,
    pub b: u8,
    pub c: u8,
    pub d: u8,
}

/// An IPv6 address as its eight 16-bit segments.
#[derive(Debug, Clone, Copy, PartialEq, Eq, Structural)]
pub struct Ipv6Addr {
    pub s0: u16,
    pub s1: u16,
    pub s2: u16,
    pub s3: u16,
    pub s4: u16,
    pub s5: u16,
    pub s6: u16,
    pub s7: u16,
}

#[derive(Debug, Clone, Copy, PartialEq, Eq, Structural)]
pub enum IpAddr {
    V4(Ipv4Addr),
    V6(Ipv6Addr),
}

impl Ipv4Addr {
    pub open spec fn link_local(self) -> bool {
        self.a == 169 && self.b == 254
    }

    /// The address in dotted decimal.
    pub open spec fn display(self) -> Seq<char> {
        text::dec(self.a as nat) + "."@ + text::dec(self.b as nat) + "."@ + text::dec(self.c as nat)
            + "."@ + text::dec(self.d as nat)
    }

    pub fn new(a: u8, b: u8, c: u8, d: u8) -> (r: Ipv4Addr)
        ensures
            r == (Ipv4Addr { a, b, c, d }),
    {
        Ipv4Addr { a, b, c, d }
    }

    pub fn is_link_local(&self) -> (r: bool)
        ensures
            r == self.link_local(),
    {
        self.a == 169 && self.b == 254
    }

    /// The address in dotted decimal.
    pub fn to_text(&self) -> (r: String)
        ensures
            r@ == self.display(),
    {
        let mut r = text::dec_text(self.a as u64);
        r.append(".");
        text::push_dec(&mut r, self.b as u64);
        r.append(".");
        text::push_dec(&mut r, self.c as u64);
        r.append(".");
        text::push_dec(&mut r, self.d as u64);
        r
    }
}

/// An address that can carry traffic off this machine. One that Windows handed out because DHCP
/// failed means the opposite of "this adapter works": every disconnected NIC has one.
pub open spec fn usable_v4(a: Ipv4Addr) -> bool {
    !a.link_local() && a.a != 127 && a != (Ipv4Addr { a: 0, b: 0, c: 0, d: 0 })
}

/// Not link-local (`fe80::/10`), not the loopback and not unspecified.
pub open spec fn usable_v6(a: Ipv6Addr) -> bool {
    &&& !(0xfe80 <= a.s0 <= 0xfebf)
    &&& !(a.s0 == 0 && a.s1 == 0 && a.s2 == 0 && a.s3 == 0 && a.s4 == 0 && a.s5 == 0 && a.s6 == 0
        && a.s7 <= 1)
}

pub fn is_usable_v4(a: &Ipv4Addr) -> (r: bool)
    ensures
        r == usable_v4(*a),
{
    !a.is_link_local() && a.a != 127 && !(a.a == 0 && a.b == 0 && a.c == 0 && a.d == 0)
}

pub fn is_usable_v6(a: &Ipv6Addr) -> (r: bool)
    ensures
        r == usable_v6(*a),
{
    let seg: u16 = a.s0;
    assert((seg & 0xffc0 == 0xfe80) <==> (0xfe80 <= seg && seg <= 0xfebf)) by (bit_vector);
    (seg & 0xffc0) != 0xfe80 && !(a.s0 == 0 && a.s1 == 0 && a.s2 == 0 && a.s3 == 0 && a.s4 == 0
        && a.s5 == 0 && a.s6 == 0 && a.s7 <= 1)
}

/// A socket address as Windows lists it: its family, and the bytes of the address in network
/// order. Of an IPv4 address only the first four are used.
#[derive(Debug, Clone, Copy)]
pub struct RawAddress {
    pub family: u16,
    pub bytes: [u8; 16],
}

/// The two bytes of a segment, most significant first.
pub open spec fn segment(bytes: Seq<u8>, i: int) -> u16 {
    (bytes[2 * i] * 256 + bytes[2 * i + 1]) as u16
}

/// The IP address that a socket address holds, if it is of one of the two families.
pub open spec fn address_of(raw: RawAddress) -> Option<IpAddr> {
    let b = raw.bytes@;
    if raw.family == super::metric::AF_INET {
        Some(IpAddr::V4(Ipv4Addr { a: b[0], b: b[1], c: b[2], d: b[3] }))
    } else if raw.family == super::metric::AF_INET6 {
        Some(
            IpAddr::V6(
                Ipv6Addr {
                    s0: segment(b, 0),
                    s1: segment(b, 1),
                    s2: segment(b, 2),
                    s3: segment(b, 3),
                    s4: segment(b, 4),
                    s5: segment(b, 5),
                    s6: segment(b, 6),
                    s7: segment(b, 7),
                },
            ),
        )
    } else {
        None
    }
}

fn join_bytes(hi: u8, lo: u8) -> (r: u16)
    ensures
        r == (hi * 256 + lo) as u16,
{
    hi as u16 * 256 + lo as u16
}

pub fn sockaddr_to_ip(raw: &RawAddress) -> (r: Option<IpAddr>)
    ensures
        r == address_of(*raw),
{
    let b = raw.bytes;
    if raw.family == super::metric::AF_INET {
        Some(IpAddr::V4(Ipv4Addr { a: b[0], b: b[1], c: b[2], d: b[3] }))
    } else if raw.family == super::metric::AF_INET6 {
        Some(
            IpAddr::V6(
                Ipv6Addr {
                    s0: join_bytes(b[0], b[1]),
                    s1: join_bytes(b[2], b[3]),
                    s2: join_bytes(b[4], b[5]),
                    s3: join_bytes(b[6], b[7]),
                    s4: join_bytes(b[8], b[9]),
                    s5: join_bytes(b[10], b[11]),
                    s6: join_bytes(b[12], b[13]),
                    s7: join_bytes(b[14], b[15]),
                },
            ),
        )
    } else {
        None
    }
}

// --- classification ----------------------------------------------------------------------

#[derive(Debug, Clone, Copy, PartialEq, Eq, PartialOrd, Ord, Structural)]
pub enum NicKind {
    Ethernet,
    Wifi,
    Other,
}

/// How confident we are that this adapter is a real, steerable link.
#[derive(Debug, Clone, Copy, PartialEq, Eq, PartialOrd, Ord, Structural)]
pub enum Tier {
    /// Real hardware with a physical connector. What we want.
    Hardware,
    /// Not hardware, but it carries an IP address and looks like the interface that actually
    /// holds the stack -- an external virtual switch or a NIC team, where the physical NIC has no
    /// IP and a synthetic adapter carries everything.
    Virtualised,
    /// Everything else: tunnels, host-only switches, Wi-Fi Direct, loopback.
    Rejected,
}

/// The details of an interface that decide what it is.
#[derive(Debug, Clone, Copy)]
pub struct IfDetail {
    pub kind: NicKind,
    pub hardware: bool,
    pub connector_present: bool,
    pub filter_interface: bool,
    pub end_point: bool,
    pub media_connected: bool,
    pub oper_up: bool,
    pub tx_speed_bps: Option<u64>,
    pub permanent_mac: Option<[u8; 6]>,
}

/// Whether an adapter looks like it can actually carry traffic off this machine.
#[derive(Debug, Clone, Copy, PartialEq, Eq, Structural)]
pub struct Routable {
    /// Has at least one address that is not link-local and not loopback.
    pub usable_ip: bool,
    /// Has at least one default gateway.
    pub gateway: bool,
}

pub open spec fn kind_of_type(if_type: u32) -> NicKind {
    if if_type == IF_TYPE_ETHERNET_CSMACD {
        NicKind::Ethernet
    } else if if_type == IF_TYPE_IEEE80211 {
        NicKind::Wifi
    } else {
        NicKind::Other
    }
}

pub fn kind_from_if_type(if_type: u32) -> (r: NicKind)
    ensures
        r == kind_of_type(if_type),
{
    if if_type == IF_TYPE_ETHERNET_CSMACD {
        NicKind::Ethernet
    } else if if_type == IF_TYPE_IEEE80211 {
        NicKind::Wifi
    } else {
        NicKind::Other
    }
}

/// What an interface is worth as a link to steer.
///
/// An end-point or filter interface is by definition not a real network link. A non-hardware
/// interface counts only with both a usable address and a gateway: demanding an address alone lets
/// in every virtual adapter on an ordinary machine.
pub open spec fn tier_of(d: IfDetail, r: Routable) -> Tier {
    if d.kind == NicKind::Other || d.end_point || d.filter_interface {
        Tier::Rejected
    } else if d.hardware && d.connector_present {
        Tier::Hardware
    } else if r.usable_ip && r.gateway {
        Tier::Virtualised
    } else {
        Tier::Rejected
    }
}

pub fn classify_tier(d: &IfDetail, r: Routable) -> (t: Tier)
    ensures
        t == tier_of(*d, r),
{
    if d.kind == NicKind::Other {
        return Tier::Rejected;
    }
    if d.end_point {
        return Tier::Rejected;
    }
    if d.hardware && d.connector_present && !d.filter_interface {
        return Tier::Hardware;
    }
    if r.usable_ip && r.gateway && !d.filter_interface {
        return Tier::Virtualised;
    }
    Tier::Rejected
}

/// The fields of an interface's row that are read here.
#[derive(Debug, Clone, Copy)]
pub struct IfRow {
    pub flags: u8,
    pub if_type: u32,
    pub physical_medium: i32,
    pub media_connect_state: i32,
    pub oper_status: i32,
    pub transmit_link_speed: u64,
    pub physical_address_length: u32,
    pub permanent_physical_address: [u8; 6],
}

/// The physical medium decides what an interface is; where it is none of the known ones, the
/// interface type does.
pub open spec fn kind_of_row(row: IfRow) -> NicKind {
    if row.physical_medium == MEDIUM_802_3 {
        NicKind::Ethernet
    } else if row.physical_medium == MEDIUM_NATIVE_802_11 || row.physical_medium
        == MEDIUM_WIRELESS_LAN || row.physical_medium == MEDIUM_WIRELESS_WAN {
        NicKind::Wifi
    } else {
        kind_of_type(row.if_type)
    }
}

pub open spec fn detail_of(row: IfRow) -> IfDetail {
    IfDetail {
        kind: kind_of_row(row),
        hardware: row.flags & FLAG_HARDWARE_INTERFACE != 0,
        connector_present: row.flags & FLAG_CONNECTOR_PRESENT != 0,
        filter_interface: row.flags & FLAG_FILTER_INTERFACE != 0,
        end_point: row.flags & FLAG_END_POINT_INTERFACE != 0,
        media_connected: row.media_connect_state == MEDIA_CONNECTED && row.flags
            & FLAG_NOT_MEDIA_CONNECTED == 0,
        oper_up: row.oper_status == OPER_STATUS_UP,
        tx_speed_bps: if row.transmit_link_speed != u64::MAX && row.transmit_link_speed != 0 {
            Some(row.transmit_link_speed)
        } else {
            None
        },
        permanent_mac: if row.physical_address_length == 6 {
            Some(row.permanent_physical_address)
        } else {
            None
        },
    }
}

/// The details of an interface, from its row.
pub fn if_detail(row: &IfRow) -> (r: IfDetail)
    ensures
        r == detail_of(*row),
{
    let f: u8 = row.flags;
    let kind = if row.physical_medium == MEDIUM_802_3 {
        NicKind::Ethernet
    } else if row.physical_medium == MEDIUM_NATIVE_802_11 || row.physical_medium
        == MEDIUM_WIRELESS_LAN || row.physical_medium == MEDIUM_WIRELESS_WAN {
        NicKind::Wifi
    } else {
        kind_from_if_type(row.if_type)
    };
    let speed: u64 = row.transmit_link_speed;
    IfDetail {
        kind,
        hardware: f & FLAG_HARDWARE_INTERFACE != 0,
        connector_present: f & FLAG_CONNECTOR_PRESENT != 0,
        filter_interface: f & FLAG_FILTER_INTERFACE != 0,
        end_point: f & FLAG_END_POINT_INTERFACE != 0,
        media_connected: row.media_connect_state == MEDIA_CONNECTED && f & FLAG_NOT_MEDIA_CONNECTED
            == 0,
        oper_up: row.oper_status == OPER_STATUS_UP,
        tx_speed_bps: if speed != u64::MAX && speed != 0 {
            Some(speed)
        } else {
            None
        },
        permanent_mac: if row.physical_address_length == 6 {
            Some(row.permanent_physical_address)
        } else {
            None
        },
    }
}

// --- adapters ----------------------------------------------------------------------------

#[derive(Debug, Clone)]
pub struct Nic {
    /// Stable identity. Persist this, never `if_index`.
    pub luid: LuidKey,
    pub if_index: u32,
    pub friendly_name: String,
    pub description: String,
    /// The adapter GUID string, e.g. `{66666666-...}`. Secondary identity for recovery.
    pub adapter_name: String,
    pub if_type: u32,
    pub kind: NicKind,
    pub tier: Tier,
    pub oper_up: bool,
    /// For Ethernet this is literally "is the cable in?".
    pub media_connected: bool,
    pub tx_speed_bps: Option<u64>,
    /// Current MAC. Display only: random hardware addresses make it drift.
    pub mac: Option<[u8; 6]>,
    /// Burned-in MAC, the durable identity: it survives reboots, driver reinstalls, dock
    /// reconnects and MAC randomisation.
    pub permanent_mac: Option<[u8; 6]>,
    pub ipv4: Vec<Ipv4Addr>,
    pub ipv6: Vec<Ipv6Addr>,
    pub gateways: Vec<IpAddr>,
}

/// An adapter as plain values.
#[verifier::ext_equal]
pub struct NicView {
    pub luid: LuidKey,
    pub if_index: u32,
    pub friendly_name: Seq<char>,
    pub description: Seq<char>,
    pub adapter_name: Seq<char>,
    pub if_type: u32,
    pub kind: NicKind,
    pub tier: Tier,
    pub oper_up: bool,
    pub media_connected: bool,
    pub tx_speed_bps: Option<u64>,
    pub mac: Option<[u8; 6]>,
    pub permanent_mac: Option<[u8; 6]>,
    pub ipv4: Seq<Ipv4Addr>,
    pub ipv6: Seq<Ipv6Addr>,
    pub gateways: Seq<IpAddr>,
}

impl View for Nic {
    type V = NicView;

    open spec fn view(&self) -> NicView {
        NicView {
            luid: self.luid,
            if_index: self.if_index,
            friendly_name: self.friendly_name@,
            description: self.description@,
            adapter_name: self.adapter_name@,
            if_type: self.if_type,
            kind: self.kind,
            tier: self.tier,
            oper_up: self.oper_up,
            media_connected: self.media_connected,
            tx_speed_bps: self.tx_speed_bps,
            mac: self.mac,
            permanent_mac: self.permanent_mac,
            ipv4: self.ipv4@,
            ipv6: self.ipv6@,
            gateways: self.gateways@,
        }
    }
}

impl NicView {
    /// A one-line label: the friendly name, or the description where there is none.
    pub open spec fn label(self) -> Seq<char> {
        if self.friendly_name.len() == 0 {
            self.description
        } else {
            self.friendly_name
        }
    }

    /// Usable as a switch target right now.
    pub open spec fn live(self) -> bool {
        self.oper_up && self.media_connected && self.ipv4.len() > 0
    }

    /// Sort key: smaller is better. A live link first, then hardware, then a gateway, then the
    /// faster link.
    pub open spec fn rank(self) -> (u8, u8, u8, u64) {
        (
            if self.live() {
                0
            } else {
                1
            },
            if self.tier == Tier::Hardware {
                0
            } else {
                1
            },
            if self.gateways.len() == 0 {
                1
            } else {
                0
            },
            (u64::MAX - (match self.tx_speed_bps {
                Some(bps) => bps,
                None => 0,
            })) as u64,
        )
    }
}

/// A link speed, in the unit it is displayed in.
#[derive(Debug, Clone, Copy, PartialEq, Eq, Structural)]
pub enum LinkSpeed {
    /// At least a gigabit per second: the bits per second, displayed as gigabits with one decimal.
    Gigabits(u64),
    /// Less than that: whole megabits per second.
    Megabits(u64),
}

impl Nic {
    /// A one-line label for the UI.
    pub fn label(&self) -> (r: &str)
        ensures
            r@ == self@.label(),
    {
        if self.friendly_name.as_str().is_empty() {
            self.description.as_str()
        } else {
            self.friendly_name.as_str()
        }
    }

    /// The link speed, in the unit it is displayed in.
    pub fn link_speed(&self) -> (r: Option<LinkSpeed>)
        ensures
            match self.tx_speed_bps {
                None => r is None,
                Some(bps) => r == Some(
                    if bps >= 1_000_000_000 {
                        LinkSpeed::Gigabits(bps)
                    } else {
                        LinkSpeed::Megabits((bps / 1_000_000) as u64)
                    },
                ),
            },
    {
        match self.tx_speed_bps {
            None => None,
            Some(bps) => Some(
                if bps >= 1_000_000_000 {
                    LinkSpeed::Gigabits(bps)
                } else {
                    LinkSpeed::Megabits(bps / 1_000_000)
                },
            ),
        }
    }

    /// The link speed in words. `gigabits` is the speed in gigabits per second with one decimal;
    /// it is used only for a link of at least one gigabit.
    pub fn link_speed_text(&self, gigabits: &str) -> (r: Option<String>)
        ensures
            match self.tx_speed_bps {
                None => r is None,
                Some(bps) => r is Some && r->0@ == (if bps >= 1_000_000_000 {
                    gigabits@ + " Gbps"@
                } else {
                    text::dec((bps / 1_000_000) as nat) + " Mbps"@
                }),
            },
    {
        match self.link_speed() {
            None => None,
            Some(LinkSpeed::Gigabits(_)) => {
                let mut r = gigabits.to_owned();
                r.append(" Gbps");
                Some(r)
            },
            Some(LinkSpeed::Megabits(mbps)) => {
                let mut r = text::dec_text(mbps);
                r.append(" Mbps");
                Some(r)
            },
        }
    }

    /// Usable as a switch target right now.
    pub fn is_live(&self) -> (r: bool)
        ensures
            r == self@.live(),
    {
        self.oper_up && self.media_connected && self.ipv4.len() > 0
    }

    /// The same adapter, once more.
    pub fn copied(&self) -> (r: Nic)
        ensures
            r@ == self@,
    {
        let r = Nic {
            luid: self.luid,
            if_index: self.if_index,
            friendly_name: self.friendly_name.clone(),
            description: self.description.clone(),
            adapter_name: self.adapter_name.clone(),
            if_type: self.if_type,
            kind: self.kind,
            tier: self.tier,
            oper_up: self.oper_up,
            media_connected: self.media_connected,
            tx_speed_bps: self.tx_speed_bps,
            mac: self.mac,
            permanent_mac: self.permanent_mac,
            ipv4: self.ipv4.clone(),
            ipv6: self.ipv6.clone(),
            gateways: self.gateways.clone(),
        };
        assert(r.ipv4@ =~= self.ipv4@);
        assert(r.ipv6@ =~= self.ipv6@);
        assert(r.gateways@ =~= self.gateways@);
        r
    }
}

/// Sort key: smaller is better. There is exactly one ranking rule.
pub fn rank(n: &Nic) -> (r: (u8, u8, u8, u64))
    ensures
        r == n@.rank(),
{
    let dead: u8 = if n.is_live() {
        0
    } else {
        1
    };
    let synthetic: u8 = if n.tier == Tier::Hardware {
        0
    } else {
        1
    };
    let cut_off: u8 = if n.gateways.len() == 0 {
        1
    } else {
        0
    };
    let speed: u64 = match n.tx_speed_bps {
        Some(bps) => bps,
        None => 0,
    };
    (dead, synthetic, cut_off, u64::MAX - speed)
}

// --- from the adapter list of Windows ----------------------------------------------------

/// One entry of the adapter list of Windows, with the interface row that belongs to it if that
/// could be read.
#[derive(Debug, Clone)]
pub struct RawAdapter {
    pub luid: LuidKey,
    pub if_index: u32,
    pub if_type: u32,
    pub oper_status: i32,
    /// UTF-16.
    pub friendly_name: Vec<u16>,
    /// UTF-16.
    pub description: Vec<u16>,
    /// Meant to be UTF-8.
    pub adapter_name: Vec<u8>,
    pub physical_address: [u8; 6],
    pub physical_address_length: u32,
    pub unicast: Vec<RawAddress>,
    pub gateways: Vec<RawAddress>,
    pub row: Option<IfRow>,
}

/// The addresses that the entries of a list hold, in order; entries of other families hold none.
pub open spec fn addresses(list: Seq<RawAddress>) -> Seq<IpAddr>
    decreases list.len(),
{
    if list.len() == 0 {
        Seq::empty()
    } else {
        match address_of(list.last()) {
            Some(ip) => addresses(list.drop_last()).push(ip),
            None => addresses(list.drop_last()),
        }
    }
}

/// The IPv4 addresses of a list, in order.
pub open spec fn only_v4(list: Seq<IpAddr>) -> Seq<Ipv4Addr>
    decreases list.len(),
{
    if list.len() == 0 {
        Seq::empty()
    } else {
        match list.last() {
            IpAddr::V4(a) => only_v4(list.drop_last()).push(a),
            IpAddr::V6(_) => only_v4(list.drop_last()),
        }
    }
}

/// The IPv6 addresses of a list, in order.
pub open spec fn only_v6(list: Seq<IpAddr>) -> Seq<Ipv6Addr>
    decreases list.len(),
{
    if list.len() == 0 {
        Seq::empty()
    } else {
        match list.last() {
            IpAddr::V4(_) => only_v6(list.drop_last()),
            IpAddr::V6(a) => only_v6(list.drop_last()).push(a),
        }
    }
}

/// Some address of the two lists is usable.
pub open spec fn any_usable(v4: Seq<Ipv4Addr>, v6: Seq<Ipv6Addr>) -> bool {
    ||| exists|i: int| 0 <= i < v4.len() && usable_v4(#[trigger] v4[i])
    ||| exists|i: int| 0 <= i < v6.len() && usable_v6(#[trigger] v6[i])
}

/// The adapter that an entry of the list stands for.
///
/// Without an interface row nothing is known but the type: such an adapter is never steered.
pub open spec fn adapter_of(raw: RawAdapter) -> NicView {
    let ips = addresses(raw.unicast@);
    let gateways = addresses(raw.gateways@);
    let routable = Routable {
        usable_ip: any_usable(only_v4(ips), only_v6(ips)),
        gateway: gateways.len() > 0,
    };
    NicView {
        luid: raw.luid,
        if_index: raw.if_index,
        friendly_name: encoding::utf16_text(encoding::before_nul(raw.friendly_name@)),
        description: encoding::utf16_text(encoding::before_nul(raw.description@)),
        adapter_name: encoding::utf8_lossy(raw.adapter_name@),
        if_type: raw.if_type,
        kind: match raw.row {
            Some(row) => kind_of_row(row),
            None => kind_of_type(raw.if_type),
        },
        tier: match raw.row {
            Some(row) => tier_of(detail_of(row), routable),
            None => Tier::Rejected,
        },
        oper_up: match raw.row {
            Some(row) => detail_of(row).oper_up,
            None => raw.oper_status == OPER_STATUS_UP,
        },
        media_connected: match raw.row {
            Some(row) => detail_of(row).media_connected,
            None => false,
        },
        tx_speed_bps: match raw.row {
            Some(row) => detail_of(row).tx_speed_bps,
            None => None,
        },
        mac: if raw.physical_address_length == 6 {
            Some(raw.physical_address)
        } else {
            None
        },
        permanent_mac: match raw.row {
            Some(row) => detail_of(row).permanent_mac,
            None => None,
        },
        ipv4: only_v4(ips),
        ipv6: only_v6(ips),
        gateways,
    }
}

/// The adapters of the list, in order; entries without a LUID are passed over.
pub open spec fn adapters_in(list: Seq<RawAdapter>) -> Seq<NicView>
    decreases list.len(),
{
    if list.len() == 0 {
        Seq::empty()
    } else if list.last().luid.0 == 0 {
        adapters_in(list.drop_last())
    } else {
        adapters_in(list.drop_last()).push(adapter_of(list.last()))
    }
}

/// The adapters of a list, as plain values.
pub open spec fn nic_views(nics: Seq<Nic>) -> Seq<NicView> {
    nics.map_values(|n: Nic| n@)
}

fn read_addresses(list: &Vec<RawAddress>) -> (r: Vec<IpAddr>)
    ensures
        r@ == addresses(list@),
{
    let mut out: Vec<IpAddr> = Vec::new();
    let mut i: usize = 0;
    while i < list.len()
        invariant
            i <= list.len(),
            out@ == addresses(list@.take(i as int)),
        decreases list.len() - i,
    {
        assert(list@.take(i + 1).drop_last() =~= list@.take(i as int));
        if let Some(ip) = sockaddr_to_ip(&list[i]) {
            out.push(ip);
        }
        i = i + 1;
    }
    assert(list@.take(i as int) =~= list@);
    out
}

fn split_families(list: &Vec<IpAddr>) -> (r: (Vec<Ipv4Addr>, Vec<Ipv6Addr>))
    ensures
        r.0@ == only_v4(list@),
        r.1@ == only_v6(list@),
{
    let mut v4: Vec<Ipv4Addr> = Vec::new();
    let mut v6: Vec<Ipv6Addr> = Vec::new();
    let mut i: usize = 0;
    while i < list.len()
        invariant
            i <= list.len(),
            v4@ == only_v4(list@.take(i as int)),
            v6@ == only_v6(list@.take(i as int)),
        decreases list.len() - i,
    {
        assert(list@.take(i + 1).drop_last() =~= list@.take(i as int));
        match list[i] {
            IpAddr::V4(a) => v4.push(a),
            IpAddr::V6(a) => v6.push(a),
        }
        i = i + 1;
    }
    assert(list@.take(i as int) =~= list@);
    (v4, v6)
}

fn some_usable(v4: &Vec<Ipv4Addr>, v6: &Vec<Ipv6Addr>) -> (r: bool)
    ensures
        r == any_usable(v4@, v6@),
{
    let mut i: usize = 0;
    while i < v4.len()
        invariant
            i <= v4.len(),
            forall|k: int| 0 <= k < i ==> !usable_v4(#[trigger] v4@[k]),
        decreases v4.len() - i,
    {
        if is_usable_v4(&v4[i]) {
            return true;
        }
        i = i + 1;
    }
    let mut j: usize = 0;
    while j < v6.len()
        invariant
            j <= v6.len(),
            forall|k: int| 0 <= k < j ==> !usable_v6(#[trigger] v6@[k]),
        decreases v6.len() - j,
    {
        if is_usable_v6(&v6[j]) {
            return true;
        }
        j = j + 1;
    }
    false
}

fn read_adapter(raw: &RawAdapter) -> (r: Nic)
    ensures
        r@ == adapter_of(*raw),
{
    let ips = read_addresses(&raw.unicast);
    let (ipv4, ipv6) = split_families(&ips);
    let gateways = read_addresses(&raw.gateways);
    let routable = Routable {
        usable_ip: some_usable(&ipv4, &ipv6),
        gateway: gateways.len() > 0,
    };
    let friendly_name = encoding::utf16_to_string(raw.friendly_name.as_slice());
    let description = encoding::utf16_to_string(raw.description.as_slice());
    let adapter_name = encoding::utf8_to_string(raw.adapter_name.as_slice());
    let mac = if raw.physical_address_length == 6 {
        Some(raw.physical_address)
    } else {
        None
    };
    match raw.row {
        Some(row) => {
            let d = if_detail(&row);
            Nic {
                luid: raw.luid,
                if_index: raw.if_index,
                friendly_name,
                description,
                adapter_name,
                if_type: raw.if_type,
                kind: d.kind,
                tier: classify_tier(&d, routable),
                oper_up: d.oper_up,
                media_connected: d.media_connected,
                tx_speed_bps: d.tx_speed_bps,
                mac,
                permanent_mac: d.permanent_mac,
                ipv4,
                ipv6,
                gateways,
            }
        },
        None => Nic {
            luid: raw.luid,
            if_index: raw.if_index,
            friendly_name,
            description,
            adapter_name,
            if_type: raw.if_type,
            kind: kind_from_if_type(raw.if_type),
            tier: Tier::Rejected,
            oper_up: raw.oper_status == OPER_STATUS_UP,
            media_connected: false,
            tx_speed_bps: None,
            mac,
            permanent_mac: None,
            ipv4,
            ipv6,
            gateways,
        },
    }
}

/// Every adapter of the list, classified.
pub fn walk(list: &[RawAdapter]) -> (r: Vec<Nic>)
    ensures
        nic_views(r@) == adapters_in(list@),
{
    let mut out: Vec<Nic> = Vec::new();
    let mut i: usize = 0;
    assert(nic_views(out@) =~= adapters_in(list@.take(0)));
    while i < list.len()
        invariant
            i <= list@.len(),
            nic_views(out@) == adapters_in(list@.take(i as int)),
        decreases list@.len() - i,
    {
        assert(list@.take(i + 1).drop_last() =~= list@.take(i as int));
        assert(list@.take(i + 1).last() == list@[i as int]);
        let raw = &list[i];
        if !raw.luid.is_zero() {
            let n = read_adapter(raw);
            let ghost before = out@;
            out.push(n);
            assert(nic_views(out@) =~= nic_views(before).push(n@));
        }
        i = i + 1;
    }
    assert(list@.take(i as int) =~= list@);
    out
}

/// The size in bytes of the buffer for the first attempt to list the adapters.
pub const FIRST_BUFFER: u32 = 15_000;

/// How often the adapter list is asked for. Adapters really can appear between two calls, so that
/// even the size that Windows just asked for is too small.
pub const MAX_TRIES: u32 = 3;

/// What to do after one attempt to list the adapters.
#[derive(Debug, Clone, Copy, PartialEq, Eq, Structural)]
pub enum Listing {
    /// The list is there.
    Walk,
    /// Ask again with a buffer of this many bytes.
    Retry(u32),
    /// No list can be had.
    GiveUp,
}

/// The next step after attempt number `tries` returned `rc` and asked for `needed` bytes.
pub fn enumerate(tries: u32, rc: u32, needed: u32) -> (r: Listing)
    ensures
        r == (if rc == super::err::NO_ERROR {
            Listing::Walk
        } else if rc == super::err::ERROR_BUFFER_OVERFLOW && tries < MAX_TRIES {
            Listing::Retry(needed)
        } else {
            Listing::GiveUp
        }),
{
    if rc == super::err::NO_ERROR {
        return Listing::Walk;
    }
    if rc != super::err::ERROR_BUFFER_OVERFLOW || tries >= MAX_TRIES {
        return Listing::GiveUp;
    }
    Listing::Retry(needed)
}

/// The length, in 64-bit words, of a buffer that holds at least `bytes` bytes at the alignment the
/// list needs.
pub fn buffer_words(bytes: u32) -> (r: usize)
    ensures
        r == (bytes + 7) / 8 + 1,
        r * 8 >= bytes,
{
    let whole: u32 = bytes / 8;
    let rest: u32 = if bytes % 8 == 0 {
        0
    } else {
        1
    };
    (whole + rest) as usize + 1
}

// --- candidates --------------------------------------------------------------------------

/// Key `a` comes strictly before key `b`.
pub open spec fn key_less(a: (u8, u8, u8, u64), b: (u8, u8, u8, u64)) -> bool {
    a.0 < b.0 || a.0 == b.0 && (a.1 < b.1 || a.1 == b.1 && (a.2 < b.2 || a.2 == b.2 && a.3 < b.3))
}

fn key_before(a: (u8, u8, u8, u64), b: (u8, u8, u8, u64)) -> (r: bool)
    ensures
        r == key_less(a, b),
{
    a.0 < b.0 || (a.0 == b.0 && (a.1 < b.1 || (a.1 == b.1 && (a.2 < b.2 || (a.2 == b.2 && a.3
        < b.3)))))
}

/// An adapter that can be steered as a link of this kind.
pub open spec fn eligible(n: NicView, kind: NicKind) -> bool {
    n.kind == kind && n.tier != Tier::Rejected
}

/// Adapter `i` of the list comes before adapter `j`: it ranks better, or equally and stands
/// earlier in the list.
pub open spec fn ahead(nics: Seq<NicView>, i: int, j: int) -> bool {
    key_less(nics[i].rank(), nics[j].rank()) || nics[i].rank() == nics[j].rank() && i < j
}

/// `order` names exactly the eligible adapters of the list, each once, best first.
pub open spec fn is_ranking(nics: Seq<NicView>, kind: NicKind, order: Seq<int>) -> bool {
    &&& forall|k: int|
        0 <= k < order.len() ==> 0 <= #[trigger] order[k] < nics.len() && eligible(
            nics[order[k]],
            kind,
        )
    &&& forall|i: int|
        0 <= i < nics.len() && eligible(#[trigger] nics[i], kind) ==> order.contains(i)
    &&& forall|k: int, l: int|
        0 <= k < l < order.len() ==> ahead(nics, #[trigger] order[k], #[trigger] order[l])
}

/// The positions in a list of indices.
pub open spec fn as_ints(v: Seq<usize>) -> Seq<int> {
    v.map_values(|i: usize| i as int)
}

proof fn lemma_insert_ranked(nics: Seq<NicView>, kind: NicKind, order: Seq<int>, n: int, at: int)
    requires
        0 <= n < nics.len(),
        eligible(nics[n], kind),
        is_ranking(nics.take(n), kind, order),
        0 <= at <= order.len(),
        forall|k: int|
            0 <= k < at ==> !key_less(nics[n].rank(), nics[#[trigger] order[k]].rank()),
        at < order.len() ==> key_less(nics[n].rank(), nics[order[at]].rank()),
    ensures
        is_ranking(nics.take(n + 1), kind, order.insert(at, n)),
{
    let old_nics = nics.take(n);
    let new_nics = nics.take(n + 1);
    let next = order.insert(at, n);
    assert(forall|i: int| 0 <= i < n ==> #[trigger] new_nics[i] == old_nics[i]);
    assert(new_nics[n] == nics[n]);
    assert forall|k: int| 0 <= k < next.len() implies 0 <= #[trigger] next[k] < new_nics.len()
        && eligible(new_nics[next[k]], kind) by {
        if k < at {
            assert(next[k] == order[k]);
        } else if k > at {
            assert(next[k] == order[k - 1]);
        }
    }
    assert forall|i: int| 0 <= i < new_nics.len() && eligible(#[trigger] new_nics[i], kind) implies next.contains(
    i) by {
        if i < n {
            assert(eligible(old_nics[i], kind));
            let k = choose|k: int| 0 <= k < order.len() && order[k] == i;
            if k < at {
                assert(next[k] == i);
            } else {
                assert(next[k + 1] == i);
            }
        } else {
            assert(next[at] == n);
        }
    }
    assert forall|k: int, l: int| 0 <= k < l < next.len() implies ahead(
        new_nics,
        #[trigger] next[k],
        #[trigger] next[l],
    ) by {
        if l < at {
            assert(next[k] == order[k] && next[l] == order[l]);
            assert(ahead(old_nics, order[k], order[l]));
        } else if k > at {
            assert(next[k] == order[k - 1] && next[l] == order[l - 1]);
            assert(ahead(old_nics, order[k - 1], order[l - 1]));
        } else if l == at {
            assert(next[k] == order[k]);
            assert(order[k] < n);
        } else if k == at {
            assert(next[l] == order[l - 1]);
            if l - 1 > at {
                assert(ahead(old_nics, order[at], order[l - 1]));
            }
        } else {
            assert(next[k] == order[k] && next[l] == order[l - 1]);
            assert(ahead(old_nics, order[k], order[l - 1]));
        }
    }
}

/// The positions of the steerable adapters of one kind, best first.
///
/// Prefer a live link, then a hardware tier over a virtualised one, then a present gateway, then
/// the faster link. That makes the default -- take the first -- correct on an ordinary machine,
/// while a docking station with two NICs still gets a stable, explainable pick.
pub fn ranked(nics: &[Nic], kind: NicKind) -> (r: Vec<usize>)
    ensures
        is_ranking(nic_views(nics@), kind, as_ints(r@)),
{
    let ghost all = nic_views(nics@);
    let mut order: Vec<usize> = Vec::new();
    let mut n: usize = 0;
    assert(is_ranking(all.take(0), kind, as_ints(order@)));
    while n < nics.len()
        invariant
            n <= nics@.len(),
            all == nic_views(nics@),
            is_ranking(all.take(n as int), kind, as_ints(order@)),
        decreases nics@.len() - n,
    {
        let nic = &nics[n];
        assert(all[n as int] == nic@);
        if nic.kind == kind && nic.tier != Tier::Rejected {
            let key = rank(nic);
            let mut at: usize = 0;
            assert forall|k: int| 0 <= k < order@.len() implies (#[trigger] order@[k])
                < nics@.len() by {
                assert(as_ints(order@)[k] == order@[k]);
            }
            while at < order.len() && !key_before(key, rank(&nics[order[at]]))
                invariant
                    at <= order.len(),
                    n < nics@.len(),
                    all == nic_views(nics@),
                    key == all[n as int].rank(),
                    is_ranking(all.take(n as int), kind, as_ints(order@)),
                    forall|k: int| 0 <= k < order@.len() ==> (#[trigger] order@[k]) < nics@.len(),
                    forall|k: int|
                        0 <= k < at ==> !key_less(
                            key,
                            all[#[trigger] as_ints(order@)[k]].rank(),
                        ),
                decreases order.len() - at,
            {
                assert(as_ints(order@)[at as int] == order@[at as int]);
                at = at + 1;
            }
            proof {
                if at < order.len() {
                    assert(as_ints(order@)[at as int] == order@[at as int]);
                }
                lemma_insert_ranked(all, kind, as_ints(order@), n as int, at as int);
                assert(as_ints(order@.insert(at as int, n)) =~= as_ints(order@).insert(
                    at as int,
                    n as int,
                ));
            }
            order.insert(at, n);
        } else {
            proof {
                let old_nics = all.take(n as int);
                let new_nics = all.take(n + 1);
                assert(forall|i: int| 0 <= i < n ==> #[trigger] new_nics[i] == old_nics[i]);
                assert(!eligible(new_nics[n as int], kind));
                let o = as_ints(order@);
                assert forall|k: int, l: int| 0 <= k < l < o.len() implies ahead(
                    new_nics,
                    #[trigger] o[k],
                    #[trigger] o[l],
                ) by {
                    assert(ahead(old_nics, o[k], o[l]));
                }
            }
        }
        n = n + 1;
    }
    assert(all.take(n as int) =~= all);
    order
}

/// Copies of the adapters at some positions.
fn copies(nics: &[Nic], order: &Vec<usize>) -> (r: Vec<Nic>)
    requires
        forall|k: int| 0 <= k < order@.len() ==> (#[trigger] order@[k]) < nics@.len(),
    ensures
        nic_views(r@) == order@.map_values(|i: usize| nic_views(nics@)[i as int]),
{
    let mut out: Vec<Nic> = Vec::new();
    let mut k: usize = 0;
    while k < order.len()
        invariant
            k <= order.len(),
            forall|k: int| 0 <= k < order@.len() ==> (#[trigger] order@[k]) < nics@.len(),
            nic_views(out@) == order@.take(k as int).map_values(
                |i: usize| nic_views(nics@)[i as int],
            ),
        decreases order.len() - k,
    {
        let n = nics[order[k]].copied();
        let ghost before = out@;
        out.push(n);
        k = k + 1;
        assert(nic_views(out@) =~= nic_views(before).push(n@));
        assert(nic_views(out@) =~= order@.take(k as int).map_values(
            |i: usize| nic_views(nics@)[i as int],
        ));
    }
    assert(order@.take(k as int) =~= order@);
    out
}

/// Two lists of adapters: the Ethernet and the Wi-Fi candidates of `all`, each best first.
pub open spec fn candidate_lists(
    all: Seq<NicView>,
    eth: Seq<NicView>,
    wifi: Seq<NicView>,
) -> bool {
    exists|e: Seq<int>, w: Seq<int>|
        {
            &&& #[trigger] is_ranking(all, NicKind::Ethernet, e)
            &&& #[trigger] is_ranking(all, NicKind::Wifi, w)
            &&& eth == e.map_values(|i: int| all[i])
            &&& wifi == w.map_values(|i: int| all[i])
        }
}

/// Steerable candidates, split by kind and ordered best-first.
pub fn candidates(all: &[Nic]) -> (r: (Vec<Nic>, Vec<Nic>))
    ensures
        candidate_lists(nic_views(all@), nic_views(r.0@), nic_views(r.1@)),
{
    let eth = ranked(all, NicKind::Ethernet);
    let wifi = ranked(all, NicKind::Wifi);
    assert forall|k: int| 0 <= k < eth@.len() implies (#[trigger] eth@[k]) < all@.len() by {
        assert(as_ints(eth@)[k] == eth@[k]);
    }
    assert forall|k: int| 0 <= k < wifi@.len() implies (#[trigger] wifi@[k]) < all@.len() by {
        assert(as_ints(wifi@)[k] == wifi@[k]);
    }
    let e = copies(all, &eth);
    let w = copies(all, &wifi);
    proof {
        let views = nic_views(all@);
        assert(nic_views(e@) =~= as_ints(eth@).map_values(|i: int| views[i]));
        assert(nic_views(w@) =~= as_ints(wifi@).map_values(|i: int| views[i]));
    }
    (e, w)
}

/// The ranking of a list is determined: there are no two different ones.
pub proof fn ranking_is_unique(nics: Seq<NicView>, kind: NicKind, a: Seq<int>, b: Seq<int>)
    requires
        is_ranking(nics, kind, a),
        is_ranking(nics, kind, b),
    ensures
        a == b,
{
    lemma_ranking_prefix(nics, kind, a, b, a.len());
    lemma_ranking_prefix(nics, kind, b, a, b.len());
    assert(a.len() == b.len());
    assert(a =~= b);
}

/// Up to any length, two rankings agree.
proof fn lemma_ranking_prefix(
    nics: Seq<NicView>,
    kind: NicKind,
    a: Seq<int>,
    b: Seq<int>,
    n: nat,
)
    requires
        is_ranking(nics, kind, a),
        is_ranking(nics, kind, b),
        n <= a.len(),
    ensures
        n <= b.len(),
        forall|k: int| 0 <= k < n ==> a[k] == b[k],
    decreases n,
{
    if n > 0 {
        let m = n - 1;
        lemma_ranking_prefix(nics, kind, a, b, m as nat);
        let x = a[m];
        assert(eligible(nics[x], kind));
        let j = choose|j: int| 0 <= j < b.len() && b[j] == x;
        if j < m {
            assert(a[j] == b[j]);
            assert(ahead(nics, a[j], a[m]));
            assert(false);
        }
        assert(m < b.len());
        let y = b[m];
        assert(eligible(nics[y], kind));
        let i = choose|i: int| 0 <= i < a.len() && a[i] == y;
        if i < m {
            assert(a[i] == b[i]);
            assert(ahead(nics, b[i], b[m]));
            assert(false);
        }
        if j > m && i > m {
            assert(ahead(nics, b[m], b[j]));
            assert(ahead(nics, a[m], a[i]));
            assert(false);
        }
        assert(x == y);
    }
}

} // verus!
