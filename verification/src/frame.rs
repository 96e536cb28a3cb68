use crate::conf::{spec_protocol_of, IpAddr, IpV4, IpV6, MacAddr, Protocol};
use crate::flow::Frame;
use vstd::prelude::*;

verus! {

/// The ethertype field of a link-layer datagram, big-endian at offsets 12
/// and 13.
pub open spec fn ethertype_of(b: Seq<u8>) -> nat {
    (b[12] as nat) * 256 + (b[13] as nat)
}

/// Whether a raw datagram can be normalized: a full link-layer header, an
/// IPv4 or IPv6 ethertype, and enough bytes for the network-layer header of
/// that family.
pub open spec fn frame_ok(b: Seq<u8>) -> bool {
    b.len() >= 14 && ((ethertype_of(b) == 0x0800 && b.len() >= 34) || (ethertype_of(b) == 0x86DD
        && b.len() >= 54))
}

/// Normalizes one raw link-layer datagram into a frame, or discards it
/// silently: datagrams of any other ethertype, and datagrams too short for
/// their family's network-layer header, yield nothing. The protocol field is
/// read at offset 9 of the network-layer bytes, the IPv4 header's fixed
/// protocol position, for either family. The frame's payload is the whole
/// network-layer datagram.
pub fn normalize_frame(bytes: &Vec<u8>) -> (r: Option<Frame>)
    ensures
        r is Some <==> frame_ok(bytes@),
        r matches Some(f) ==> {
            &&& f.orig_mac@ == bytes@.subrange(6, 12)
            &&& f.dest_mac@ == bytes@.subrange(0, 6)
            &&& f.protocol == spec_protocol_of(bytes@[23])
            &&& f.payload@ == bytes@.skip(14)
            &&& ethertype_of(bytes@) == 0x0800 ==> f.orig_ip is V4 && f.orig_ip->V4_0@
                == bytes@.subrange(26, 30) && f.dest_ip is V4 && f.dest_ip->V4_0@
                == bytes@.subrange(30, 34)
            &&& ethertype_of(bytes@) == 0x86DD ==> f.orig_ip is V6 && f.orig_ip->V6_0@
                == bytes@.subrange(22, 38) && f.dest_ip is V6 && f.dest_ip->V6_0@
                == bytes@.subrange(38, 54)
        },
{
    let n = bytes.len();
    if n < 14 {
        return None;
    }
    let ethertype: u32 = (bytes[12] as u32) * 256 + (bytes[13] as u32);
    let (orig_ip, dest_ip): (IpAddr, IpAddr) = if ethertype == 0x0800 {
        if n < 34 {
            return None;
        }
        let src = IpV4 { octets: [bytes[26], bytes[27], bytes[28], bytes[29]] };
        let dst = IpV4 { octets: [bytes[30], bytes[31], bytes[32], bytes[33]] };
        proof {
            assert(src@ =~= bytes@.subrange(26, 30));
            assert(dst@ =~= bytes@.subrange(30, 34));
        }
        (IpAddr::V4(src), IpAddr::V4(dst))
    } else if ethertype == 0x86DD {
        if n < 54 {
            return None;
        }
        let src = IpV6 {
            octets: [
                bytes[22],
                bytes[23],
                bytes[24],
                bytes[25],
                bytes[26],
                bytes[27],
                bytes[28],
                bytes[29],
                bytes[30],
                bytes[31],
                bytes[32],
                bytes[33],
                bytes[34],
                bytes[35],
                bytes[36],
                bytes[37],
            ],
        };
        let dst = IpV6 {
            octets: [
                bytes[38],
                bytes[39],
                bytes[40],
                bytes[41],
                bytes[42],
                bytes[43],
                bytes[44],
                bytes[45],
                bytes[46],
                bytes[47],
                bytes[48],
                bytes[49],
                bytes[50],
                bytes[51],
                bytes[52],
                bytes[53],
            ],
        };
        proof {
            assert(src@ =~= bytes@.subrange(22, 38));
            assert(dst@ =~= bytes@.subrange(38, 54));
        }
        (IpAddr::V6(src), IpAddr::V6(dst))
    } else {
        return None;
    };
    let orig_mac = MacAddr { octets: [bytes[6], bytes[7], bytes[8], bytes[9], bytes[10], bytes[11]] };
    let dest_mac = MacAddr { octets: [bytes[0], bytes[1], bytes[2], bytes[3], bytes[4], bytes[5]] };
    proof {
        assert(orig_mac@ =~= bytes@.subrange(6, 12));
        assert(dest_mac@ =~= bytes@.subrange(0, 6));
    }
    let protocol = Protocol::from(bytes[23]);
    let mut payload: Vec<u8> = Vec::new();
    let mut j: usize = 14;
    proof {
        assert(payload@ =~= bytes@.subrange(14, 14));
    }
    while j < n
        invariant
            14 <= j <= n == bytes@.len(),
            payload@ == bytes@.subrange(14, j as int),
        decreases n - j,
    {
        payload.push(bytes[j]);
        proof {
            assert(payload@ =~= bytes@.subrange(14, j + 1));
        }
        j = j + 1;
    }
    proof {
        assert(payload@ =~= bytes@.skip(14));
    }
    Some(Frame { orig_mac, dest_mac, protocol, orig_ip, dest_ip, payload })
}

} // verus!
