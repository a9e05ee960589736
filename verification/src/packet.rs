//! The wake payload: a synchronisation prefix, then the address sixteen times.

use vstd::prelude::*;
use crate::address::{is_address_text, parse_text, MacAddress, ADDRESS_LEN};
use crate::error::ConfigError;

verus! {

/// Length of the payload in bytes.
pub const PACKET_LEN: usize = 102;

/// Length of the synchronisation prefix.
pub const PREFIX_LEN: usize = 6;

/// How often the address is repeated after the prefix.
pub const REPETITIONS: usize = 16;

/// The payload that wakes the machine at `mac`.
pub open spec fn packet_bytes(mac: Seq<u8>) -> Seq<u8> {
    Seq::new(
        PACKET_LEN as nat,
        |k: int|
            if k < PREFIX_LEN {
                0xFFu8
            } else {
                mac[(k - PREFIX_LEN) % (ADDRESS_LEN as int)]
            },
    )
}

/// The layout of the payload: 102 bytes, the first six of them `0xFF`, and
/// each of the sixteen six-byte groups that follow equal to the address.
pub proof fn lemma_packet_layout(mac: Seq<u8>)
    requires
        mac.len() == ADDRESS_LEN,
    ensures
        packet_bytes(mac).len() == PACKET_LEN,
        forall|k: int| 0 <= k < PREFIX_LEN ==> packet_bytes(mac)[k] == 0xFFu8,
        forall|i: int|
            0 <= i < REPETITIONS ==> #[trigger] packet_bytes(mac).subrange(6 + 6 * i, 12 + 6 * i)
                == mac,
{
    let p = packet_bytes(mac);
    assert forall|i: int| 0 <= i < REPETITIONS implies #[trigger] p.subrange(6 + 6 * i, 12 + 6 * i)
        == mac by {
        let group = p.subrange(6 + 6 * i, 12 + 6 * i);
        assert forall|j: int| 0 <= j < 6 implies group[j] == mac[j] by {
            assert((6 * i + j) % 6 == j) by (nonlinear_arith)
                requires
                    0 <= j < 6,
                    0 <= i,
            ;
        }
        assert(group =~= mac);
    }
}

/// A wake payload together with the address it was built for.
#[derive(Debug, Clone, Copy, PartialEq, Eq)]
pub struct MagicPacket {
    target: MacAddress,
    bytes: [u8; 102],
}

impl View for MagicPacket {
    type V = Seq<u8>;

    closed spec fn view(&self) -> Seq<u8> {
        packet_bytes(self.target@)
    }
}

impl MagicPacket {
    #[verifier::type_invariant]
    spec fn well_formed(self) -> bool {
        self.bytes@ == packet_bytes(self.target@)
    }

    /// The address that the payload wakes.
    pub closed spec fn target_octets(self) -> Seq<u8> {
        self.target@
    }

    /// Every payload is the one that its address determines.
    pub proof fn lemma_determined(self)
        ensures
            self@ == packet_bytes(self.target_octets()),
            self.target_octets().len() == ADDRESS_LEN,
    {
        self.target.lemma_len();
    }

    /// Builds the payload for `mac`.
    pub fn from_address(mac: &MacAddress) -> (packet: MagicPacket)
        ensures
            packet@ == packet_bytes(mac@),
            packet.target_octets() == mac@,
    {
        let octets = mac.octets();
        let mut bytes = [0xFFu8; 102];
        let mut k: usize = PREFIX_LEN;
        while k < PACKET_LEN
            invariant
                PREFIX_LEN <= k <= PACKET_LEN,
                octets@ == mac@,
                octets@.len() == 6,
                forall|j: int| 0 <= j < k ==> bytes@[j] == packet_bytes(mac@)[j],
                forall|j: int| k <= j < PACKET_LEN ==> bytes@[j] == 0xFFu8,
            decreases PACKET_LEN - k,
        {
            bytes.set(k, octets[(k - PREFIX_LEN) % ADDRESS_LEN]);
            k = k + 1;
        }
        assert(bytes@ =~= packet_bytes(mac@));
        MagicPacket { target: *mac, bytes }
    }

    /// The address that the payload wakes.
    pub fn target(&self) -> (mac: MacAddress)
        ensures
            mac@ == self.target_octets(),
    {
        self.target
    }

    /// The payload, ready to be sent as one datagram.
    pub fn payload(&self) -> (bytes: [u8; 102])
        ensures
            bytes@ == self@,
            bytes@ == packet_bytes(self.target_octets()),
    {
        proof {
            use_type_invariant(self);
        }
        self.bytes
    }
}

/// Builds the wake payload for the address written in `text`.
///
/// Succeeds exactly on six tokens of two hexadecimal digits each, parted by
/// `-`; otherwise fails with the part of the text at fault.
pub fn build(text: &str) -> (r: Result<MagicPacket, ConfigError>)
    ensures
        r is Ok <==> is_address_text(text@),
        match r {
            Ok(packet) => parse_text(text@) is Ok && packet@ == packet_bytes(
                parse_text(text@)->Ok_0,
            ) && packet.target_octets() == parse_text(text@)->Ok_0,
            Err(e) => parse_text(text@) == Err::<Seq<u8>, Seq<char>>(e.offending()),
        },
{
    match MacAddress::parse(text) {
        Ok(mac) => Ok(MagicPacket::from_address(&mac)),
        Err(e) => Err(e),
    }
}

} // verus!
