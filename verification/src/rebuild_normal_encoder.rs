//! The encoder of the rebuild message: the position, then a key of four words
//! for each map square that the part touches, then the zone.

use crate::ordered::{lemma_keys_rise, lemma_rising_is_unique};
use crate::packet::Packet;
use crate::rebuild_normal::RebuildNormal;
use crate::server_protocol::{MessageEncoder, ServerProtocol};
use crate::wire::{be_bytes, lemma_written_twice, octet, placed, written, zeros};
use std::collections::{BTreeSet, HashMap};
use vstd::prelude::*;
use vstd::std_specs::iter::IteratorSpec;

verus! {

/// The key of a map square: four words, all zero where the square has none.
#[derive(Clone, Copy, Debug, PartialEq, Eq)]
pub struct XteaKey(pub i32, pub i32, pub i32, pub i32);

impl XteaKey {
    /// The key of a map square that has none.
    pub open spec fn zero() -> XteaKey {
        XteaKey(0, 0, 0, 0)
    }

    pub fn is_zero(&self) -> (zero: bool)
        ensures
            zero == (*self == XteaKey::zero()),
    {
        self.0 == 0 && self.1 == 0 && self.2 == 0 && self.3 == 0
    }
}

/// The encoder of the rebuild message, with the keys that it knows.
pub struct RebuildNormalEncoder {
    keys: HashMap<i32, XteaKey>,
}

/// The two bytes of a number whose low byte is sent with 128 added.
pub open spec fn add2(v: int) -> Seq<u8> {
    seq![octet(v, 1), octet(v + 128, 0)]
}

/// The four bytes of a word in the order third, fourth, first, second,
/// counted from the least significant.
pub open spec fn middle4(v: int) -> Seq<u8> {
    seq![octet(v, 2), octet(v, 3), octet(v, 0), octet(v, 1)]
}

/// The sixteen bytes of a key.
pub open spec fn key_bytes(key: XteaKey) -> Seq<u8> {
    middle4(key.0 as int) + middle4(key.1 as int) + middle4(key.2 as int) + middle4(key.3 as int)
}

/// The key that `keys` holds for a map square, or the zero key.
pub open spec fn key_for(keys: Map<i32, XteaKey>, mapsquare: i32) -> XteaKey {
    if keys.contains_key(mapsquare) {
        keys[mapsquare]
    } else {
        XteaKey::zero()
    }
}

/// The keys of the map squares, one behind the other.
pub open spec fn keys_bytes(keys: Map<i32, XteaKey>, mapsquares: Seq<i32>) -> Seq<u8>
    decreases mapsquares.len(),
{
    if mapsquares.len() == 0 {
        Seq::empty()
    } else {
        keys_bytes(keys, mapsquares.drop_last()) + key_bytes(key_for(keys, mapsquares.last()))
    }
}

/// The keys of `n` map squares take `16 * n` bytes.
pub proof fn lemma_keys_bytes_len(keys: Map<i32, XteaKey>, mapsquares: Seq<i32>)
    ensures
        keys_bytes(keys, mapsquares).len() == 16 * mapsquares.len(),
    decreases mapsquares.len(),
{
    if mapsquares.len() > 0 {
        lemma_keys_bytes_len(keys, mapsquares.drop_last());
    }
}

/// What the rebuild message is on the wire, behind its length: the position
/// along x, the keys of the map squares, the byte 128, the zone along x, the
/// zone along z and the position along z.
pub open spec fn rebuild_content(keys: Map<i32, XteaKey>, message: RebuildNormal) -> Seq<u8> {
    add2(message.local_x_of() as int) + keys_bytes(keys, message.mapsquares_of()) + seq![128u8]
        + be_bytes(message.zone_x_of() as int, 2) + add2(message.zone_z_of() as int) + add2(
        message.local_z_of() as int,
    )
}

impl RebuildNormalEncoder {
    /// An encoder that knows no key: every map square has the zero key.
    #[inline]
    pub fn new() -> (encoder: Self)
        ensures
            encoder.keys() == Map::<i32, XteaKey>::empty(),
    {
        RebuildNormalEncoder { keys: HashMap::new() }
    }

    /// An encoder that knows the keys given, each under its map square.
    pub fn with_keys(keys: HashMap<i32, XteaKey>) -> (encoder: Self)
        ensures
            encoder.keys() == keys@,
    {
        RebuildNormalEncoder { keys }
    }

    /// The keys that the encoder knows.
    pub closed spec fn keys(&self) -> Map<i32, XteaKey> {
        self.keys@
    }

    /// The key of a map square, the zero key where the encoder knows none.
    pub fn key(&self, mapsquare: i32) -> (key: XteaKey)
        ensures
            key == key_for(self.keys(), mapsquare),
    {
        match self.keys.get(&mapsquare) {
            Some(key) => *key,
            None => XteaKey(0, 0, 0, 0),
        }
    }
}

impl MessageEncoder for RebuildNormalEncoder {
    type Message = RebuildNormal;

    open spec fn protocol_of(&self) -> ServerProtocol {
        ServerProtocol::REBUILD_NORMAL
    }

    open spec fn encodable(&self, message: &RebuildNormal, position: usize, length: nat) -> bool {
        &&& message.in_reach()
        &&& position <= length
        &&& position + 2 + rebuild_content(self.keys(), *message).len() <= usize::MAX
    }

    open spec fn encoded(&self, message: &RebuildNormal) -> Seq<u8> {
        be_bytes(rebuild_content(self.keys(), *message).len() as int, 2) + rebuild_content(
            self.keys(),
            *message,
        )
    }

    #[inline]
    fn protocol(&self) -> (protocol: ServerProtocol) {
        ServerProtocol::REBUILD_NORMAL
    }

    /// Writes the length of the message in two bytes, then the message.
    fn encode(&self, packet: &mut Packet, message: &RebuildNormal) {
        broadcast use vstd::std_specs::btree::group_btree_axioms;

        let squares: BTreeSet<i32> = message.mapsquares();
        let ghost order = message.mapsquares_of();
        proof {
            message.lemma_mapsquares_of();
            let handed = squares.iter().remaining();
            lemma_keys_rise(handed);
            assert forall|v: i32| handed.unref().contains(v) <==> order.contains(v) by {
                assert(handed.unref().to_set().contains(v) <==> order.to_set().contains(v));
            }
            lemma_rising_is_unique(handed.unref(), order);
        }
        let capacity: usize = 2 + (4 * 4 * squares.len()) + 1 + 2 + 2 + 2;
        let mut temporary_packet: Packet = Packet::new(capacity);
        let ghost blank = temporary_packet.data@;
        let ghost keys = self.keys();
        temporary_packet.p2add(message.local_x());
        let ghost head = add2(message.local_x_of() as int);
        assert(order.subrange(0, 0) =~= Seq::<i32>::empty());
        assert(head + keys_bytes(keys, order.subrange(0, 0)) =~= head);
        for mapsquare in it: squares.iter()
            invariant
                it.seq() == squares.iter().remaining(),
                it.seq().unref() == order,
                order.len() <= 169,
                keys == self.keys(),
                blank.len() == capacity,
                capacity == 9 + 16 * order.len(),
                head.len() == 2,
                temporary_packet.position == 2 + 16 * it.index(),
                temporary_packet.data@ == written(
                    blank,
                    0,
                    head + keys_bytes(keys, order.subrange(0, it.index() as int)),
                ),
        {
            let ghost i = it.index() as int;
            let ghost done = head + keys_bytes(keys, order.subrange(0, i));
            assert(*mapsquare == order[i]) by {
                assert(it.seq().unref()[i] == *it.seq()[i]);
            }
            let xtea_key: XteaKey = self.key(*mapsquare);
            proof {
                lemma_keys_bytes_len(keys, order.subrange(0, i));
            }
            if xtea_key.is_zero() {
                temporary_packet.p4me(0);
                temporary_packet.p4me(0);
                temporary_packet.p4me(0);
                temporary_packet.p4me(0);
            } else {
                temporary_packet.p4me(xtea_key.0);
                temporary_packet.p4me(xtea_key.1);
                temporary_packet.p4me(xtea_key.2);
                temporary_packet.p4me(xtea_key.3);
            }
            proof {
                let a = middle4(xtea_key.0 as int);
                let b = middle4(xtea_key.1 as int);
                let c = middle4(xtea_key.2 as int);
                let d = middle4(xtea_key.3 as int);
                lemma_written_twice(blank, 0, done, a);
                lemma_written_twice(blank, 0, done + a, b);
                lemma_written_twice(blank, 0, done + a + b, c);
                lemma_written_twice(blank, 0, done + a + b + c, d);
                let next = order.subrange(0, i + 1);
                assert(next.drop_last() =~= order.subrange(0, i));
                assert(next.last() == order[i]);
                assert(done + a + b + c + d =~= head + keys_bytes(keys, next));
            }
        }
        proof {
            assert(order.subrange(0, order.len() as int) =~= order);
            lemma_keys_bytes_len(keys, order);
        }
        let ghost body = head + keys_bytes(keys, order);
        temporary_packet.p1(128);
        temporary_packet.p2(message.zone_x());
        temporary_packet.p2add(message.zone_z());
        temporary_packet.p2add(message.local_z());
        proof {
            let a = be_bytes(128, 1);
            let b = be_bytes(message.zone_x_of() as int, 2);
            let c = add2(message.zone_z_of() as int);
            let d = add2(message.local_z_of() as int);
            lemma_written_twice(blank, 0, body, a);
            lemma_written_twice(blank, 0, body + a, b);
            lemma_written_twice(blank, 0, body + a + b, c);
            lemma_written_twice(blank, 0, body + a + b + c, d);
            assert(a =~= seq![128u8]);
            assert(body + a + b + c + d =~= rebuild_content(keys, *message));
            assert(temporary_packet.data@ =~= rebuild_content(keys, *message));
        }
        let length: usize = temporary_packet.data.len();
        packet.p2(length as i32);
        packet.pbytes(temporary_packet.data.as_slice(), 0, length);
        proof {
            assert(temporary_packet.data@.subrange(0, length as int) =~= temporary_packet.data@);
            lemma_written_twice(
                old(packet).data@,
                old(packet).position as int,
                be_bytes(length as int, 2),
                temporary_packet.data@,
            );
        }
    }
}

} // verus!
