//! The message that tells a client which part of the map to build: the zone
//! in the middle, the position inside it, and with them the map squares that
//! the part touches.

use crate::ordered::rising;
use crate::server_protocol::{OutgoingMessage, ServerProtocol, ServerProtocolPriority};
use std::collections::BTreeSet;
use vstd::prelude::*;

verus! {

/// The zone in the middle of the part to build, and the position inside
/// the part.
#[derive(Clone, Copy, Debug, PartialEq, Eq)]
pub struct RebuildNormal {
    zone_x: i32,
    zone_z: i32,
    local_x: i32,
    local_z: i32,
}

/// How many zones the built part reaches from its middle, each way.
pub const ZONE_REACH: i32 = 6;

/// `s`, which rises, with `v` at its place, unless `s` holds it.
pub open spec fn inserted(s: Seq<i32>, v: i32) -> Seq<i32>
    decreases s.len(),
{
    if s.len() == 0 {
        seq![v]
    } else if s.last() < v {
        s.push(v)
    } else if s.last() == v {
        s
    } else {
        inserted(s.drop_last(), v).push(s.last())
    }
}

/// The map square of a zone along one axis: eight zones make a map square.
pub open spec fn square_of_zone(zone: i32) -> i32 {
    (zone << 3) >> 6
}

/// The number of the map square at the zones `x` and `z`.
pub open spec fn square_at(x: i32, z: i32) -> i32 {
    square_of_zone(x) << 8 | square_of_zone(z)
}

/// The number of the map square of cell `n` of the part around the zone
/// `zone_x`, `zone_z`: the cells are counted along z first, from the lowest
/// zone on.
pub open spec fn cell_square(zone_x: i32, zone_z: i32, n: int) -> i32 {
    square_at((zone_x - ZONE_REACH + n / 13) as i32, (zone_z - ZONE_REACH + n % 13) as i32)
}

/// The map squares of the first `n` cells, rising, each once.
pub open spec fn squares_upto(zone_x: i32, zone_z: i32, n: nat) -> Seq<i32>
    decreases n,
{
    if n == 0 {
        Seq::empty()
    } else {
        inserted(squares_upto(zone_x, zone_z, (n - 1) as nat), cell_square(zone_x, zone_z, n - 1))
    }
}

/// Inserting keeps the order and adds the value to what the sequence holds.
pub proof fn lemma_inserted(s: Seq<i32>, v: i32)
    requires
        rising(s),
    ensures
        rising(inserted(s, v)),
        forall|x: i32| #[trigger] inserted(s, v).contains(x) <==> s.contains(x) || x == v,
        inserted(s, v).len() <= s.len() + 1,
    decreases s.len(),
{
    let r = inserted(s, v);
    if s.len() == 0 {
        assert(r[0] == v);
    } else if s.last() < v {
        assert(r.drop_last() =~= s);
        assert forall|x: i32| #[trigger] r.contains(x) <==> s.contains(x) || x == v by {
            if r.contains(x) {
                let i = choose|i: int| 0 <= i < r.len() && r[i] == x;
                if i < s.len() {
                    assert(s[i] == x);
                }
            }
            if s.contains(x) {
                let i = choose|i: int| 0 <= i < s.len() && s[i] == x;
                assert(r[i] == x);
            }
            if x == v {
                assert(r[s.len() as int] == v);
            }
        }
    } else if s.last() == v {
        assert(s[s.len() - 1] == v);
    } else {
        let front = s.drop_last();
        lemma_inserted(front, v);
        let mid = inserted(front, v);
        assert forall|i: int, j: int| 0 <= i < j < r.len() implies r[i] < r[j] by {
            if j == r.len() - 1 {
                assert(mid.contains(mid[i]));
                if front.contains(mid[i]) {
                    let k = choose|k: int| 0 <= k < front.len() && front[k] == mid[i];
                    assert(s[k] < s[s.len() - 1]);
                }
            }
        }
        assert forall|x: i32| #[trigger] r.contains(x) <==> s.contains(x) || x == v by {
            if r.contains(x) {
                let i = choose|i: int| 0 <= i < r.len() && r[i] == x;
                if i < mid.len() {
                    assert(mid[i] == x);
                    assert(mid.contains(x));
                    if front.contains(x) {
                        let k = choose|k: int| 0 <= k < front.len() && front[k] == x;
                        assert(s[k] == x);
                    }
                } else {
                    assert(s[s.len() - 1] == x);
                }
            }
            if s.contains(x) {
                let i = choose|i: int| 0 <= i < s.len() && s[i] == x;
                if i < front.len() {
                    assert(front[i] == x);
                    assert(front.contains(x));
                    assert(mid.contains(x));
                    let k = choose|k: int| 0 <= k < mid.len() && mid[k] == x;
                    assert(r[k] == x);
                } else {
                    assert(r[r.len() - 1] == x);
                }
            }
            if x == v {
                assert(mid.contains(x));
                let k = choose|k: int| 0 <= k < mid.len() && mid[k] == x;
                assert(r[k] == x);
            }
        }
    }
}

/// The map squares of the first `n` cells rise, and hold the square of each
/// of these cells and nothing else.
pub proof fn lemma_squares_upto(zone_x: i32, zone_z: i32, n: nat)
    ensures
        rising(squares_upto(zone_x, zone_z, n)),
        squares_upto(zone_x, zone_z, n).len() <= n,
        forall|v: i32| #[trigger]
            squares_upto(zone_x, zone_z, n).contains(v) <==> exists|k: int|
                0 <= k < n && #[trigger] cell_square(zone_x, zone_z, k) == v,
    decreases n,
{
    let now = squares_upto(zone_x, zone_z, n);
    if n == 0 {
    } else {
        let before = squares_upto(zone_x, zone_z, (n - 1) as nat);
        let added = cell_square(zone_x, zone_z, n - 1);
        lemma_squares_upto(zone_x, zone_z, (n - 1) as nat);
        lemma_inserted(before, added);
        assert forall|v: i32| #[trigger]
            now.contains(v) <==> exists|k: int|
                0 <= k < n && #[trigger] cell_square(zone_x, zone_z, k) == v by {
            assert(now.contains(v) <==> before.contains(v) || v == added);
            if now.contains(v) {
                if before.contains(v) {
                    let k = choose|k: int|
                        0 <= k < n - 1 && #[trigger] cell_square(zone_x, zone_z, k) == v;
                    assert(cell_square(zone_x, zone_z, k) == v);
                } else {
                    assert(cell_square(zone_x, zone_z, n - 1) == v);
                }
            }
            if exists|k: int| 0 <= k < n && #[trigger] cell_square(zone_x, zone_z, k) == v {
                let k = choose|k: int| 0 <= k < n && #[trigger] cell_square(zone_x, zone_z, k) == v;
                if k < n - 1 {
                    assert(before.contains(v));
                } else {
                    assert(v == added);
                }
            }
        }
    }
}

impl RebuildNormal {
    /// The message for the zone and the position given.
    pub closed spec fn of(zone_x: i32, zone_z: i32, coord_x: i32, coord_z: i32) -> RebuildNormal {
        RebuildNormal { zone_x, zone_z, local_x: coord_x, local_z: coord_z }
    }

    pub fn new(zone_x: i32, zone_z: i32, coord_x: i32, coord_z: i32) -> (message: RebuildNormal)
        ensures
            message == Self::of(zone_x, zone_z, coord_x, coord_z),
            message.zone_x_of() == zone_x,
            message.zone_z_of() == zone_z,
            message.local_x_of() == coord_x,
            message.local_z_of() == coord_z,
    {
        RebuildNormal { zone_x, zone_z, local_x: coord_x, local_z: coord_z }
    }

    pub closed spec fn zone_x_of(&self) -> i32 {
        self.zone_x
    }

    pub closed spec fn zone_z_of(&self) -> i32 {
        self.zone_z
    }

    pub closed spec fn local_x_of(&self) -> i32 {
        self.local_x
    }

    pub closed spec fn local_z_of(&self) -> i32 {
        self.local_z
    }

    pub fn zone_x(&self) -> (zone: i32)
        ensures
            zone == self.zone_x_of(),
    {
        self.zone_x
    }

    pub fn zone_z(&self) -> (zone: i32)
        ensures
            zone == self.zone_z_of(),
    {
        self.zone_z
    }

    pub fn local_x(&self) -> (local: i32)
        ensures
            local == self.local_x_of(),
    {
        self.local_x
    }

    pub fn local_z(&self) -> (local: i32)
        ensures
            local == self.local_z_of(),
    {
        self.local_z
    }

    /// Whether the part around the zone lies inside what an `i32` can count.
    pub open spec fn in_reach(&self) -> bool {
        &&& i32::MIN + ZONE_REACH <= self.zone_x_of() <= i32::MAX - ZONE_REACH
        &&& i32::MIN + ZONE_REACH <= self.zone_z_of() <= i32::MAX - ZONE_REACH
    }

    /// The map squares that the part around the zone touches, rising, each
    /// once.
    pub open spec fn mapsquares_of(&self) -> Seq<i32> {
        squares_upto(self.zone_x_of(), self.zone_z_of(), 169)
    }

    /// Whether `v` is the map square of a zone of the part around the zone in
    /// the middle.
    pub open spec fn touches(&self, v: i32) -> bool {
        exists|x: int, z: int|
            self.zone_x_of() - ZONE_REACH <= x <= self.zone_x_of() + ZONE_REACH && self.zone_z_of()
                - ZONE_REACH <= z <= self.zone_z_of() + ZONE_REACH && #[trigger] square_at(
                x as i32,
                z as i32,
            ) == v
    }

    /// The rising sequence of the map squares holds each map square that the
    /// part touches, once, and nothing else.
    pub proof fn lemma_mapsquares_of(&self)
        ensures
            rising(self.mapsquares_of()),
            1 <= self.mapsquares_of().len() <= 169,
            forall|v: i32| self.mapsquares_of().contains(v) <==> self.touches(v),
            self.mapsquares_of().to_set().finite(),
            self.mapsquares_of().to_set().len() == self.mapsquares_of().len(),
    {
        let zone_x = self.zone_x_of();
        let zone_z = self.zone_z_of();
        lemma_squares_upto(zone_x, zone_z, 169);
        lemma_squares_upto(zone_x, zone_z, 1);
        let squares = self.mapsquares_of();
        assert(squares.len() >= 1) by {
            assert(cell_square(zone_x, zone_z, 0) == cell_square(zone_x, zone_z, 0));
            assert(squares.contains(cell_square(zone_x, zone_z, 0)));
        }
        assert forall|v: i32| squares.contains(v) <==> self.touches(v) by {
            if squares.contains(v) {
                let k = choose|k: int| 0 <= k < 169 && #[trigger] cell_square(zone_x, zone_z, k) == v;
                let x = zone_x - ZONE_REACH + k / 13;
                let z = zone_z - ZONE_REACH + k % 13;
                assert(square_at(x as i32, z as i32) == v);
            }
            if self.touches(v) {
                let (x, z) = choose|x: int, z: int|
                    zone_x - ZONE_REACH <= x <= zone_x + ZONE_REACH && zone_z - ZONE_REACH <= z
                        <= zone_z + ZONE_REACH && #[trigger] square_at(x as i32, z as i32) == v;
                let k = 13 * (x - (zone_x - ZONE_REACH)) + (z - (zone_z - ZONE_REACH));
                assert(k / 13 == x - (zone_x - ZONE_REACH));
                assert(k % 13 == z - (zone_z - ZONE_REACH));
                assert(cell_square(zone_x, zone_z, k) == v);
            }
        }
        assert(squares.no_duplicates());
        squares.unique_seq_to_set();
    }

    /// The map squares of the 13 by 13 zones around the zone in the middle,
    /// each once; the set hands them out in rising order, which is
    /// `mapsquares_of`.
    pub fn mapsquares(&self) -> (squares: BTreeSet<i32>)
        requires
            self.in_reach(),
        ensures
            squares@ == self.mapsquares_of().to_set(),
            squares@.len() == self.mapsquares_of().len(),
            forall|v: i32| squares@.contains(v) <==> self.touches(v),
    {
        broadcast use vstd::std_specs::btree::group_btree_axioms;

        let min_x: i32 = self.zone_x - ZONE_REACH;
        let min_z: i32 = self.zone_z - ZONE_REACH;
        let mut result: BTreeSet<i32> = BTreeSet::new();
        let mut dx: i32 = 0;
        let ghost mut cells: nat = 0;
        assert(result@ =~= squares_upto(self.zone_x, self.zone_z, 0).to_set());
        while dx <= 2 * ZONE_REACH
            invariant
                self.in_reach(),
                min_x == self.zone_x - ZONE_REACH,
                min_z == self.zone_z - ZONE_REACH,
                0 <= dx <= 13,
                cells == 13 * dx,
                result@ == squares_upto(self.zone_x, self.zone_z, cells).to_set(),
            decreases 13 - dx,
        {
            let x: i32 = min_x + dx;
            let mx: i32 = Self::mapsquare(x << 3);
            let mut dz: i32 = 0;
            while dz <= 2 * ZONE_REACH
                invariant
                    self.in_reach(),
                    min_x == self.zone_x - ZONE_REACH,
                    min_z == self.zone_z - ZONE_REACH,
                    0 <= dx <= 12,
                    0 <= dz <= 13,
                    x == min_x + dx,
                    mx == square_of_zone(x),
                    cells == 13 * dx + dz,
                    result@ == squares_upto(self.zone_x, self.zone_z, cells).to_set(),
                decreases 13 - dz,
            {
                let z: i32 = min_z + dz;
                let mz: i32 = Self::mapsquare(z << 3);
                proof {
                    assert(cells as int / 13 == dx);
                    assert(cells as int % 13 == dz);
                    assert(cell_square(self.zone_x, self.zone_z, cells as int) == mx << 8 | mz);
                    let before = squares_upto(self.zone_x, self.zone_z, cells);
                    lemma_squares_upto(self.zone_x, self.zone_z, cells);
                    lemma_inserted(before, mx << 8 | mz);
                    assert(before.to_set().insert(mx << 8 | mz) =~= inserted(
                        before,
                        mx << 8 | mz,
                    ).to_set());
                }
                result.insert(mx << 8 | mz);
                proof {
                    cells = cells + 1;
                }
                dz += 1;
            }
            dx += 1;
        }
        proof {
            assert(cells == 169);
            self.lemma_mapsquares_of();
        }
        result
    }

    /// The map square of a position along one axis: 64 positions make a map
    /// square.
    fn mapsquare(pos: i32) -> (square: i32)
        ensures
            square == pos >> 6,
    {
        pos >> 6
    }
}

impl OutgoingMessage for RebuildNormal {
    open spec fn priority_of(&self) -> ServerProtocolPriority {
        ServerProtocolPriority::IMMEDIATE
    }

    open spec fn protocol_of(&self) -> ServerProtocol {
        ServerProtocol::REBUILD_NORMAL
    }

    fn priority(&self) -> (priority: ServerProtocolPriority) {
        ServerProtocolPriority::IMMEDIATE
    }

    fn protocol(&self) -> (protocol: ServerProtocol) {
        ServerProtocol::REBUILD_NORMAL
    }
}

} // verus!
