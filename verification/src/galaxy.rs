use vstd::prelude::*;
use vstd::arithmetic::div_mod::lemma_fundamental_div_mod;
use vstd::arithmetic::div_mod::lemma_fundamental_div_mod_converse;
use crate::random::random_below;

verus! {

/// What occupies one sector of the galaxy map.
#[derive(Clone, Copy, PartialEq, Eq, Debug, Hash, Structural)]
pub enum SectorKind {
    Empty,
    Zerlak,
    Friendly,
    Cleared,
}

/// Side of the grid on level zero; each level adds one.
pub const BASE_GRID_SIZE: i32 = 5;

/// The grid never grows past this side, so it always fits the window.
pub const MAX_GRID_SIZE: i32 = 10;

/// Sector rolls are drawn from `0..ROLL_RANGE`, so a chance is written in
/// thousandths.
pub const ROLL_RANGE: u32 = 1000;

/// Chance, in thousandths, that a sector of a level-zero galaxy is Zerlak-held.
pub const BASE_ZERLAK_PERMILLE: u32 = 260;

/// Added to the Zerlak chance for each level.
pub const ZERLAK_PERMILLE_PER_LEVEL: u32 = 25;

/// The Zerlak chance never passes one half.
pub const MAX_ZERLAK_PERMILLE: u32 = 500;

/// Chance, in thousandths, of a friendly outpost.
pub const FRIENDLY_PERMILLE: u32 = 160;

/// Highest level whose galaxy can be generated: the side is computed in
/// `i32` as `5 + level`.
pub const MAX_GENERATED_LEVEL: u32 = 2147483642;

/// Side of the grid generated for `level`: one more per level, capped.
pub open spec fn grid_side_for(level: u32) -> int {
    if BASE_GRID_SIZE + level >= MAX_GRID_SIZE {
        MAX_GRID_SIZE as int
    } else {
        BASE_GRID_SIZE + level
    }
}

/// Chance in thousandths that a generated sector is Zerlak-held on `level`.
pub open spec fn zerlak_permille_for(level: u32) -> int {
    if BASE_ZERLAK_PERMILLE + ZERLAK_PERMILLE_PER_LEVEL * level >= MAX_ZERLAK_PERMILLE {
        MAX_ZERLAK_PERMILLE as int
    } else {
        BASE_ZERLAK_PERMILLE + ZERLAK_PERMILLE_PER_LEVEL * level
    }
}

/// The sector that a roll gives: below the Zerlak chance a Zerlak sector,
/// in the next `friendly` thousandths an outpost, else empty space.
pub open spec fn sector_for_roll(roll: int, zerlak: int, friendly: int) -> SectorKind {
    if roll < zerlak {
        SectorKind::Zerlak
    } else if roll < zerlak + friendly {
        SectorKind::Friendly
    } else {
        SectorKind::Empty
    }
}

/// `p` lies on a grid of side `side`.
pub open spec fn in_grid(side: int, p: (i32, i32)) -> bool {
    0 <= p.0 < side && 0 <= p.1 < side
}

/// Position of sector `p` in the column-major list of a grid's sectors.
pub open spec fn flat_index(side: int, p: (i32, i32)) -> int {
    p.0 * side + p.1
}

/// The sector at position `i` of the column-major list.
pub open spec fn position_of(side: int, i: int) -> (i32, i32) {
    ((i / side) as i32, (i % side) as i32)
}

/// `b` is one of the four sectors that share an edge with `a`.
pub open spec fn is_neighbor(a: (i32, i32), b: (i32, i32)) -> bool {
    ||| (b.1 == a.1 && (b.0 - a.0 == 1 || a.0 - b.0 == 1))
    ||| (b.0 == a.0 && (b.1 - a.1 == 1 || a.1 - b.1 == 1))
}

/// Kinds of sector that Zerlak forces can spread into.
pub open spec fn is_spreadable(kind: SectorKind) -> bool {
    kind == SectorKind::Empty || kind == SectorKind::Cleared
}

/// Both coordinates of `p` have neighbours within `i32` on either side.
pub open spec fn inner_position(p: (i32, i32)) -> bool {
    i32::MIN < p.0 < i32::MAX && i32::MIN < p.1 < i32::MAX
}

/// Every Zerlak sector on record has its neighbours within `i32`.
pub open spec fn zerlak_inner(m: Map<(i32, i32), SectorKind>) -> bool {
    forall|p: (i32, i32)| #[trigger] m.dom().contains(p) && m[p] == SectorKind::Zerlak ==> inner_position(p)
}

/// The grid holds a Zerlak sector.
pub open spec fn holds_zerlak(m: Map<(i32, i32), SectorKind>) -> bool {
    exists|p: (i32, i32)| #[trigger] m.dom().contains(p) && m[p] == SectorKind::Zerlak
}

/// A sector on the grid has its place in the list of sectors.
pub proof fn lemma_flat_index_bounds(side: int, p: (i32, i32))
    requires
        1 <= side <= MAX_GRID_SIZE,
        in_grid(side, p),
    ensures
        0 <= flat_index(side, p) < side * side,
        flat_index(side, p) <= (MAX_GRID_SIZE - 1) * MAX_GRID_SIZE + MAX_GRID_SIZE - 1,
{
    let x = p.0 as int;
    let y = p.1 as int;
    assert(0 <= x * side + y < side * side) by (nonlinear_arith)
        requires
            0 <= x < side,
            0 <= y < side,
    ;
    assert(x * side <= 9 * 10) by (nonlinear_arith)
        requires
            0 <= x <= 9,
            0 <= side <= 10,
    ;
}

/// Every place in the list of sectors holds a sector on the grid.
pub proof fn lemma_position_of(side: int, i: int)
    requires
        1 <= side <= MAX_GRID_SIZE,
        0 <= i < side * side,
    ensures
        in_grid(side, position_of(side, i)),
        flat_index(side, position_of(side, i)) == i,
{
    lemma_fundamental_div_mod(i, side);
    let q = i / side;
    let r = i % side;
    assert(0 <= r < side);
    assert(0 <= q < side) by (nonlinear_arith)
        requires
            i == side * q + r,
            0 <= r < side,
            0 <= i < side * side,
            side >= 1,
    ;
    assert(q * side == side * q) by (nonlinear_arith);
}

/// A sector's place in the list leads back to the sector.
pub proof fn lemma_flat_index_position(side: int, p: (i32, i32))
    requires
        1 <= side <= MAX_GRID_SIZE,
        in_grid(side, p),
    ensures
        position_of(side, flat_index(side, p)) == p,
{
    lemma_fundamental_div_mod_converse(flat_index(side, p), side, p.0 as int, p.1 as int);
}

/// Two sectors on the grid never share a place in the list.
pub proof fn lemma_flat_index_injective(side: int, p: (i32, i32), q: (i32, i32))
    requires
        1 <= side <= MAX_GRID_SIZE,
        in_grid(side, p),
        in_grid(side, q),
        flat_index(side, p) == flat_index(side, q),
    ensures
        p == q,
{
    lemma_flat_index_position(side, p);
    lemma_flat_index_position(side, q);
}

/// Side of the grid generated for `level`.
pub fn grid_side(level: u32) -> (side: i32)
    requires
        level <= MAX_GENERATED_LEVEL,
    ensures
        side == grid_side_for(level),
        BASE_GRID_SIZE <= side <= MAX_GRID_SIZE,
{
    if level >= 5 {
        MAX_GRID_SIZE
    } else {
        BASE_GRID_SIZE + level as i32
    }
}

/// Chance, in thousandths, that a sector generated for `level` is Zerlak-held.
pub fn zerlak_permille(level: u32) -> (p: u32)
    ensures
        p == zerlak_permille_for(level),
        BASE_ZERLAK_PERMILLE <= p <= MAX_ZERLAK_PERMILLE,
{
    if level >= 10 {
        MAX_ZERLAK_PERMILLE
    } else {
        BASE_ZERLAK_PERMILLE + ZERLAK_PERMILLE_PER_LEVEL * level
    }
}

/// The sector that `roll` gives with the given Zerlak and outpost chances.
pub fn kind_for_roll(roll: u32, zerlak: u32, friendly: u32) -> (k: SectorKind)
    ensures
        k == sector_for_roll(roll as int, zerlak as int, friendly as int),
{
    if roll < zerlak {
        SectorKind::Zerlak
    } else if (roll - zerlak) < friendly {
        SectorKind::Friendly
    } else {
        SectorKind::Empty
    }
}

/// The sectors recorded as a list of entries, each key at most once: the
/// last entry for a key gives its kind.
pub open spec fn entries_map(s: Seq<((i32, i32), SectorKind)>) -> Map<(i32, i32), SectorKind>
    decreases s.len(),
{
    if s.len() == 0 {
        Map::empty()
    } else {
        entries_map(s.drop_last()).insert(s.last().0, s.last().1)
    }
}

/// No key occurs twice in the list.
pub open spec fn keys_unique(s: Seq<((i32, i32), SectorKind)>) -> bool {
    forall|i: int, j: int| 0 <= i < s.len() && 0 <= j < s.len() && i != j ==> s[i].0 != s[j].0
}

/// A list of entries with distinct keys maps each key to its entry's kind,
/// and holds no other key.
pub proof fn lemma_entries_map(s: Seq<((i32, i32), SectorKind)>)
    requires
        keys_unique(s),
    ensures
        forall|i: int| 0 <= i < s.len() ==> #[trigger] entries_map(s).dom().contains(s[i].0)
            && entries_map(s)[s[i].0] == s[i].1,
        forall|k: (i32, i32)|
            #[trigger] entries_map(s).dom().contains(k) ==> exists|i: int| 0 <= i < s.len() && s[i].0 == k,
    decreases s.len(),
{
    if s.len() > 0 {
        let prev = s.drop_last();
        assert(keys_unique(prev));
        lemma_entries_map(prev);
        assert forall|i: int| 0 <= i < s.len() implies #[trigger] entries_map(s).dom().contains(s[i].0)
            && entries_map(s)[s[i].0] == s[i].1 by {
            if i < s.len() - 1 {
                assert(s[i] == prev[i]);
                assert(s[i].0 != s[s.len() - 1].0);
                assert(entries_map(prev).dom().contains(prev[i].0));
            } else {
                assert(s.last() == s[i]);
            }
        }
        assert forall|k: (i32, i32)| #[trigger] entries_map(s).dom().contains(k) implies exists|i: int|
            0 <= i < s.len() && s[i].0 == k by {
            if k != s.last().0 {
                assert(entries_map(prev).dom().contains(k));
                let i = choose|i: int| 0 <= i < prev.len() && prev[i].0 == k;
                assert(s[i] == prev[i]);
            } else {
                assert(s[s.len() - 1].0 == k);
            }
        }
    }
}

/// Replacing the kind of one entry replaces it in the map.
pub proof fn lemma_entries_map_update(s: Seq<((i32, i32), SectorKind)>, i: int, kind: SectorKind)
    requires
        keys_unique(s),
        0 <= i < s.len(),
    ensures
        keys_unique(s.update(i, (s[i].0, kind))),
        entries_map(s.update(i, (s[i].0, kind))) == entries_map(s).insert(s[i].0, kind),
{
    let t = s.update(i, (s[i].0, kind));
    assert(keys_unique(t)) by {
        assert forall|a: int, b: int| 0 <= a < t.len() && 0 <= b < t.len() && a != b implies t[a].0
            != t[b].0 by {
            assert(t[a].0 == s[a].0 && t[b].0 == s[b].0);
        }
    }
    lemma_entries_map(s);
    lemma_entries_map(t);
    let m = entries_map(s).insert(s[i].0, kind);
    assert forall|k: (i32, i32)| #[trigger] entries_map(t).dom().contains(k) <==> m.dom().contains(k) by {
        if entries_map(t).dom().contains(k) {
            let j = choose|j: int| 0 <= j < t.len() && t[j].0 == k;
            assert(s[j].0 == k);
            assert(entries_map(s).dom().contains(s[j].0));
        }
        if m.dom().contains(k) && k != s[i].0 {
            let j = choose|j: int| 0 <= j < s.len() && s[j].0 == k;
            assert(t[j].0 == k);
            assert(entries_map(t).dom().contains(t[j].0));
        }
        if k == s[i].0 {
            assert(entries_map(t).dom().contains(t[i].0));
        }
    }
    assert forall|k: (i32, i32)| #[trigger] entries_map(t).dom().contains(k) implies entries_map(t)[k]
        == m[k] by {
        let j = choose|j: int| 0 <= j < t.len() && t[j].0 == k;
        assert(entries_map(t)[t[j].0] == t[j].1);
        if j != i {
            assert(t[j] == s[j]);
            assert(entries_map(s)[s[j].0] == s[j].1);
        }
    }
    assert(entries_map(t) =~= m);
}

/// Position of the entry for `(x, y)` in a list of entries, if any.
fn find_entry(outside: &Vec<((i32, i32), SectorKind)>, x: i32, y: i32) -> (found: Option<usize>)
    ensures
        match found {
            Some(i) => i < outside@.len() && outside@[i as int].0 == (x, y),
            None => forall|i: int| 0 <= i < outside@.len() ==> outside@[i].0 != (x, y),
        },
{
    let mut i: usize = 0;
    while i < outside.len()
        invariant
            i <= outside@.len(),
            forall|j: int| 0 <= j < i ==> outside@[j].0 != (x, y),
        decreases outside@.len() - i,
    {
        let (p, _) = outside[i];
        if p.0 == x && p.1 == y {
            return Some(i);
        }
        i = i + 1;
    }
    None
}

/// The galaxy's sectors. Every sector `(x, y)` with both coordinates in
/// `0..size` holds a kind; a sector recorded away from that square (which
/// nothing in the game's own moves produces, but which a record of the
/// sectors can hold) is kept as well. The grid lives for the whole run, so
/// clearing a sector in combat sticks when the player returns, and it is
/// regenerated, bigger and denser, each time a level is fully cleared.
pub struct GalaxyGrid {
    size: i32,
    /// The square, column-major: sector `(x, y)` is at `x * size + y`.
    sectors: Vec<SectorKind>,
    /// Sectors recorded off the square, each position once.
    outside: Vec<((i32, i32), SectorKind)>,
}

impl View for GalaxyGrid {
    type V = Map<(i32, i32), SectorKind>;

    /// The sectors by position.
    closed spec fn view(&self) -> Map<(i32, i32), SectorKind> {
        Map::new(
            |p: (i32, i32)| in_grid(self.size as int, p) || entries_map(self.outside@).dom().contains(p),
            |p: (i32, i32)|
                if in_grid(self.size as int, p) {
                    self.sectors@[flat_index(self.size as int, p)]
                } else {
                    entries_map(self.outside@)[p]
                },
        )
    }
}

impl GalaxyGrid {
    /// The square is between one and `MAX_GRID_SIZE` sectors a side and
    /// holds one kind per sector; the sectors recorded off it are listed
    /// once each.
    #[verifier::type_invariant]
    spec fn wf(&self) -> bool {
        &&& 1 <= self.size <= MAX_GRID_SIZE
        &&& self.sectors@.len() == self.size * self.size
        &&& keys_unique(self.outside@)
        &&& forall|i: int| 0 <= i < self.outside@.len() ==> !in_grid(self.size as int, #[trigger] self.outside@[i].0)
    }

    /// Sectors per side of the square.
    pub closed spec fn side(&self) -> int {
        self.size as int
    }

    /// A grid of side `size` with every sector of the same kind.
    pub fn new_filled(size: i32, kind: SectorKind) -> (g: GalaxyGrid)
        requires
            1 <= size <= MAX_GRID_SIZE,
        ensures
            g.side() == size,
            forall|p: (i32, i32)| #[trigger] g@.dom().contains(p) <==> in_grid(size as int, p),
            forall|p: (i32, i32)| #[trigger] g@.dom().contains(p) ==> g@[p] == kind,
    {
        assert(size * size <= 100) by (nonlinear_arith)
            requires
                1 <= size <= 10,
        ;
        let n: usize = (size * size) as usize;
        let mut sectors: Vec<SectorKind> = Vec::new();
        let mut i: usize = 0;
        while i < n
            invariant
                i <= n,
                sectors@.len() == i,
                forall|j: int| 0 <= j < i ==> sectors@[j] == kind,
            decreases n - i,
        {
            sectors.push(kind);
            i = i + 1;
        }
        let g = GalaxyGrid { size, sectors, outside: Vec::new() };
        assert(entries_map(g.outside@) =~= Map::empty());
        assert forall|p: (i32, i32)| #[trigger] g@.dom().contains(p) implies g@[p] == kind by {
            lemma_flat_index_bounds(size as int, p);
        }
        g
    }

    /// Sectors per side of the square.
    pub fn size(&self) -> (s: i32)
        ensures
            s == self.side(),
            1 <= s <= MAX_GRID_SIZE,
    {
        proof {
            use_type_invariant(self);
        }
        self.size
    }

    /// Every sector of the square is on record.
    pub fn square_recorded(&self)
        ensures
            1 <= self.side() <= MAX_GRID_SIZE,
            forall|p: (i32, i32)| in_grid(self.side(), p) ==> #[trigger] self@.dom().contains(p),
    {
        proof {
            use_type_invariant(self);
        }
    }

    /// The kind of sector `(x, y)`, or `None` when no sector is on record there.
    pub fn get(&self, x: i32, y: i32) -> (k: Option<SectorKind>)
        ensures
            k == (if self@.dom().contains((x, y)) { Some(self@[(x, y)]) } else { None }),
    {
        proof {
            use_type_invariant(self);
            lemma_entries_map(self.outside@);
        }
        if 0 <= x && x < self.size && 0 <= y && y < self.size {
            proof {
                lemma_flat_index_bounds(self.size as int, (x, y));
            }
            Some(self.sectors[(x * self.size + y) as usize])
        } else {
            match find_entry(&self.outside, x, y) {
                Some(i) => {
                    assert(entries_map(self.outside@).dom().contains(self.outside@[i as int].0));
                    Some(self.outside[i].1)
                },
                None => {
                    assert(!entries_map(self.outside@).dom().contains((x, y)));
                    None
                },
            }
        }
    }

    /// Records `kind` at sector `(x, y)`, wherever it lies; returns the kind
    /// it held before, if any.
    pub fn insert(&mut self, x: i32, y: i32, kind: SectorKind) -> (previous: Option<SectorKind>)
        ensures
            final(self).side() == old(self).side(),
            previous == (if old(self)@.dom().contains((x, y)) { Some(old(self)@[(x, y)]) } else { None }),
            final(self)@ == old(self)@.insert((x, y), kind),
    {
        proof {
            use_type_invariant(&*self);
        }
        let previous = self.get(x, y);
        let ghost before = self@;
        let ghost side = self.size as int;
        if 0 <= x && x < self.size && 0 <= y && y < self.size {
            proof {
                lemma_flat_index_bounds(side, (x, y));
            }
            let i: usize = (x * self.size + y) as usize;
            self.sectors[i] = kind;
            assert forall|q: (i32, i32)| #[trigger] self@.dom().contains(q) implies self@[q]
                == before.insert((x, y), kind)[q] by {
                if in_grid(side, q) {
                    lemma_flat_index_bounds(side, q);
                    if q != (x, y) && flat_index(side, q) == i {
                        lemma_flat_index_injective(side, q, (x, y));
                    }
                }
            }
            assert(self@ =~= before.insert((x, y), kind));
        } else {
            let mut outside: Vec<((i32, i32), SectorKind)> = Vec::new();
            std::mem::swap(&mut outside, &mut self.outside);
            let ghost old_out = outside@;
            proof {
                lemma_entries_map(old_out);
            }
            match find_entry(&outside, x, y) {
                Some(i) => {
                    outside[i] = ((x, y), kind);
                    proof {
                        lemma_entries_map_update(old_out, i as int, kind);
                        assert(outside@ == old_out.update(i as int, (old_out[i as int].0, kind)));
                    }
                },
                None => {
                    outside.push(((x, y), kind));
                    proof {
                        assert(outside@.drop_last() == old_out);
                        assert forall|a: int, b: int|
                            0 <= a < outside@.len() && 0 <= b < outside@.len() && a != b implies outside@[a].0
                            != outside@[b].0 by {
                            if a < old_out.len() && b < old_out.len() {
                                assert(outside@[a] == old_out[a] && outside@[b] == old_out[b]);
                            } else if a < old_out.len() {
                                assert(outside@[a] == old_out[a]);
                            } else if b < old_out.len() {
                                assert(outside@[b] == old_out[b]);
                            }
                        }
                    }
                },
            }
            proof {
                assert forall|j: int| 0 <= j < outside@.len() implies !in_grid(side, #[trigger] outside@[j].0) by {
                    if j < old_out.len() {
                        assert(outside@[j].0 == old_out[j].0);
                    }
                }
            }
            std::mem::swap(&mut outside, &mut self.outside);
            assert forall|q: (i32, i32)| #[trigger] self@.dom().contains(q) <==> before.insert((x, y), kind).dom().contains(q) by {
            }
            assert forall|q: (i32, i32)| #[trigger] self@.dom().contains(q) implies self@[q]
                == before.insert((x, y), kind)[q] by {
            }
            assert(self@ =~= before.insert((x, y), kind));
        }
        previous
    }

}


impl GalaxyGrid {
    /// The galaxy for `level` built from one roll per sector, the rolls
    /// taken column by column (`rolls[x * side + y]` is the roll of sector
    /// `(x, y)`). Each roll gives a sector by `sector_for_roll`, with the
    /// Zerlak chance of the level and the outpost chance; the home sector
    /// `(0, 0)` is then marked cleared.
    pub fn generate_from_rolls(level: u32, rolls: &Vec<u32>) -> (g: GalaxyGrid)
        requires
            level <= MAX_GENERATED_LEVEL,
            rolls@.len() == grid_side_for(level) * grid_side_for(level),
        ensures
            g.side() == grid_side_for(level),
            forall|p: (i32, i32)| #[trigger] g@.dom().contains(p) <==> in_grid(g.side(), p),
            g@[(0, 0)] == SectorKind::Cleared,
            forall|p: (i32, i32)|
                #[trigger] g@.dom().contains(p) && p != (0i32, 0i32) ==> g@[p] == sector_for_roll(
                    rolls@[flat_index(g.side(), p)] as int,
                    zerlak_permille_for(level),
                    FRIENDLY_PERMILLE as int,
                ),
    {
        let size = grid_side(level);
        let zerlak = zerlak_permille(level);
        let n: usize = rolls.len();
        let mut sectors: Vec<SectorKind> = Vec::new();
        let mut i: usize = 0;
        while i < n
            invariant
                i <= n,
                n == rolls@.len(),
                sectors@.len() == i,
                BASE_ZERLAK_PERMILLE <= zerlak <= MAX_ZERLAK_PERMILLE,
                forall|j: int|
                    0 <= j < i ==> sectors@[j] == sector_for_roll(
                        rolls@[j] as int,
                        zerlak as int,
                        FRIENDLY_PERMILLE as int,
                    ),
            decreases n - i,
        {
            let k = kind_for_roll(rolls[i], zerlak, FRIENDLY_PERMILLE);
            sectors.push(k);
            i = i + 1;
        }
        assert(size * size >= 1) by (nonlinear_arith)
            requires
                size >= 1,
        ;
        sectors.set(0, SectorKind::Cleared);
        let g = GalaxyGrid { size, sectors, outside: Vec::new() };
        assert(entries_map(g.outside@) =~= Map::empty());
        assert(flat_index(size as int, (0i32, 0i32)) == 0);
        assert forall|p: (i32, i32)|
            #[trigger] g@.dom().contains(p) && p != (0i32, 0i32) implies g@[p] == sector_for_roll(
                rolls@[flat_index(g.side(), p)] as int,
                zerlak_permille_for(level),
                FRIENDLY_PERMILLE as int,
            ) by {
            lemma_flat_index_bounds(size as int, p);
            if flat_index(size as int, p) == 0 {
                lemma_flat_index_injective(size as int, p, (0i32, 0i32));
            }
        }
        g
    }

    /// A fresh galaxy for the given campaign level: bigger and more
    /// Zerlak-heavy each level, capped so it never outgrows the window.
    /// Every sector gets a roll drawn at random in `0..ROLL_RANGE`; which
    /// rolls come out is left to chance, so this states what holds of every
    /// outcome: the side of the level, the home sector cleared, and each
    /// other sector the kind of some roll in range.
    pub fn generate(level: u32) -> (g: GalaxyGrid)
        requires
            level <= MAX_GENERATED_LEVEL,
        ensures
            generated_for(g@, g.side(), level),
    {
        let size = grid_side(level);
        assert(size * size <= 100) by (nonlinear_arith)
            requires
                1 <= size <= 10,
        ;
        let n: usize = (size * size) as usize;
        let mut rolls: Vec<u32> = Vec::new();
        let mut i: usize = 0;
        while i < n
            invariant
                i <= n,
                rolls@.len() == i,
                forall|j: int| 0 <= j < i ==> rolls@[j] < ROLL_RANGE,
            decreases n - i,
        {
            let r = random_below(ROLL_RANGE as usize);
            rolls.push(r as u32);
            i = i + 1;
        }
        let g = GalaxyGrid::generate_from_rolls(level, &rolls);
        assert forall|p: (i32, i32)|
            #[trigger] g@.dom().contains(p) && p != (0i32, 0i32) implies g@[p]
                != SectorKind::Cleared && exists|roll: int|
                0 <= roll < ROLL_RANGE && g@[p] == #[trigger] sector_for_roll(
                    roll,
                    zerlak_permille_for(level),
                    FRIENDLY_PERMILLE as int,
                ) by {
            lemma_flat_index_bounds(g.side(), p);
            let roll = rolls@[flat_index(g.side(), p)] as int;
            assert(g@[p] == sector_for_roll(roll, zerlak_permille_for(level), FRIENDLY_PERMILLE as int));
        }
        g
    }

    /// Whether any sector is still Zerlak-held.
    pub fn has_zerlak(&self) -> (b: bool)
        ensures
            b == holds_zerlak(self@),
    {
        let cells = self.zerlak_cells();
        if cells.len() > 0 {
            assert(cells@.contains(cells@[0]));
            true
        } else {
            assert forall|p: (i32, i32)| #[trigger] self@.dom().contains(p) implies self@[p]
                != SectorKind::Zerlak by {
                if self@[p] == SectorKind::Zerlak {
                    assert(cells@.contains(p));
                }
            }
            false
        }
    }

    /// Every Zerlak-held sector, each once.
    pub fn zerlak_cells(&self) -> (cells: Vec<(i32, i32)>)
        ensures
            cells@.no_duplicates(),
            forall|p: (i32, i32)|
                #[trigger] cells@.contains(p) <==> (self@.dom().contains(p) && self@[p]
                    == SectorKind::Zerlak),
    {
        proof {
            use_type_invariant(self);
        }
        let n = self.sectors.len();
        let size = self.size;
        let ghost side = self.size as int;
        let mut cells: Vec<(i32, i32)> = Vec::new();
        let mut i: usize = 0;
        while i < n
            invariant
                1 <= side <= MAX_GRID_SIZE,
                side == self.size,
                size == self.size,
                n == self.sectors@.len(),
                n == side * side,
                i <= n,
                cells@.no_duplicates(),
                forall|k: int|
                    0 <= k < cells@.len() ==> in_grid(side, #[trigger] cells@[k]) && flat_index(
                        side,
                        cells@[k],
                    ) < i && self.sectors@[flat_index(side, cells@[k])] == SectorKind::Zerlak,
                forall|j: int|
                    0 <= j < i && self.sectors@[j] == SectorKind::Zerlak ==> cells@.contains(
                        #[trigger] position_of(side, j),
                    ),
            decreases n - i,
        {
            if self.sectors[i] == SectorKind::Zerlak {
                proof {
                    lemma_position_of(side, i as int);
                }
                let x: i32 = (i / (size as usize)) as i32;
                let y: i32 = (i % (size as usize)) as i32;
                assert((x, y) == position_of(side, i as int));
                let ghost before = cells@;
                cells.push((x, y));
                proof {
                    assert forall|a: int, b: int|
                        0 <= a < cells@.len() && 0 <= b < cells@.len() && a != b implies cells@[a]
                        != cells@[b] by {
                        if a == before.len() as int {
                            assert(in_grid(side, before[b]));
                        } else if b == before.len() as int {
                            assert(in_grid(side, before[a]));
                        }
                    }
                    assert forall|j: int|
                        0 <= j < i + 1 && self.sectors@[j] == SectorKind::Zerlak implies cells@.contains(
                        #[trigger] position_of(side, j),
                    ) by {
                        if j < i {
                            assert(before.contains(position_of(side, j)));
                            let k = choose|k: int| 0 <= k < before.len() && before[k] == position_of(side, j);
                            assert(cells@[k] == position_of(side, j));
                        } else {
                            assert(cells@[before.len() as int] == position_of(side, j));
                        }
                    }
                    assert forall|k: int|
                        0 <= k < cells@.len() implies in_grid(side, #[trigger] cells@[k]) && flat_index(
                            side,
                            cells@[k],
                        ) < i + 1 && self.sectors@[flat_index(side, cells@[k])] == SectorKind::Zerlak by {
                        if k < before.len() {
                            assert(cells@[k] == before[k]);
                            assert(in_grid(side, before[k]));
                        } else {
                            assert(cells@[k] == position_of(side, i as int));
                        }
                    }
                }
            }
            i = i + 1;
        }
        assert forall|p: (i32, i32)|
            #[trigger] cells@.contains(p) <==> (in_grid(side, p) && self@[p] == SectorKind::Zerlak) by {
            if cells@.contains(p) {
                let k = choose|k: int| 0 <= k < cells@.len() && cells@[k] == p;
                assert(in_grid(side, cells@[k]));
            }
            if in_grid(side, p) && self@[p] == SectorKind::Zerlak {
                lemma_flat_index_bounds(side, p);
                lemma_flat_index_position(side, p);
                assert(cells@.contains(position_of(side, flat_index(side, p))));
            }
        }
        proof {
            lemma_entries_map(self.outside@);
        }
        let m = self.outside.len();
        let mut j: usize = 0;
        while j < m
            invariant
                1 <= side <= MAX_GRID_SIZE,
                side == self.size,
                m == self.outside@.len(),
                j <= m,
                keys_unique(self.outside@),
                forall|a: int| 0 <= a < self.outside@.len() ==> !in_grid(side, #[trigger] self.outside@[a].0),
                cells@.no_duplicates(),
                forall|p: (i32, i32)|
                    #[trigger] cells@.contains(p) <==> ((in_grid(side, p) && self@[p] == SectorKind::Zerlak)
                        || exists|a: int| 0 <= a < j && #[trigger] self.outside@[a] == (p, SectorKind::Zerlak)),
            decreases m - j,
        {
            let (p, kind) = self.outside[j];
            if kind == SectorKind::Zerlak {
                let ghost before = cells@;
                proof {
                    assert(!in_grid(side, self.outside@[j as int].0));
                    if before.contains(p) {
                        let a = choose|a: int| 0 <= a < j && #[trigger] self.outside@[a] == (p, SectorKind::Zerlak);
                        assert(self.outside@[a].0 == self.outside@[j as int].0);
                    }
                }
                cells.push(p);
                proof {
                    assert forall|a: int, b: int|
                        0 <= a < cells@.len() && 0 <= b < cells@.len() && a != b implies cells@[a] != cells@[b] by {
                        if a < before.len() && b < before.len() {
                            assert(cells@[a] == before[a] && cells@[b] == before[b]);
                        } else if a < before.len() {
                            assert(before.contains(cells@[a]));
                        } else if b < before.len() {
                            assert(before.contains(cells@[b]));
                        }
                    }
                    assert forall|q: (i32, i32)|
                        #[trigger] cells@.contains(q) <==> ((in_grid(side, q) && self@[q] == SectorKind::Zerlak)
                            || exists|a: int| 0 <= a < j + 1 && #[trigger] self.outside@[a] == (q, SectorKind::Zerlak)) by {
                        if cells@.contains(q) && q != p {
                            let k = choose|k: int| 0 <= k < cells@.len() && cells@[k] == q;
                            assert(before[k] == q);
                            assert(before.contains(q));
                        }
                        if q == p {
                            assert(cells@[cells@.len() - 1] == q);
                            assert(self.outside@[j as int] == (q, SectorKind::Zerlak));
                        }
                        if before.contains(q) {
                            let k = choose|k: int| 0 <= k < before.len() && before[k] == q;
                            assert(cells@[k] == q);
                        }
                        if exists|a: int| 0 <= a < j + 1 && #[trigger] self.outside@[a] == (q, SectorKind::Zerlak) {
                            let a = choose|a: int| 0 <= a < j + 1 && #[trigger] self.outside@[a] == (q, SectorKind::Zerlak);
                            if a < j {
                                assert(before.contains(q));
                                let k = choose|k: int| 0 <= k < before.len() && before[k] == q;
                                assert(cells@[k] == q);
                            }
                        }
                    }
                }
            } else {
                proof {
                    assert forall|q: (i32, i32)|
                        #[trigger] cells@.contains(q) <==> ((in_grid(side, q) && self@[q] == SectorKind::Zerlak)
                            || exists|a: int| 0 <= a < j + 1 && #[trigger] self.outside@[a] == (q, SectorKind::Zerlak)) by {
                        if exists|a: int| 0 <= a < j + 1 && #[trigger] self.outside@[a] == (q, SectorKind::Zerlak) {
                            let a = choose|a: int| 0 <= a < j + 1 && #[trigger] self.outside@[a] == (q, SectorKind::Zerlak);
                            assert(a != j);
                        }
                    }
                }
            }
            j = j + 1;
        }
        assert forall|p: (i32, i32)|
            #[trigger] cells@.contains(p) <==> (self@.dom().contains(p) && self@[p] == SectorKind::Zerlak) by {
            if !in_grid(side, p) {
                if exists|a: int| 0 <= a < m && #[trigger] self.outside@[a] == (p, SectorKind::Zerlak) {
                    let a = choose|a: int| 0 <= a < m && #[trigger] self.outside@[a] == (p, SectorKind::Zerlak);
                    assert(entries_map(self.outside@).dom().contains(self.outside@[a].0));
                }
                if self@.dom().contains(p) && self@[p] == SectorKind::Zerlak {
                    assert(entries_map(self.outside@).dom().contains(p));
                    let a = choose|a: int| 0 <= a < self.outside@.len() && self.outside@[a].0 == p;
                    assert(entries_map(self.outside@)[self.outside@[a].0] == self.outside@[a].1);
                    assert(self.outside@[a] == (p, SectorKind::Zerlak));
                }
            }
        }
        cells
    }

    /// Every sector on record with its kind, each position once.
    pub fn sectors(&self) -> (all: Vec<((i32, i32), SectorKind)>)
        ensures
            keys_unique(all@),
            forall|p: (i32, i32), k: SectorKind|
                #[trigger] all@.contains((p, k)) <==> (self@.dom().contains(p) && self@[p] == k),
    {
        proof {
            use_type_invariant(self);
            lemma_entries_map(self.outside@);
        }
        let size = self.size;
        let mut all: Vec<((i32, i32), SectorKind)> = Vec::new();
        let mut x: i32 = 0;
        while x < size
            invariant
                1 <= size <= MAX_GRID_SIZE,
                size == self.side(),
                0 <= x <= size,
                keys_unique(all@),
                forall|i: int| 0 <= i < all@.len() ==> in_grid(size as int, #[trigger] all@[i].0) && all@[i].0.0 < x,
                forall|p: (i32, i32), k: SectorKind|
                    #[trigger] all@.contains((p, k)) <==> (in_grid(size as int, p) && p.0 < x && self@[p] == k),
            decreases size - x,
        {
            let mut y: i32 = 0;
            while y < size
                invariant
                    1 <= size <= MAX_GRID_SIZE,
                    size == self.side(),
                    0 <= x < size,
                    0 <= y <= size,
                    keys_unique(all@),
                    forall|i: int| 0 <= i < all@.len() ==> in_grid(size as int, #[trigger] all@[i].0) && (all@[i].0.0 < x
                        || (all@[i].0.0 == x && all@[i].0.1 < y)),
                    forall|p: (i32, i32), k: SectorKind|
                        #[trigger] all@.contains((p, k)) <==> (in_grid(size as int, p) && (p.0 < x || (p.0 == x
                            && p.1 < y)) && self@[p] == k),
                decreases size - y,
            {
                let kind = match self.get(x, y) {
                    Some(k) => k,
                    None => SectorKind::Empty,
                };
                let ghost before = all@;
                all.push(((x, y), kind));
                assert forall|i: int| 0 <= i < all@.len() implies in_grid(size as int, #[trigger] all@[i].0) && (all@[i].0.0 < x
                    || (all@[i].0.0 == x && all@[i].0.1 < y + 1)) by {
                    if i < before.len() {
                        assert(all@[i] == before[i]);
                        assert(in_grid(size as int, before[i].0));
                    }
                }
                assert forall|a: int, b: int|
                    0 <= a < all@.len() && 0 <= b < all@.len() && a != b implies all@[a].0 != all@[b].0 by {
                    if a < before.len() && b < before.len() {
                        assert(all@[a] == before[a] && all@[b] == before[b]);
                    } else if a < before.len() {
                        assert(all@[a] == before[a]);
                        assert(in_grid(size as int, before[a].0));
                    } else if b < before.len() {
                        assert(all@[b] == before[b]);
                        assert(in_grid(size as int, before[b].0));
                    }
                }
                assert forall|p: (i32, i32), k: SectorKind|
                    #[trigger] all@.contains((p, k)) <==> (in_grid(size as int, p) && (p.0 < x || (p.0 == x
                        && p.1 < y + 1)) && self@[p] == k) by {
                    if all@.contains((p, k)) && (p, k) != ((x, y), kind) {
                        let i = choose|i: int| 0 <= i < all@.len() && all@[i] == (p, k);
                        assert(before[i] == (p, k));
                        assert(before.contains((p, k)));
                    }
                    if before.contains((p, k)) {
                        let i = choose|i: int| 0 <= i < before.len() && before[i] == (p, k);
                        assert(all@[i] == (p, k));
                    }
                    if (p, k) == ((x, y), kind) {
                        assert(all@[all@.len() - 1] == (p, k));
                    }
                }
                y = y + 1;
            }
            x = x + 1;
        }
        let m = self.outside.len();
        let ghost sq = all@.len() as int;
        let mut j: usize = 0;
        while j < m
            invariant
                1 <= size <= MAX_GRID_SIZE,
                size == self.side(),
                m == self.outside@.len(),
                j <= m,
                0 <= sq,
                all@.len() == sq + j,
                keys_unique(all@),
                keys_unique(self.outside@),
                forall|a: int| 0 <= a < self.outside@.len() ==> !in_grid(size as int, #[trigger] self.outside@[a].0),
                forall|i: int| 0 <= i < sq ==> in_grid(size as int, #[trigger] all@[i].0),
                forall|i: int| sq <= i < all@.len() ==> #[trigger] all@[i] == self.outside@[i - sq],
                forall|p: (i32, i32), k: SectorKind|
                    #[trigger] all@.contains((p, k)) <==> ((in_grid(size as int, p) && self@[p] == k)
                        || exists|a: int| 0 <= a < j && #[trigger] self.outside@[a] == (p, k)),
            decreases m - j,
        {
            let e = self.outside[j];
            let ghost before = all@;
            all.push(e);
            assert(all@[all@.len() - 1] == self.outside@[j as int]);
            assert forall|i: int| sq <= i < all@.len() implies #[trigger] all@[i] == self.outside@[i - sq] by {
                if i < before.len() {
                    assert(all@[i] == before[i]);
                }
            }
            assert forall|i: int| 0 <= i < sq implies in_grid(size as int, #[trigger] all@[i].0) by {
                assert(all@[i] == before[i]);
            }
            assert forall|a: int, b: int|
                0 <= a < all@.len() && 0 <= b < all@.len() && a != b implies all@[a].0 != all@[b].0 by {
                if a < sq && b < sq {
                    assert(all@[a] == before[a] && all@[b] == before[b]);
                } else if a < sq {
                    assert(in_grid(size as int, all@[a].0));
                    assert(all@[b] == self.outside@[b - sq]);
                    assert(!in_grid(size as int, self.outside@[b - sq].0));
                } else if b < sq {
                    assert(in_grid(size as int, all@[b].0));
                    assert(all@[a] == self.outside@[a - sq]);
                    assert(!in_grid(size as int, self.outside@[a - sq].0));
                } else {
                    assert(all@[a] == self.outside@[a - sq]);
                    assert(all@[b] == self.outside@[b - sq]);
                }
            }
            assert forall|p: (i32, i32), k: SectorKind|
                #[trigger] all@.contains((p, k)) <==> ((in_grid(size as int, p) && self@[p] == k)
                    || exists|a: int| 0 <= a < j + 1 && #[trigger] self.outside@[a] == (p, k)) by {
                if all@.contains((p, k)) && (p, k) != e {
                    let i = choose|i: int| 0 <= i < all@.len() && all@[i] == (p, k);
                    assert(before[i] == (p, k));
                    assert(before.contains((p, k)));
                }
                if before.contains((p, k)) {
                    let i = choose|i: int| 0 <= i < before.len() && before[i] == (p, k);
                    assert(all@[i] == (p, k));
                }
                if (p, k) == e {
                    assert(all@[all@.len() - 1] == (p, k));
                    assert(self.outside@[j as int] == (p, k));
                }
                if exists|a: int| 0 <= a < j + 1 && #[trigger] self.outside@[a] == (p, k) {
                    let a = choose|a: int| 0 <= a < j + 1 && #[trigger] self.outside@[a] == (p, k);
                    if a < j {
                        assert(before.contains((p, k)));
                        let i = choose|i: int| 0 <= i < before.len() && before[i] == (p, k);
                        assert(all@[i] == (p, k));
                    }
                }
            }
            j = j + 1;
        }
        assert forall|p: (i32, i32), k: SectorKind|
            #[trigger] all@.contains((p, k)) <==> (self@.dom().contains(p) && self@[p] == k) by {
            if !in_grid(size as int, p) {
                if exists|a: int| 0 <= a < m && #[trigger] self.outside@[a] == (p, k) {
                    let a = choose|a: int| 0 <= a < m && #[trigger] self.outside@[a] == (p, k);
                    assert(entries_map(self.outside@).dom().contains(self.outside@[a].0));
                }
                if self@.dom().contains(p) && self@[p] == k {
                    assert(entries_map(self.outside@).dom().contains(p));
                    let a = choose|a: int| 0 <= a < self.outside@.len() && self.outside@[a].0 == p;
                    assert(entries_map(self.outside@)[self.outside@[a].0] == self.outside@[a].1);
                    assert(self.outside@[a] == (p, k));
                }
            } else if exists|a: int| 0 <= a < m && #[trigger] self.outside@[a] == (p, k) {
                let a = choose|a: int| 0 <= a < m && #[trigger] self.outside@[a] == (p, k);
                assert(!in_grid(size as int, self.outside@[a].0));
            }
        }
        all
    }
}


/// What every galaxy generated for `level` looks like, whatever the rolls:
/// the side of the level, the home sector `(0, 0)` cleared, and every other
/// sector the kind that some roll in `0..ROLL_RANGE` gives.
pub open spec fn generated_for(m: Map<(i32, i32), SectorKind>, side: int, level: u32) -> bool {
    &&& side == grid_side_for(level)
    &&& forall|p: (i32, i32)| #[trigger] m.dom().contains(p) <==> in_grid(side, p)
    &&& m[(0, 0)] == SectorKind::Cleared
    &&& forall|p: (i32, i32)|
        #[trigger] m.dom().contains(p) && p != (0i32, 0i32) ==> m[p] != SectorKind::Cleared && exists|
            roll: int,
        |
            0 <= roll < ROLL_RANGE && m[p] == #[trigger] sector_for_roll(
                roll,
                zerlak_permille_for(level),
                FRIENDLY_PERMILLE as int,
            )
}

/// `[p]` when sector `p` is on the grid and Zerlak forces can spread into it.
pub open spec fn spread_target_at(m: Map<(i32, i32), SectorKind>, p: (i32, i32)) -> Seq<(i32, i32)> {
    if m.dom().contains(p) && is_spreadable(m[p]) {
        seq![p]
    } else {
        seq![]
    }
}

/// The sectors that a Zerlak sector at `o` can spread into: of its left,
/// right, lower and upper neighbours, in that order, those on the grid that
/// are empty or cleared.
pub open spec fn spread_targets(m: Map<(i32, i32), SectorKind>, o: (i32, i32)) -> Seq<(i32, i32)> {
    spread_target_at(m, ((o.0 - 1) as i32, o.1)) + spread_target_at(m, ((o.0 + 1) as i32, o.1))
        + spread_target_at(m, (o.0, (o.1 - 1) as i32)) + spread_target_at(m, (o.0, (o.1 + 1) as i32))
}

/// `after` is `before` with the Zerlak sector `o` spread into its neighbour `t`.
pub open spec fn is_spread(
    before: Map<(i32, i32), SectorKind>,
    after: Map<(i32, i32), SectorKind>,
    o: (i32, i32),
    t: (i32, i32),
) -> bool {
    &&& before.dom().contains(o)
    &&& before[o] == SectorKind::Zerlak
    &&& is_neighbor(o, t)
    &&& before.dom().contains(t)
    &&& is_spreadable(before[t])
    &&& after == before.insert(t, SectorKind::Zerlak)
}

/// Every spread target of `o` is a neighbour of `o` on the grid that Zerlak
/// forces can take, and there are at most four of them, all different.
pub proof fn lemma_spread_targets(m: Map<(i32, i32), SectorKind>, o: (i32, i32))
    requires
        inner_position(o),
    ensures
        spread_targets(m, o).len() <= 4,
        spread_targets(m, o).no_duplicates(),
        forall|k: int|
            0 <= k < spread_targets(m, o).len() ==> is_neighbor(o, #[trigger] spread_targets(m, o)[k])
                && m.dom().contains(spread_targets(m, o)[k]) && is_spreadable(m[spread_targets(m, o)[k]]),
{
    let l = ((o.0 - 1) as i32, o.1);
    let r = ((o.0 + 1) as i32, o.1);
    let d = (o.0, (o.1 - 1) as i32);
    let u = (o.0, (o.1 + 1) as i32);
    let s = spread_targets(m, o);
    let a = spread_target_at(m, l);
    let b = spread_target_at(m, r);
    let c = spread_target_at(m, d);
    let e = spread_target_at(m, u);
    assert(s == a + b + c + e);
    assert forall|k: int| 0 <= k < s.len() implies is_neighbor(o, #[trigger] s[k]) && m.dom().contains(s[k])
        && is_spreadable(m[s[k]]) by {
        if k < a.len() {
            assert(s[k] == a[k]);
        } else if k < a.len() + b.len() {
            assert(s[k] == b[k - a.len()]);
        } else if k < a.len() + b.len() + c.len() {
            assert(s[k] == c[k - a.len() - b.len()]);
        } else {
            assert(s[k] == e[k - a.len() - b.len() - c.len()]);
        }
    }
    assert forall|i: int, j: int| 0 <= i < s.len() && 0 <= j < s.len() && i != j implies s[i] != s[j] by {
        let pi = if i < a.len() { 0int } else if i < a.len() + b.len() { 1int } else if i < a.len() + b.len() + c.len() { 2int } else { 3int };
        let pj = if j < a.len() { 0int } else if j < a.len() + b.len() { 1int } else if j < a.len() + b.len() + c.len() { 2int } else { 3int };
        let cand = seq![l, r, d, u];
        if i < a.len() { assert(s[i] == l); } else if i < a.len() + b.len() { assert(s[i] == r); } else if i < a.len() + b.len() + c.len() { assert(s[i] == d); } else { assert(s[i] == u); }
        if j < a.len() { assert(s[j] == l); } else if j < a.len() + b.len() { assert(s[j] == r); } else if j < a.len() + b.len() + c.len() { assert(s[j] == d); } else { assert(s[j] == u); }
        assert(pi != pj);
        assert(cand[pi] == s[i] && cand[pj] == s[j]);
    }
}

impl GalaxyGrid {
    fn push_if_spreadable(&self, targets: &mut Vec<(i32, i32)>, p: (i32, i32))
        ensures
            final(targets)@ == old(targets)@ + spread_target_at(self@, p),
    {
        match self.get(p.0, p.1) {
            Some(SectorKind::Empty) | Some(SectorKind::Cleared) => {
                targets.push(p);
            },
            _ => {},
        }
        assert(targets@ =~= old(targets)@ + spread_target_at(self@, p));
    }

    /// The sectors the Zerlak sector at `origin` can spread into: its left,
    /// right, lower and upper neighbours, in that order, keeping those on
    /// record that are empty or cleared.
    pub fn spread_candidates(&self, origin: (i32, i32)) -> (targets: Vec<(i32, i32)>)
        requires
            inner_position(origin),
        ensures
            targets@ == spread_targets(self@, origin),
    {
        let (x, y) = origin;
        let mut targets: Vec<(i32, i32)> = Vec::new();
        self.push_if_spreadable(&mut targets, (x - 1, y));
        self.push_if_spreadable(&mut targets, (x + 1, y));
        self.push_if_spreadable(&mut targets, (x, y - 1));
        self.push_if_spreadable(&mut targets, (x, y + 1));
        assert(targets@ =~= spread_targets(self@, origin));
        targets
    }

    /// One spread step with its draws given: the Zerlak sector at `origin`
    /// takes its spread target number `pick` (counted in the order of
    /// `spread_targets`).
    pub fn spread_from(&mut self, origin: (i32, i32), pick: usize)
        requires
            old(self)@.dom().contains(origin),
            old(self)@[origin] == SectorKind::Zerlak,
            inner_position(origin),
            pick < spread_targets(old(self)@, origin).len(),
        ensures
            final(self).side() == old(self).side(),
            final(self)@ == old(self)@.insert(spread_targets(old(self)@, origin)[pick as int], SectorKind::Zerlak),
            is_spread(old(self)@, final(self)@, origin, spread_targets(old(self)@, origin)[pick as int]),
    {
        let ghost before = self@;
        let targets = self.spread_candidates(origin);
        let target = targets[pick];
        proof {
            lemma_spread_targets(before, origin);
        }
        self.insert(target.0, target.1, SectorKind::Zerlak);
    }

    /// A Zerlak-held sector picked at random, every one of them as likely;
    /// `None` when none is left. Which one comes out is left to chance.
    pub fn pick_zerlak(&self) -> (picked: Option<(i32, i32)>)
        ensures
            picked is None <==> !holds_zerlak(self@),
            picked matches Some(p) ==> self@.dom().contains(p) && self@[p] == SectorKind::Zerlak,
    {
        let cells = self.zerlak_cells();
        if cells.len() == 0 {
            assert forall|p: (i32, i32)| #[trigger] self@.dom().contains(p) implies self@[p]
                != SectorKind::Zerlak by {
                if self@[p] == SectorKind::Zerlak {
                    assert(cells@.contains(p));
                }
            }
            None
        } else {
            let i = random_below(cells.len());
            let p = cells[i];
            assert(cells@.contains(p));
            Some(p)
        }
    }

    /// Zerlak expansion: one Zerlak sector, picked at random, takes one of
    /// its empty or cleared neighbours, also picked at random (the step
    /// itself is `spread_from`). When the picked sector has no such
    /// neighbour, or no Zerlak sector is left, nothing changes; when every
    /// Zerlak sector has such a neighbour, the spread always happens. The
    /// picks are left to chance. Every Zerlak sector must have neighbours
    /// within `i32`: the neighbours of the picked one are computed there.
    pub fn spread_zerlaks(&mut self)
        requires
            zerlak_inner(old(self)@),
        ensures
            final(self).side() == old(self).side(),
            !holds_zerlak(old(self)@) ==> final(self)@ == old(self)@,
            final(self)@ == old(self)@ || exists|o: (i32, i32), t: (i32, i32)|
                #[trigger] is_spread(old(self)@, final(self)@, o, t),
            holds_zerlak(old(self)@) && (forall|o: (i32, i32)|
                #[trigger] old(self)@.dom().contains(o) && old(self)@[o] == SectorKind::Zerlak
                    ==> spread_targets(old(self)@, o).len() > 0) ==> exists|o: (i32, i32), t: (i32, i32)|
                #[trigger] is_spread(old(self)@, final(self)@, o, t),
    {
        let cells = self.zerlak_cells();
        if cells.len() == 0 {
            assert forall|p: (i32, i32)| #[trigger] self@.dom().contains(p) implies self@[p]
                != SectorKind::Zerlak by {
                if self@[p] == SectorKind::Zerlak {
                    assert(cells@.contains(p));
                }
            }
            return;
        }
        let origin = cells[random_below(cells.len())];
        assert(cells@.contains(origin));
        let targets = self.spread_candidates(origin);
        if targets.len() > 0 {
            let pick = random_below(targets.len());
            self.spread_from(origin, pick);
        }
    }
}


impl Default for GalaxyGrid {
    /// The level-one galaxy.
    fn default() -> (g: Self)
        ensures
            generated_for(g@, g.side(), 1),
    {
        GalaxyGrid::generate(1)
    }
}

} // verus!
