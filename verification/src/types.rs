//! Core vocabulary: seats, card identities, reaches, resonances, card kinds and
//! the board geometry every rule reads (tile ⇄ coordinate, adjacency, the rim).
use vstd::prelude::*;

verus! {

/// The 1v1 board width (5×5).
pub const BOARD_W: i8 = 5;

/// The 2v2 board width (6×6).
pub const BOARD_W_2V2: i8 = 6;

/// Tile count of the 1v1 board.
pub const BOARD_TILES: usize = 25;

/// Tile count of the 2v2 board.
pub const BOARD_TILES_2V2: usize = 36;

/// A side of the table (a team in 2v2).
#[derive(Debug, Clone, Copy, PartialEq, Eq, Structural)]
pub enum Seat {
    A,
    B,
}

impl Seat {
    pub open spec fn spec_other(self) -> Seat {
        match self {
            Seat::A => Seat::B,
            Seat::B => Seat::A,
        }
    }

    /// The opposing side.
    #[verifier::when_used_as_spec(spec_other)]
    pub fn other(self) -> (r: Seat)
        ensures
            r == self.spec_other(),
    {
        match self {
            Seat::A => Seat::B,
            Seat::B => Seat::A,
        }
    }

    pub open spec fn spec_index(self) -> int {
        match self {
            Seat::A => 0,
            Seat::B => 1,
        }
    }

    /// The seat as an index into per-seat arrays (A = 0, B = 1).
    pub fn index(self) -> (r: usize)
        ensures
            r == self.spec_index(),
            r < 2,
    {
        match self {
            Seat::A => 0,
            Seat::B => 1,
        }
    }

    pub open spec fn spec_forward(self) -> i8 {
        match self {
            Seat::A => -1i8,
            Seat::B => 1i8,
        }
    }

    /// The row direction this seat's spirits face: A plays up the board (toward row 0),
    /// B plays down it.
    #[verifier::when_used_as_spec(spec_forward)]
    pub fn forward(self) -> (r: i8)
        ensures
            r == self.spec_forward(),
    {
        match self {
            Seat::A => -1,
            Seat::B => 1,
        }
    }

    pub open spec fn spec_home_rows_w(self, w: i8) -> Seq<i8> {
        match self {
            Seat::A => seq![(w - 2) as i8, (w - 1) as i8],
            Seat::B => seq![0i8, 1i8],
        }
    }

    /// The two rows nearest this seat's edge of a `w`-wide board.
    pub fn home_rows_w(self, w: i8) -> (r: Vec<i8>)
        requires
            2 <= w <= 16,
        ensures
            r@ == self.spec_home_rows_w(w),
    {
        match self {
            Seat::A => vec![w - 2, w - 1],
            Seat::B => vec![0, 1],
        }
    }
}

/// A player's slot: A1/B1 in 1v1; A1, B1, A2, B2 in 2v2.
#[derive(Debug, Clone, Copy, PartialEq, Eq, Structural)]
pub enum SeatSlot {
    A1,
    B1,
    A2,
    B2,
}

impl SeatSlot {
    pub open spec fn spec_team(self) -> Seat {
        match self {
            SeatSlot::A1 | SeatSlot::A2 => Seat::A,
            SeatSlot::B1 | SeatSlot::B2 => Seat::B,
        }
    }

    /// The team this slot plays for.
    #[verifier::when_used_as_spec(spec_team)]
    pub fn team(self) -> (r: Seat)
        ensures
            r == self.spec_team(),
    {
        match self {
            SeatSlot::A1 | SeatSlot::A2 => Seat::A,
            SeatSlot::B1 | SeatSlot::B2 => Seat::B,
        }
    }

    /// The slot after this one in the 2v2 turn cycle A1 → B1 → A2 → B2 → A1.
    pub open spec fn spec_next_2v2(self) -> SeatSlot {
        match self {
            SeatSlot::A1 => SeatSlot::B1,
            SeatSlot::B1 => SeatSlot::A2,
            SeatSlot::A2 => SeatSlot::B2,
            SeatSlot::B2 => SeatSlot::A1,
        }
    }

    #[verifier::when_used_as_spec(spec_next_2v2)]
    pub fn next_2v2(self) -> (r: SeatSlot)
        ensures
            r == self.spec_next_2v2(),
    {
        match self {
            SeatSlot::A1 => SeatSlot::B1,
            SeatSlot::B1 => SeatSlot::A2,
            SeatSlot::A2 => SeatSlot::B2,
            SeatSlot::B2 => SeatSlot::A1,
        }
    }
}

/// The two factions a seat may play.
#[derive(Debug, Clone, Copy, PartialEq, Eq, Structural)]
pub enum Faction {
    Lorekeeper,
    Solace,
}

/// A stable card identity (dense in the canon catalog).
#[derive(Debug, Clone, Copy, PartialEq, Eq, PartialOrd, Ord, Hash, Structural)]
pub struct CardId(pub u16);

/// The engage pattern a spirit projects from its tile.
#[derive(Debug, Clone, Copy, PartialEq, Eq, Structural)]
pub enum Reach {
    /// The four orthogonal neighbours.
    Cross,
    /// The four diagonal neighbours.
    Slant,
    /// Straight ahead, one and two tiles.
    Lance,
}

impl Reach {
    /// The reach pattern as `(dx, dy)` offsets, `dy` measured in the facing direction.
    pub open spec fn spec_offsets(self) -> Seq<(i8, i8)> {
        match self {
            Reach::Cross => seq![(0i8, 1i8), (1i8, 0i8), (-1i8, 0i8), (0i8, -1i8)],
            Reach::Slant => seq![(1i8, 1i8), (-1i8, 1i8), (1i8, -1i8), (-1i8, -1i8)],
            Reach::Lance => seq![(0i8, 1i8), (0i8, 2i8)],
        }
    }

    pub fn offsets(self) -> (r: Vec<(i8, i8)>)
        ensures
            r@ == self.spec_offsets(),
            r@.len() <= 4,
            forall|i: int| 0 <= i < r@.len() ==> -2 <= #[trigger] r@[i].0 <= 2 && -2 <= r@[i].1 <= 2,
    {
        match self {
            Reach::Cross => vec![(0, 1), (1, 0), (-1, 0), (0, -1)],
            Reach::Slant => vec![(1, 1), (-1, 1), (1, -1), (-1, -1)],
            Reach::Lance => vec![(0, 1), (0, 2)],
        }
    }
}

/// The six Resonances. Each holds an Edge over the next one on the wheel.
#[derive(Debug, Clone, Copy, PartialEq, Eq, Structural)]
pub enum Resonance {
    Wonder,
    Fear,
    Sorrow,
    Harmony,
    Fury,
    Resolve,
}

impl Resonance {
    pub open spec fn spec_wheel_index(self) -> int {
        match self {
            Resonance::Wonder => 0,
            Resonance::Fear => 1,
            Resonance::Sorrow => 2,
            Resonance::Harmony => 3,
            Resonance::Fury => 4,
            Resonance::Resolve => 5,
        }
    }

    /// `self` has the Edge over `other`: `other` is the next Resonance on the wheel.
    pub open spec fn spec_edge_over(self, other: Resonance) -> bool {
        other.spec_wheel_index() == (self.spec_wheel_index() + 1) % 6
    }

    #[verifier::when_used_as_spec(spec_edge_over)]
    pub fn edge_over(self, other: Resonance) -> (r: bool)
        ensures
            r == self.spec_edge_over(other),
    {
        match (self, other) {
            (Resonance::Wonder, Resonance::Fear) => true,
            (Resonance::Fear, Resonance::Sorrow) => true,
            (Resonance::Sorrow, Resonance::Harmony) => true,
            (Resonance::Harmony, Resonance::Fury) => true,
            (Resonance::Fury, Resonance::Resolve) => true,
            (Resonance::Resolve, Resonance::Wonder) => true,
            _ => false,
        }
    }
}

/// What a card is.
#[derive(Debug, Clone, Copy, PartialEq, Eq, Structural)]
pub enum CardKind {
    Spirit,
    Ritual,
    Bond,
    Landmark,
    Fabrication,
    Evolution,
    Foundling,
    Kindred,
    Unwriting,
    Unwritten,
}

impl CardKind {
    /// The Solace's creatures, which hold no ground of their own.
    pub open spec fn spec_is_antagonist_creature(self) -> bool {
        self == CardKind::Unwritten
    }

    #[verifier::when_used_as_spec(spec_is_antagonist_creature)]
    pub fn is_antagonist_creature(self) -> (r: bool)
        ensures
            r == self.spec_is_antagonist_creature(),
    {
        match self {
            CardKind::Unwritten => true,
            _ => false,
        }
    }

    /// Which kinds a faction may build into its deck: Lorekeepers field spirits and their
    /// spellbook; the Solace fields the Unwritten and Unwritings; both may hold evolution
    /// forms. Strays (Foundlings) and summoned Kindred are never deck cards.
    pub open spec fn spec_deck_playable_for(self, faction: Faction) -> bool {
        match self {
            CardKind::Evolution => true,
            CardKind::Spirit | CardKind::Ritual | CardKind::Bond | CardKind::Landmark
            | CardKind::Fabrication => faction == Faction::Lorekeeper,
            CardKind::Unwriting | CardKind::Unwritten => faction == Faction::Solace,
            CardKind::Foundling | CardKind::Kindred => false,
        }
    }

    #[verifier::when_used_as_spec(spec_deck_playable_for)]
    pub fn deck_playable_for(self, faction: Faction) -> (r: bool)
        ensures
            r == self.spec_deck_playable_for(faction),
    {
        match self {
            CardKind::Evolution => true,
            CardKind::Spirit | CardKind::Ritual | CardKind::Bond | CardKind::Landmark
            | CardKind::Fabrication => match faction {
                Faction::Lorekeeper => true,
                Faction::Solace => false,
            },
            CardKind::Unwriting | CardKind::Unwritten => match faction {
                Faction::Lorekeeper => false,
                Faction::Solace => true,
            },
            CardKind::Foundling | CardKind::Kindred => false,
        }
    }
}

/// A card definition: identity, printed numbers, keywords, and its evolution line.
#[derive(Debug, Clone)]
pub struct CardDef {
    pub id: CardId,
    /// The frozen identity effects are keyed by (empty in hand-built catalogs).
    pub key: String,
    pub name: String,
    pub cost: u8,
    pub attack: i16,
    pub defense: i16,
    pub hp: i16,
    pub reach: Reach,
    pub resonance: Resonance,
    pub arcane: bool,
    pub warded: bool,
    pub mobile: bool,
    pub steadfast: bool,
    pub relentless: bool,
    pub lurk: bool,
    pub kind: CardKind,
    /// "Primal" / "Fabled" for evolution forms; empty otherwise.
    pub rarity: String,
    /// The form names this base may become.
    pub evolves_to: Vec<String>,
    /// The base a form comes from (set on forms only).
    pub evolves_from: Option<String>,
    pub imprints: Vec<String>,
}

impl CardDef {
    pub open spec fn spec_is_unwritten(&self) -> bool {
        self.kind == CardKind::Unwritten
    }

    #[verifier::when_used_as_spec(spec_is_unwritten)]
    pub fn is_unwritten(&self) -> (r: bool)
        ensures
            r == self.spec_is_unwritten(),
    {
        match self.kind {
            CardKind::Unwritten => true,
            _ => false,
        }
    }
}

// ---------------------------------------------------------------------------
// Geometry
// ---------------------------------------------------------------------------

/// A board width the geometry supports.
pub open spec fn valid_width(w: i8) -> bool {
    2 <= w <= 16
}

pub open spec fn spec_tile_xy_w(tile: u8, w: i8) -> (i8, i8) {
    ((tile as int % w as int) as i8, (tile as int / w as int) as i8)
}

/// Column and row of `tile` on a `w`-wide board.
pub fn tile_xy_w(tile: u8, w: i8) -> (r: (i8, i8))
    requires
        valid_width(w),
    ensures
        r == spec_tile_xy_w(tile, w),
        0 <= r.0 < w,
        0 <= r.1 <= 127,
        (tile as int) < w * w ==> r.1 < w,
{
    proof {
        if (tile as int) < w * w {
            lemma_tile_decompose(tile, w);
        }
    }
    let wu = w as u8;
    let x = tile % wu;
    let y = tile / wu;
    assert(y <= 127) by (nonlinear_arith)
        requires
            y == tile as int / wu as int,
            wu >= 2,
            tile <= 255,
    ;
    (x as i8, y as i8)
}

pub open spec fn spec_xy_tile_w(x: int, y: int, w: i8) -> Option<u8> {
    if 0 <= x < w && 0 <= y < w {
        Some((y * w + x) as u8)
    } else {
        None
    }
}

/// The tile at column `x`, row `y` of a `w`-wide square board, if on the board.
pub fn xy_tile_w(x: i8, y: i8, w: i8) -> (r: Option<u8>)
    requires
        valid_width(w),
    ensures
        r == spec_xy_tile_w(x as int, y as int, w),
        r matches Some(t) ==> (t as int) < w * w,
{
    if 0 <= x && x < w && 0 <= y && y < w {
        assert(0 <= y * w <= 240 && 0 <= y * w + x < w * w) by (nonlinear_arith)
            requires
                0 <= x < w,
                0 <= y < w,
                w <= 16,
        ;
        let t: i16 = (y as i16) * (w as i16) + (x as i16);
        Some(t as u8)
    } else {
        None
    }
}

/// Column and row on the 1v1 board.
pub fn tile_xy(tile: u8) -> (r: (i8, i8))
    ensures
        r == spec_tile_xy_w(tile, BOARD_W),
{
    tile_xy_w(tile, BOARD_W)
}

/// Proof that a tile's coordinates invert `spec_xy_tile_w`.
pub proof fn lemma_tile_coords(x: int, y: int, w: i8)
    requires
        valid_width(w),
        0 <= x < w,
        0 <= y < w,
    ensures
        0 <= y * w + x < w * w,
        spec_tile_xy_w((y * w + x) as u8, w) == (x as i8, y as i8),
{
    assert(0 <= y * w + x < w * w) by (nonlinear_arith)
        requires
            0 <= x < w,
            0 <= y < w,
    ;
    assert(w * w <= 256) by (nonlinear_arith)
        requires
            valid_width(w),
    ;
    vstd::arithmetic::div_mod::lemma_fundamental_div_mod_converse(y * w + x, w as int, y, x);
}

/// Proof that an on-board tile is recovered from its coordinates.
pub proof fn lemma_tile_decompose(t: u8, w: i8)
    requires
        valid_width(w),
        (t as int) < w * w,
    ensures
        0 <= spec_tile_xy_w(t, w).0 < w,
        0 <= spec_tile_xy_w(t, w).1 < w,
        t as int == spec_tile_xy_w(t, w).1 * w + spec_tile_xy_w(t, w).0,
{
    let q = t as int / w as int;
    let r = t as int % w as int;
    vstd::arithmetic::div_mod::lemma_fundamental_div_mod(t as int, w as int);
    vstd::arithmetic::div_mod::lemma_div_pos_is_pos(t as int, w as int);
    vstd::arithmetic::div_mod::lemma_mod_bound(t as int, w as int);
    assert(q < w) by (nonlinear_arith)
        requires
            t as int == w * q + r,
            0 <= r < w,
            (t as int) < w * w,
            q >= 0,
            w >= 2,
    ;
    assert(q * w == w * q) by (nonlinear_arith);
}

/// The distance in rows plus columns between two tiles of a `w`-wide board.
pub open spec fn spec_dist_w(a: u8, b: u8, w: i8) -> int {
    let (ax, ay) = spec_tile_xy_w(a, w);
    let (bx, by) = spec_tile_xy_w(b, w);
    (if ax >= bx { ax - bx } else { bx - ax }) + (if ay >= by { ay - by } else { by - ay })
}

/// `b` is an on-board orthogonal neighbour of `a`.
pub open spec fn spec_adjacent_w(a: u8, b: u8, w: i8) -> bool {
    (b as int) < w * w && spec_dist_w(a, b, w) == 1
}

/// The orthogonal neighbours of `tile` that lie on a `w`-wide board, in the order
/// right, left, below, above.
pub open spec fn spec_adjacent4_w(tile: u8, w: i8) -> Seq<u8> {
    let (x, y) = spec_tile_xy_w(tile, w);
    let right = if x + 1 < w { seq![spec_xy_tile_w(x + 1, y as int, w)->Some_0] } else { Seq::empty() };
    let left = if x >= 1 { seq![spec_xy_tile_w(x - 1, y as int, w)->Some_0] } else { Seq::empty() };
    let below = if y + 1 < w { seq![spec_xy_tile_w(x as int, y + 1, w)->Some_0] } else { Seq::empty() };
    let above = if y >= 1 { seq![spec_xy_tile_w(x as int, y - 1, w)->Some_0] } else { Seq::empty() };
    right + left + below + above
}

/// The orthogonal neighbours of `tile` that lie on a `w`-wide board, in the order
/// right, left, below, above.
pub fn adjacent4_w(tile: u8, w: i8) -> (r: Vec<u8>)
    requires
        valid_width(w),
        (tile as int) < w * w,
    ensures
        r@ == spec_adjacent4_w(tile, w),
        forall|t: u8| r@.contains(t) <==> spec_adjacent_w(tile, t, w),
        forall|i: int| 0 <= i < r@.len() ==> (#[trigger] r@[i] as int) < w * w,
        r@.no_duplicates(),
{
    proof {
        lemma_tile_decompose(tile, w);
    }
    let (x, y) = tile_xy_w(tile, w);
    let mut out: Vec<u8> = Vec::new();
    broadcast use vstd::seq_lib::group_seq_properties;
    if x + 1 < w {
        proof { lemma_tile_coords(x + 1, y as int, w); }
        out.push(xy_tile_w(x + 1, y, w).unwrap());
    }
    let ghost o1 = out@;
    if x >= 1 {
        proof { lemma_tile_coords(x - 1, y as int, w); }
        out.push(xy_tile_w(x - 1, y, w).unwrap());
    }
    let ghost o2 = out@;
    if y + 1 < w {
        proof { lemma_tile_coords(x as int, y + 1, w); }
        out.push(xy_tile_w(x, y + 1, w).unwrap());
    }
    let ghost o3 = out@;
    if y >= 1 {
        proof { lemma_tile_coords(x as int, y - 1, w); }
        out.push(xy_tile_w(x, y - 1, w).unwrap());
    }
    assert(forall|u: u8| o1.contains(u) ==> o2.contains(u));
    assert(forall|u: u8| o2.contains(u) ==> o3.contains(u));
    assert(forall|u: u8| o3.contains(u) ==> out@.contains(u));
    assert forall|t: u8| spec_adjacent_w(tile, t, w) implies out@.contains(t) by {
        lemma_tile_decompose(t, w);
        let (tx, ty) = spec_tile_xy_w(t, w);
        assert(w * w <= 256) by (nonlinear_arith)
            requires
                valid_width(w),
        ;
        assert(spec_xy_tile_w(tx as int, ty as int, w) == Some(t));
        if tx == x + 1 {
            assert(out@.contains(t));
        } else if tx + 1 == x {
            assert(out@.contains(t));
        } else if ty == y + 1 {
            assert(out@.contains(t));
        } else {
            assert(out@.contains(t));
        }
    }
    out
}

/// The neighbours of an on-board tile are on the board.
pub proof fn lemma_adjacent4_on_board(tile: u8, w: i8)
    requires
        valid_width(w),
        (tile as int) < w * w,
    ensures
        forall|i: int| 0 <= i < spec_adjacent4_w(tile, w).len() ==> (#[trigger] spec_adjacent4_w(tile, w)[i] as int) < w * w,
{
    lemma_tile_decompose(tile, w);
    let (x, y) = spec_tile_xy_w(tile, w);
    assert(w * w <= 256) by (nonlinear_arith)
        requires
            valid_width(w),
    ;
    if x + 1 < w {
        lemma_tile_coords(x + 1, y as int, w);
    }
    if x >= 1 {
        lemma_tile_coords(x - 1, y as int, w);
    }
    if y + 1 < w {
        lemma_tile_coords(x as int, y + 1, w);
    }
    if y >= 1 {
        lemma_tile_coords(x as int, y - 1, w);
    }
    let right = if x + 1 < w { seq![spec_xy_tile_w(x + 1, y as int, w)->Some_0] } else { Seq::<u8>::empty() };
    let left = if x >= 1 { seq![spec_xy_tile_w(x - 1, y as int, w)->Some_0] } else { Seq::<u8>::empty() };
    let below = if y + 1 < w { seq![spec_xy_tile_w(x as int, y + 1, w)->Some_0] } else { Seq::<u8>::empty() };
    let above = if y >= 1 { seq![spec_xy_tile_w(x as int, y - 1, w)->Some_0] } else { Seq::<u8>::empty() };
    let all = spec_adjacent4_w(tile, w);
    assert(all == right + left + below + above);
    assert forall|i: int| 0 <= i < all.len() implies (#[trigger] all[i] as int) < w * w by {
        let a = right + left;
        let b = a + below;
        if i < b.len() {
            assert(all[i] == b[i]);
            if i < a.len() {
                assert(b[i] == a[i]);
                if i < right.len() {
                    assert(a[i] == right[i]);
                } else {
                    assert(a[i] == left[i - right.len()]);
                }
            } else {
                assert(b[i] == below[i - a.len()]);
            }
        } else {
            assert(all[i] == above[i - b.len()]);
        }
    }
}

/// The orthogonal neighbours of `tile` on the 1v1 board.
pub fn adjacent4(tile: u8) -> (r: Vec<u8>)
    requires
        (tile as int) < BOARD_TILES,
    ensures
        forall|t: u8| r@.contains(t) <==> spec_adjacent_w(tile, t, BOARD_W),
{
    adjacent4_w(tile, BOARD_W)
}

pub open spec fn spec_is_rim_w(tile: u8, w: i8) -> bool {
    let (x, y) = spec_tile_xy_w(tile, w);
    x == 0 || y == 0 || x == w - 1 || y == w - 1
}

/// Whether `tile` lies on the outer ring of a `w`-wide board.
pub fn is_rim_w(tile: u8, w: i8) -> (r: bool)
    requires
        valid_width(w),
    ensures
        r == spec_is_rim_w(tile, w),
{
    let (x, y) = tile_xy_w(tile, w);
    x == 0 || y == 0 || x == w - 1 || y == w - 1
}

} // verus!
