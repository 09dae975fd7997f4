//! Piece shape catalog and the state of the falling piece: the seven
//! variants, their 4x4 occupancy tables, and the cyclic rotation rules.

use rand::Rng;
use vstd::prelude::*;

verus! {

/// One rotation state of a piece, as a 4x4 occupancy table in local
/// coordinates: 0 is an empty cell, anything else is occupied.
pub type Table = [[u8; 4]; 4];

/// Grid-relative position of a piece: `i` is the row of the table's local
/// origin on the playfield, `j` its column. Rows grow downward, columns
/// rightward. Either coordinate may be negative while a piece hangs past
/// the top or left edge.
#[derive(Debug, Clone, Copy)]
pub struct PieceIndicies {
    pub i: i32,
    pub j: i32,
}

/// A unit step of the falling piece on the grid.
#[derive(Debug, Clone, Copy, PartialEq, Eq, Structural)]
pub enum Direction {
    Left,
    Right,
    Up,
    Down,
}

/// Moves a position one cell in the given direction: `Left`/`Right` change
/// the column by -1/+1, `Up`/`Down` change the row by -1/+1.
pub fn move_piece(piece_indicies: &mut PieceIndicies, direction: Direction)
    requires
        match direction {
            Direction::Left => old(piece_indicies).j > i32::MIN,
            Direction::Right => old(piece_indicies).j < i32::MAX,
            Direction::Up => old(piece_indicies).i > i32::MIN,
            Direction::Down => old(piece_indicies).i < i32::MAX,
        },
    ensures
        match direction {
            Direction::Left => final(piece_indicies).i == old(piece_indicies).i
                && final(piece_indicies).j == old(piece_indicies).j - 1,
            Direction::Right => final(piece_indicies).i == old(piece_indicies).i
                && final(piece_indicies).j == old(piece_indicies).j + 1,
            Direction::Up => final(piece_indicies).i == old(piece_indicies).i - 1
                && final(piece_indicies).j == old(piece_indicies).j,
            Direction::Down => final(piece_indicies).i == old(piece_indicies).i + 1
                && final(piece_indicies).j == old(piece_indicies).j,
        },
{
    match direction {
        Direction::Left => {
            piece_indicies.j = piece_indicies.j - 1;
        }
        Direction::Right => {
            piece_indicies.j = piece_indicies.j + 1;
        }
        Direction::Up => {
            piece_indicies.i = piece_indicies.i - 1;
        }
        Direction::Down => {
            piece_indicies.i = piece_indicies.i + 1;
        }
    }
}

/// The seven canonical piece shapes.
#[derive(Debug, Clone, Copy, PartialEq, Eq, Structural)]
pub enum Variant {
    O,
    I,
    L,
    J,
    S,
    Z,
    T,
}

/// How many distinct rotation states a variant cycles through: the square
/// has one, the bars and the skew pieces two, the remaining pieces four.
pub open spec fn spec_rotation_count(v: Variant) -> int {
    match v {
        Variant::O => 1,
        Variant::I => 2,
        Variant::L => 4,
        Variant::J => 4,
        Variant::S => 2,
        Variant::Z => 2,
        Variant::T => 4,
    }
}

/// Length of a variant's cyclic list of rotation states.
pub fn rotation_count(variant: Variant) -> (n: usize)
    ensures
        n == spec_rotation_count(variant),
{
    match variant {
        Variant::O => 1,
        Variant::I => 2,
        Variant::L => 4,
        Variant::J => 4,
        Variant::S => 2,
        Variant::Z => 2,
        Variant::T => 4,
    }
}

/// The occupancy table of rotation state `idx` of variant `v`, as a 4x4
/// sequence of 0/1 cells; meaningful for `0 <= idx < spec_rotation_count(v)`.
pub open spec fn spec_table(v: Variant, idx: int) -> Seq<Seq<u8>> {
    match v {
        Variant::O => seq![
            seq![1u8, 1, 0, 0],
            seq![1u8, 1, 0, 0],
            seq![0u8, 0, 0, 0],
            seq![0u8, 0, 0, 0],
        ],
        Variant::I => if idx == 0 {
            seq![
                seq![1u8, 0, 0, 0],
                seq![1u8, 0, 0, 0],
                seq![1u8, 0, 0, 0],
                seq![1u8, 0, 0, 0],
            ]
        } else {
            seq![
                seq![1u8, 1, 1, 1],
                seq![0u8, 0, 0, 0],
                seq![0u8, 0, 0, 0],
                seq![0u8, 0, 0, 0],
            ]
        },
        Variant::L => if idx == 0 {
            seq![
                seq![1u8, 0, 0, 0],
                seq![1u8, 0, 0, 0],
                seq![1u8, 1, 0, 0],
                seq![0u8, 0, 0, 0],
            ]
        } else if idx == 1 {
            seq![
                seq![0u8, 0, 1, 0],
                seq![1u8, 1, 1, 0],
                seq![0u8, 0, 0, 0],
                seq![0u8, 0, 0, 0],
            ]
        } else if idx == 2 {
            seq![
                seq![1u8, 1, 0, 0],
                seq![0u8, 1, 0, 0],
                seq![0u8, 1, 0, 0],
                seq![0u8, 0, 0, 0],
            ]
        } else {
            seq![
                seq![1u8, 1, 1, 0],
                seq![1u8, 0, 0, 0],
                seq![0u8, 0, 0, 0],
                seq![0u8, 0, 0, 0],
            ]
        },
        Variant::J => if idx == 0 {
            seq![
                seq![0u8, 1, 0, 0],
                seq![0u8, 1, 0, 0],
                seq![1u8, 1, 0, 0],
                seq![0u8, 0, 0, 0],
            ]
        } else if idx == 1 {
            seq![
                seq![1u8, 1, 1, 0],
                seq![0u8, 0, 1, 0],
                seq![0u8, 0, 0, 0],
                seq![0u8, 0, 0, 0],
            ]
        } else if idx == 2 {
            seq![
                seq![1u8, 1, 0, 0],
                seq![1u8, 0, 0, 0],
                seq![1u8, 0, 0, 0],
                seq![0u8, 0, 0, 0],
            ]
        } else {
            seq![
                seq![1u8, 0, 0, 0],
                seq![1u8, 1, 1, 0],
                seq![0u8, 0, 0, 0],
                seq![0u8, 0, 0, 0],
            ]
        },
        Variant::S => if idx == 0 {
            seq![
                seq![1u8, 1, 0, 0],
                seq![0u8, 1, 1, 0],
                seq![0u8, 0, 0, 0],
                seq![0u8, 0, 0, 0],
            ]
        } else {
            seq![
                seq![0u8, 1, 0, 0],
                seq![1u8, 1, 0, 0],
                seq![1u8, 0, 0, 0],
                seq![0u8, 0, 0, 0],
            ]
        },
        Variant::Z => if idx == 0 {
            seq![
                seq![0u8, 1, 1, 0],
                seq![1u8, 1, 0, 0],
                seq![0u8, 0, 0, 0],
                seq![0u8, 0, 0, 0],
            ]
        } else {
            seq![
                seq![1u8, 0, 0, 0],
                seq![1u8, 1, 0, 0],
                seq![0u8, 1, 0, 0],
                seq![0u8, 0, 0, 0],
            ]
        },
        Variant::T => if idx == 0 {
            seq![
                seq![1u8, 1, 1, 0],
                seq![0u8, 1, 0, 0],
                seq![0u8, 0, 0, 0],
                seq![0u8, 0, 0, 0],
            ]
        } else if idx == 1 {
            seq![
                seq![1u8, 0, 0, 0],
                seq![1u8, 1, 0, 0],
                seq![1u8, 0, 0, 0],
                seq![0u8, 0, 0, 0],
            ]
        } else if idx == 2 {
            seq![
                seq![1u8, 1, 0, 0],
                seq![1u8, 0, 0, 0],
                seq![1u8, 0, 0, 0],
                seq![0u8, 0, 0, 0],
            ]
        } else {
            seq![
                seq![1u8, 0, 0, 0],
                seq![1u8, 1, 1, 0],
                seq![0u8, 0, 0, 0],
                seq![0u8, 0, 0, 0],
            ]
        },
    }
}

/// Pure lookup of the occupancy table for rotation state `idx` of `variant`.
pub fn table_for(variant: Variant, idx: usize) -> (t: Table)
    requires
        idx < spec_rotation_count(variant),
    ensures
        t.deep_view() == spec_table(variant, idx as int),
{
    let t: Table = match variant {
        Variant::O => [[1u8, 1, 0, 0], [1, 1, 0, 0], [0, 0, 0, 0], [0, 0, 0, 0]],
        Variant::I => {
            if idx == 0 {
                [[1u8, 0, 0, 0], [1, 0, 0, 0], [1, 0, 0, 0], [1, 0, 0, 0]]
            } else {
                [[1u8, 1, 1, 1], [0, 0, 0, 0], [0, 0, 0, 0], [0, 0, 0, 0]]
            }
        }
        Variant::L => {
            if idx == 0 {
                [[1u8, 0, 0, 0], [1, 0, 0, 0], [1, 1, 0, 0], [0, 0, 0, 0]]
            } else if idx == 1 {
                [[0u8, 0, 1, 0], [1, 1, 1, 0], [0, 0, 0, 0], [0, 0, 0, 0]]
            } else if idx == 2 {
                [[1u8, 1, 0, 0], [0, 1, 0, 0], [0, 1, 0, 0], [0, 0, 0, 0]]
            } else {
                [[1u8, 1, 1, 0], [1, 0, 0, 0], [0, 0, 0, 0], [0, 0, 0, 0]]
            }
        }
        Variant::J => {
            if idx == 0 {
                [[0u8, 1, 0, 0], [0, 1, 0, 0], [1, 1, 0, 0], [0, 0, 0, 0]]
            } else if idx == 1 {
                [[1u8, 1, 1, 0], [0, 0, 1, 0], [0, 0, 0, 0], [0, 0, 0, 0]]
            } else if idx == 2 {
                [[1u8, 1, 0, 0], [1, 0, 0, 0], [1, 0, 0, 0], [0, 0, 0, 0]]
            } else {
                [[1u8, 0, 0, 0], [1, 1, 1, 0], [0, 0, 0, 0], [0, 0, 0, 0]]
            }
        }
        Variant::S => {
            if idx == 0 {
                [[1u8, 1, 0, 0], [0, 1, 1, 0], [0, 0, 0, 0], [0, 0, 0, 0]]
            } else {
                [[0u8, 1, 0, 0], [1, 1, 0, 0], [1, 0, 0, 0], [0, 0, 0, 0]]
            }
        }
        Variant::Z => {
            if idx == 0 {
                [[0u8, 1, 1, 0], [1, 1, 0, 0], [0, 0, 0, 0], [0, 0, 0, 0]]
            } else {
                [[1u8, 0, 0, 0], [1, 1, 0, 0], [0, 1, 0, 0], [0, 0, 0, 0]]
            }
        }
        Variant::T => {
            if idx == 0 {
                [[1u8, 1, 1, 0], [0, 1, 0, 0], [0, 0, 0, 0], [0, 0, 0, 0]]
            } else if idx == 1 {
                [[1u8, 0, 0, 0], [1, 1, 0, 0], [1, 0, 0, 0], [0, 0, 0, 0]]
            } else if idx == 2 {
                [[1u8, 1, 0, 0], [1, 0, 0, 0], [1, 0, 0, 0], [0, 0, 0, 0]]
            } else {
                [[1u8, 0, 0, 0], [1, 1, 1, 0], [0, 0, 0, 0], [0, 0, 0, 0]]
            }
        }
    };
    proof {
        assert(t.deep_view() =~~= spec_table(variant, idx as int));
    }
    t
}

/// Clockwise successor of a rotation index in a cycle of `len` states:
/// index 0 wraps to `len - 1`, any other index decreases by one. The
/// decreasing direction is a convention baked into the table ordering.
pub open spec fn spec_next_cw(idx: int, len: int) -> int {
    if idx == 0 {
        len - 1
    } else {
        idx - 1
    }
}

/// Counterclockwise successor of a rotation index in a cycle of `len`
/// states: the index increases by one, wrapping modulo `len`.
pub open spec fn spec_next_ccw(idx: int, len: int) -> int {
    (idx + 1) % len
}

/// The rotation index after `k` clockwise steps from `idx` in a cycle of
/// `len` states.
pub open spec fn iter_rotate_cw(idx: int, len: int, k: nat) -> int
    decreases k,
{
    if k == 0 {
        idx
    } else {
        spec_next_cw(iter_rotate_cw(idx, len, (k - 1) as nat), len)
    }
}

/// The rotation index after `k` counterclockwise steps from `idx` in a
/// cycle of `len` states.
pub open spec fn iter_rotate_ccw(idx: int, len: int, k: nat) -> int
    decreases k,
{
    if k == 0 {
        idx
    } else {
        spec_next_ccw(iter_rotate_ccw(idx, len, (k - 1) as nat), len)
    }
}

/// The state of the currently falling piece: which variant it is and which
/// of that variant's rotation states it is in. Its grid position is tracked
/// separately by the driver, as a `PieceIndicies`.
pub struct Piece {
    variant: Variant,
    i: usize,
}

impl Piece {
    /// The piece's variant.
    pub closed spec fn spec_variant(&self) -> Variant {
        self.variant
    }

    /// The piece's current rotation index.
    pub closed spec fn spec_rotation(&self) -> int {
        self.i as int
    }

    /// Validity: the rotation index stays within the variant's cycle.
    pub open spec fn wf(&self) -> bool {
        0 <= self.spec_rotation() < spec_rotation_count(self.spec_variant())
    }

    /// A fresh piece of the given variant, in its initial rotation state.
    pub fn new(variant: Variant) -> (p: Piece)
        ensures
            p.wf(),
            p.spec_variant() == variant,
            p.spec_rotation() == 0,
    {
        Piece { variant, i: 0 }
    }

    /// The piece's variant.
    pub fn variant(&self) -> (v: Variant)
        ensures
            v == self.spec_variant(),
    {
        self.variant
    }

    /// The piece's current rotation index.
    pub fn rotation_index(&self) -> (n: usize)
        ensures
            n == self.spec_rotation(),
    {
        self.i
    }

    /// Advances the piece one rotation state clockwise. The grid is never
    /// consulted: an in-place rotation may legally overlap existing terrain.
    pub fn rotate_cw(&mut self)
        requires
            old(self).wf(),
        ensures
            final(self).wf(),
            final(self).spec_variant() == old(self).spec_variant(),
            final(self).spec_rotation() == spec_next_cw(
                old(self).spec_rotation(),
                spec_rotation_count(old(self).spec_variant()),
            ),
    {
        let len = rotation_count(self.variant);
        if self.i == 0 {
            self.i = len - 1;
        } else {
            self.i = self.i - 1;
        }
    }

    /// Advances the piece one rotation state counterclockwise.
    pub fn rotate_ccw(&mut self)
        requires
            old(self).wf(),
        ensures
            final(self).wf(),
            final(self).spec_variant() == old(self).spec_variant(),
            final(self).spec_rotation() == spec_next_ccw(
                old(self).spec_rotation(),
                spec_rotation_count(old(self).spec_variant()),
            ),
    {
        let len = rotation_count(self.variant);
        self.i = (self.i + 1) % len;
    }

    /// The occupancy table of the piece's current rotation state.
    pub fn get_table(&self) -> (t: Table)
        requires
            self.wf(),
        ensures
            t.deep_view() == spec_table(self.spec_variant(), self.spec_rotation()),
    {
        table_for(self.variant, self.i)
    }
}

/// The variant drawn for a given index of the seven-way random draw.
pub open spec fn spec_variant_for(n: int) -> Variant {
    if n == 0 {
        Variant::O
    } else if n == 1 {
        Variant::I
    } else if n == 2 {
        Variant::L
    } else if n == 3 {
        Variant::J
    } else if n == 4 {
        Variant::S
    } else if n == 5 {
        Variant::Z
    } else {
        Variant::T
    }
}

/// The variant assigned to each index of the seven-way draw.
pub fn variant_for(n: usize) -> (v: Variant)
    requires
        n < 7,
    ensures
        v == spec_variant_for(n as int),
{
    match n {
        0 => Variant::O,
        1 => Variant::I,
        2 => Variant::L,
        3 => Variant::J,
        4 => Variant::S,
        5 => Variant::Z,
        _ => Variant::T,
    }
}

/// Relies on rand::Rng::random_range over the integer range 0..7: the
/// drawn value lies in that range (the call panics only on an empty range).
#[verifier::external_body]
fn draw_variant_index() -> (n: usize)
    ensures
        n < 7,
{
    rand::rng().random_range(0..7)
}

/// Hands out fresh falling pieces, choosing each variant at random.
pub struct PieceFactory {}

impl PieceFactory {
    /// Draws one of the seven variants at random and returns a fresh piece
    /// of that variant in its initial rotation state. Every variant is a
    /// possible outcome; nothing more is promised of the choice.
    pub fn create_piece(&mut self) -> (p: Piece)
        ensures
            p.wf(),
            p.spec_rotation() == 0,
    {
        let n = draw_variant_index();
        Piece::new(variant_for(n))
    }
}

/// Cycle-closure law, clockwise: starting anywhere in a variant's cycle of
/// `len` rotation states, `len` clockwise steps return to the start.
pub proof fn lemma_rotate_cw_cycle(idx: int, len: int)
    requires
        1 <= len,
        0 <= idx < len,
    ensures
        iter_rotate_cw(idx, len, len as nat) == idx,
{
    lemma_iter_cw_shape(idx, len, len as nat);
}

/// Cycle-closure law, counterclockwise: starting anywhere in a variant's
/// cycle of `len` rotation states, `len` counterclockwise steps return to
/// the start.
pub proof fn lemma_rotate_ccw_cycle(idx: int, len: int)
    requires
        1 <= len,
        0 <= idx < len,
    ensures
        iter_rotate_ccw(idx, len, len as nat) == idx,
{
    lemma_iter_ccw_shape(idx, len, len as nat);
}

/// Cycle-closure law, per variant: from any reachable rotation state of
/// any variant, as many rotation steps as the variant has states return
/// the piece to that state, clockwise as well as counterclockwise.
pub proof fn lemma_variant_rotation_cycle(v: Variant, idx: int)
    requires
        0 <= idx < spec_rotation_count(v),
    ensures
        iter_rotate_cw(idx, spec_rotation_count(v), spec_rotation_count(v) as nat) == idx,
        iter_rotate_ccw(idx, spec_rotation_count(v), spec_rotation_count(v) as nat) == idx,
{
    lemma_rotate_cw_cycle(idx, spec_rotation_count(v));
    lemma_rotate_ccw_cycle(idx, spec_rotation_count(v));
}

/// Inverse law: one clockwise step followed by one counterclockwise step
/// restores the rotation index, and the other way round, from any starting
/// index in the cycle.
pub proof fn lemma_rotation_inverse(idx: int, len: int)
    requires
        1 <= len,
        0 <= idx < len,
    ensures
        spec_next_ccw(spec_next_cw(idx, len), len) == idx,
        spec_next_cw(spec_next_ccw(idx, len), len) == idx,
{
    assert(spec_next_ccw(spec_next_cw(idx, len), len) == idx) by {
        if idx == 0 {
            assert(len % len == 0) by {
                vstd::arithmetic::div_mod::lemma_mod_self_0(len);
            }
        } else {
            assert(idx % len == idx) by {
                vstd::arithmetic::div_mod::lemma_small_mod(idx as nat, len as nat);
            }
        }
    }
    assert(spec_next_cw(spec_next_ccw(idx, len), len) == idx) by {
        if idx + 1 == len {
            assert(len % len == 0) by {
                vstd::arithmetic::div_mod::lemma_mod_self_0(len);
            }
        } else {
            assert((idx + 1) % len == idx + 1) by {
                vstd::arithmetic::div_mod::lemma_small_mod((idx + 1) as nat, len as nat);
            }
        }
    }
}

/// After `k <= len` clockwise steps the index is `idx - k`, wrapped once
/// past 0 back to the top of the cycle.
proof fn lemma_iter_cw_shape(idx: int, len: int, k: nat)
    requires
        1 <= len,
        0 <= idx < len,
        k <= len,
    ensures
        iter_rotate_cw(idx, len, k) == if k <= idx {
            idx - k
        } else {
            idx + len - k
        },
    decreases k,
{
    if k > 0 {
        lemma_iter_cw_shape(idx, len, (k - 1) as nat);
    }
}

/// After `k <= len` counterclockwise steps the index is `idx + k`, wrapped
/// once past `len - 1` back to 0.
proof fn lemma_iter_ccw_shape(idx: int, len: int, k: nat)
    requires
        1 <= len,
        0 <= idx < len,
        k <= len,
    ensures
        iter_rotate_ccw(idx, len, k) == if idx + k < len {
            idx + k
        } else {
            idx + k - len
        },
    decreases k,
{
    if k > 0 {
        lemma_iter_ccw_shape(idx, len, (k - 1) as nat);
        let prev = iter_rotate_ccw(idx, len, (k - 1) as nat);
        assert(0 <= prev < len);
        if prev + 1 == len {
            assert(len % len == 0) by {
                vstd::arithmetic::div_mod::lemma_mod_self_0(len);
            }
        } else {
            assert((prev + 1) % len == prev + 1) by {
                vstd::arithmetic::div_mod::lemma_small_mod((prev + 1) as nat, len as nat);
            }
        }
    }
}

} // verus!
