//! The playfield grid: a fixed-size board of occupied/empty cells with
//! collision testing against piece footprints and permanent commits.

use vstd::prelude::*;
use vstd::string::StringExecFns;

use crate::pieces::PieceIndicies;
use crate::pieces::Table;

verus! {

/// The two characters a single cell contributes to the textual dump: its
/// digit and a trailing space.
pub open spec fn render_cell(v: u8) -> Seq<char> {
    seq![if v == 0 { '0' } else { '1' }, ' ']
}

/// The characters one row contributes to the textual dump: the cells'
/// digits, each followed by a space.
pub open spec fn render_row(row: Seq<u8>) -> Seq<char>
    decreases row.len(),
{
    if row.len() == 0 {
        Seq::empty()
    } else {
        render_row(row.drop_last()) + render_cell(row.last())
    }
}

/// The textual dump of a grid: one line per row, each cell as a digit
/// followed by a space, each row ended by a newline.
pub open spec fn render_grid(m: Seq<Seq<u8>>) -> Seq<char>
    decreases m.len(),
{
    if m.len() == 0 {
        Seq::empty()
    } else {
        render_grid(m.drop_last()) + render_row(m.last()) + seq!['\n']
    }
}

/// True when the occupied table cell `(i, j)` of a piece anchored at
/// `(pi, pj)` lands outside the grid `m` or on an occupied grid cell.
pub open spec fn collides_at(m: Seq<Seq<u8>>, t: Seq<Seq<u8>>, pi: int, pj: int, i: int, j: int) -> bool {
    t[i][j] != 0 && {
        let r = pi + i;
        let c = pj + j;
        ||| r < 0
        ||| r >= m.len()
        ||| c < 0
        ||| c >= m[0].len()
        ||| m[r][c] == 1
    }
}

/// True when a piece with occupancy table `t` anchored at `(pi, pj)` cannot
/// stand on grid `m`: some occupied table cell projects out of bounds or
/// onto an occupied grid cell.
pub open spec fn spec_collides(m: Seq<Seq<u8>>, t: Seq<Seq<u8>>, pi: int, pj: int) -> bool {
    exists|i: int, j: int| 0 <= i < 4 && 0 <= j < 4 && collides_at(m, t, pi, pj, i, j)
}

/// The playfield grid. Every cell is 0 (empty) or 1 (occupied); the board
/// is at least 10 rows by 7 columns and every row has the same width.
pub struct Matrix {
    elements: Vec<Vec<u8>>,
}

impl Matrix {
    /// The grid as a sequence of rows, each a sequence of cells.
    pub closed spec fn view(&self) -> Seq<Seq<u8>> {
        Seq::new(self.elements@.len(), |r: int| self.elements@[r]@)
    }

    /// Number of rows.
    pub open spec fn spec_height(&self) -> int {
        self@.len() as int
    }

    /// Number of columns (the width of the first row).
    pub open spec fn spec_width(&self) -> int {
        self@[0].len() as int
    }

    /// Well-formedness: minimum size, rectangular shape, cells 0 or 1.
    pub open spec fn wf(&self) -> bool {
        &&& self.spec_height() >= 10
        &&& self.spec_width() >= 7
        &&& forall|r: int| 0 <= r < self.spec_height() ==> #[trigger] self@[r].len() == self.spec_width()
        &&& forall|r: int, c: int|
            0 <= r < self.spec_height() && 0 <= c < self.spec_width()
                ==> #[trigger] self@[r][c] == 0 || self@[r][c] == 1
    }

    /// Builds an all-empty grid of `height` rows by `width` columns, or
    /// nothing when the board would be smaller than 7 columns by 10 rows.
    pub fn try_new(width: usize, height: usize) -> (m: Option<Matrix>)
        ensures
            m is Some <==> width >= 7 && height >= 10,
            m is Some ==> {
                let g = m->Some_0;
                &&& g.wf()
                &&& g.spec_height() == height
                &&& g.spec_width() == width
                &&& forall|r: int, c: int|
                    0 <= r < height && 0 <= c < width ==> #[trigger] g@[r][c] == 0
            },
    {
        if width < 7 {
            return None;
        }
        if height < 10 {
            return None;
        }
        let mut elements: Vec<Vec<u8>> = Vec::new();
        for r in 0..height
            invariant
                elements.len() == r,
                forall|a: int| 0 <= a < r ==> #[trigger] elements@[a]@.len() == width,
                forall|a: int, b: int|
                    0 <= a < r && 0 <= b < width ==> #[trigger] elements@[a]@[b] == 0,
        {
            let mut row: Vec<u8> = Vec::new();
            for c in 0..width
                invariant
                    row.len() == c,
                    forall|b: int| 0 <= b < c ==> #[trigger] row@[b] == 0,
            {
                row.push(0u8);
            }
            elements.push(row);
        }
        Some(Matrix { elements })
    }

    /// Number of rows of the board.
    pub fn height(&self) -> (h: usize)
        ensures
            h == self.spec_height(),
    {
        self.elements.len()
    }

    /// Number of columns of the board.
    pub fn width(&self) -> (w: usize)
        requires
            self.wf(),
        ensures
            w == self.spec_width(),
    {
        self.elements[0].len()
    }

    /// Reads one cell.
    pub fn get(&self, row: usize, col: usize) -> (v: u8)
        requires
            self.wf(),
            row < self.spec_height(),
            col < self.spec_width(),
        ensures
            v == self@[row as int][col as int],
    {
        proof {
            assert(self@[row as int] == self.elements@[row as int]@);
        }
        self.elements[row][col]
    }

    /// Marks one cell occupied.
    pub fn set(&mut self, row: usize, col: usize)
        requires
            old(self).wf(),
            row < old(self).spec_height(),
            col < old(self).spec_width(),
        ensures
            final(self).wf(),
            final(self)@ == old(self)@.update(row as int, old(self)@[row as int].update(col as int, 1u8)),
    {
        proof {
            assert(old(self)@[row as int] == old(self).elements@[row as int]@);
        }
        let inner = &mut self.elements[row];
        inner.set(col, 1u8);
        proof {
            assert(self@ =~~= old(self)@.update(row as int, old(self)@[row as int].update(col as int, 1u8)));
        }
    }

    /// Marks one cell empty.
    pub fn clear(&mut self, row: usize, col: usize)
        requires
            old(self).wf(),
            row < old(self).spec_height(),
            col < old(self).spec_width(),
        ensures
            final(self).wf(),
            final(self)@ == old(self)@.update(row as int, old(self)@[row as int].update(col as int, 0u8)),
    {
        proof {
            assert(old(self)@[row as int] == old(self).elements@[row as int]@);
        }
        let inner = &mut self.elements[row];
        inner.set(col, 0u8);
        proof {
            assert(self@ =~~= old(self)@.update(row as int, old(self)@[row as int].update(col as int, 0u8)));
        }
    }

    /// The grid as text, for inspection: rows of space-separated 0/1
    /// digits, one row per line. Not meant as a stable persisted format.
    pub fn dump(&self) -> (s: String)
        requires
            self.wf(),
        ensures
            s@ == render_grid(self@),
    {
        let mut s = String::new();
        let height = self.height();
        let width = self.width();
        for r in 0..height
            invariant
                self.wf(),
                height == self.spec_height(),
                width == self.spec_width(),
                s@ == render_grid(self@.take(r as int)),
        {
            for c in 0..width
                invariant
                    self.wf(),
                    height == self.spec_height(),
                    width == self.spec_width(),
                    r < height,
                    s@ == render_grid(self@.take(r as int)) + render_row(
                        self@[r as int].take(c as int),
                    ),
            {
                if self.get(r, c) == 0 {
                    s.append("0 ");
                } else {
                    s.append("1 ");
                }
                proof {
                    reveal_strlit("0 ");
                    reveal_strlit("1 ");
                    let row = self@[r as int];
                    assert(row.take(c as int + 1).drop_last() =~= row.take(c as int));
                    assert(row.take(c as int + 1).last() == row[c as int]);
                    if row[c as int] == 0 {
                        assert("0 "@ =~= render_cell(row[c as int]));
                    } else {
                        assert("1 "@ =~= render_cell(row[c as int]));
                    }
                    assert(s@ =~= render_grid(self@.take(r as int)) + render_row(
                        row.take(c as int + 1),
                    ));
                }
            }
            s.append("\n");
            proof {
                reveal_strlit("\n");
                assert("\n"@ =~= seq!['\n']);
                assert(self@.take(r as int + 1).drop_last() =~= self@.take(r as int));
                assert(self@.take(r as int + 1).last() == self@[r as int]);
                assert(self@[r as int].take(width as int) =~= self@[r as int]);
                assert(s@ =~= render_grid(self@.take(r as int + 1)));
            }
        }
        proof {
            assert(self@.take(height as int) =~= self@);
        }
        s
    }
}

/// True when grid cell `(r, c)` is covered by an occupied cell (value
/// exactly 1) of the table `t` anchored at `(pi, pj)`.
pub open spec fn in_footprint(t: Seq<Seq<u8>>, pi: int, pj: int, r: int, c: int) -> bool {
    exists|i: int, j: int|
        0 <= i < 4 && 0 <= j < 4 && t[i][j] == 1 && pi + i == r && pj + j == c
}

/// The grid `m` after the footprint of table `t` anchored at `(pi, pj)`
/// has been burned in: covered cells become 1, all others keep their value.
pub open spec fn spec_commit(m: Seq<Seq<u8>>, t: Seq<Seq<u8>>, pi: int, pj: int) -> Seq<Seq<u8>> {
    Seq::new(
        m.len(),
        |r: int| Seq::new(m[r].len(), |c: int| if in_footprint(t, pi, pj, r, c) { 1u8 } else { m[r][c] }),
    )
}

/// Tests whether the piece described by `table`, anchored at
/// `piece_indicies`, collides with the boundary of the grid or with an
/// already occupied cell. A pure read: the grid is not changed.
pub fn check_for_colision(matrix: &Matrix, table: &Table, piece_indicies: &PieceIndicies) -> (r: bool)
    requires
        matrix.wf(),
    ensures
        r == spec_collides(
            matrix@,
            table.deep_view(),
            piece_indicies.i as int,
            piece_indicies.j as int,
        ),
{
    let ghost m = matrix@;
    let ghost tv = table.deep_view();
    let ghost pi = piece_indicies.i as int;
    let ghost pj = piece_indicies.j as int;
    let width = matrix.width();
    let height = matrix.height();

    for i in 0..4usize
        invariant
            matrix.wf(),
            m == matrix@,
            tv == table.deep_view(),
            pi == piece_indicies.i as int,
            pj == piece_indicies.j as int,
            width == matrix.spec_width(),
            height == matrix.spec_height(),
            forall|a: int, b: int| 0 <= a < i && 0 <= b < 4 ==> !collides_at(m, tv, pi, pj, a, b),
    {
        for j in 0..4usize
            invariant
                matrix.wf(),
                m == matrix@,
                tv == table.deep_view(),
                pi == piece_indicies.i as int,
                pj == piece_indicies.j as int,
                width == matrix.spec_width(),
                height == matrix.spec_height(),
                i < 4,
                forall|a: int, b: int| 0 <= a < i && 0 <= b < 4 ==> !collides_at(m, tv, pi, pj, a, b),
                forall|b: int| 0 <= b < j ==> !collides_at(m, tv, pi, pj, i as int, b),
        {
            proof {
                assert(tv[i as int][j as int] == table@[i as int]@[j as int]);
            }
            let occupied = table[i][j];
            if occupied != 0 {
                let row = piece_indicies.i as i64 + i as i64;
                let col = piece_indicies.j as i64 + j as i64;

                if row < 0 || row as usize >= height {
                    proof {
                        assert(collides_at(m, tv, pi, pj, i as int, j as int));
                    }
                    return true;
                }

                if col < 0 || col as usize >= width {
                    proof {
                        assert(collides_at(m, tv, pi, pj, i as int, j as int));
                    }
                    return true;
                }

                if matrix.get(row as usize, col as usize) == 1 {
                    proof {
                        assert(collides_at(m, tv, pi, pj, i as int, j as int));
                    }
                    return true;
                }
            }
            proof {
                assert(!collides_at(m, tv, pi, pj, i as int, j as int));
            }
        }
    }
    false
}

/// Burns the footprint of `table`, anchored at `piece_indicies`, permanently
/// into the grid: every covered cell becomes occupied, no other cell changes.
/// The anchor must be non-negative and every occupied table cell must project
/// onto the board; the caller establishes this by checking `check_for_colision`
/// first, as the game protocol prescribes.
pub fn fix_piece(matrix: &mut Matrix, table: &Table, piece_indicies: &PieceIndicies)
    requires
        old(matrix).wf(),
        piece_indicies.i >= 0,
        piece_indicies.j >= 0,
        forall|i: int, j: int|
            0 <= i < 4 && 0 <= j < 4 && #[trigger] table.deep_view()[i][j] == 1
                ==> piece_indicies.i + i < old(matrix).spec_height()
                    && piece_indicies.j + j < old(matrix).spec_width(),
    ensures
        final(matrix).wf(),
        final(matrix)@ == spec_commit(
            old(matrix)@,
            table.deep_view(),
            piece_indicies.i as int,
            piece_indicies.j as int,
        ),
{
    let ghost om = old(matrix)@;
    let ghost tv = table.deep_view();
    let ghost pi = piece_indicies.i as int;
    let ghost pj = piece_indicies.j as int;

    for i in 0..4usize
        invariant
            matrix.wf(),
            tv == table.deep_view(),
            pi == piece_indicies.i as int,
            pj == piece_indicies.j as int,
            pi >= 0,
            pj >= 0,
            om == old(matrix)@,
            old(matrix).wf(),
            forall|a: int, b: int|
                0 <= a < 4 && 0 <= b < 4 && #[trigger] tv[a][b] == 1
                    ==> pi + a < om.len() && pj + b < om[0].len(),
            matrix@.len() == om.len(),
            forall|r: int| 0 <= r < om.len() ==> #[trigger] matrix@[r].len() == om[r].len(),
            forall|r: int, c: int|
                0 <= r < om.len() && 0 <= c < om[r].len() && om[r][c] == 1
                    ==> #[trigger] matrix@[r][c] == 1,
            forall|r: int, c: int|
                0 <= r < om.len() && 0 <= c < om[r].len() && #[trigger] matrix@[r][c] == 1
                    ==> om[r][c] == 1 || in_footprint(tv, pi, pj, r, c),
            forall|a: int, b: int|
                0 <= a < 4 && 0 <= b < 4 && a * 4 + b < i * 4 && #[trigger] tv[a][b] == 1
                    ==> matrix@[pi + a][pj + b] == 1,
    {
        for j in 0..4usize
            invariant
                matrix.wf(),
                tv == table.deep_view(),
                pi == piece_indicies.i as int,
                pj == piece_indicies.j as int,
                pi >= 0,
                pj >= 0,
                om == old(matrix)@,
                old(matrix).wf(),
                i < 4,
                forall|a: int, b: int|
                    0 <= a < 4 && 0 <= b < 4 && #[trigger] tv[a][b] == 1
                        ==> pi + a < om.len() && pj + b < om[0].len(),
                matrix@.len() == om.len(),
                forall|r: int| 0 <= r < om.len() ==> #[trigger] matrix@[r].len() == om[r].len(),
                forall|r: int, c: int|
                    0 <= r < om.len() && 0 <= c < om[r].len() && om[r][c] == 1
                        ==> #[trigger] matrix@[r][c] == 1,
                forall|r: int, c: int|
                    0 <= r < om.len() && 0 <= c < om[r].len() && #[trigger] matrix@[r][c] == 1
                        ==> om[r][c] == 1 || in_footprint(tv, pi, pj, r, c),
                forall|a: int, b: int|
                    0 <= a < 4 && 0 <= b < 4 && a * 4 + b < i * 4 + j && #[trigger] tv[a][b] == 1
                        ==> matrix@[pi + a][pj + b] == 1,
        {
            proof {
                assert(tv[i as int][j as int] == table@[i as int]@[j as int]);
            }
            if table[i][j] == 1 {
                proof {
                    assert(tv[i as int][j as int] == 1);
                    assert(in_footprint(tv, pi, pj, pi + i, pj + j));
                }
                matrix.set(piece_indicies.i as usize + i, piece_indicies.j as usize + j);
            }
        }
    }

    proof {
        assert forall|r: int, c: int|
            0 <= r < om.len() && 0 <= c < om[r].len() implies #[trigger] matrix@[r][c]
                == (if in_footprint(tv, pi, pj, r, c) {
                1u8
            } else {
                om[r][c]
            }) by {
            if in_footprint(tv, pi, pj, r, c) {
                let (a, b) = choose|a: int, b: int|
                    0 <= a < 4 && 0 <= b < 4 && tv[a][b] == 1 && pi + a == r && pj + b == c;
                assert(a * 4 + b < 16);
                assert(matrix@[pi + a][pj + b] == 1);
            } else {
                if matrix@[r][c] == 1 {
                    assert(om[r][c] == 1);
                } else {
                    assert(om[r][c] == 0 || om[r][c] == 1);
                    assert(om[r][c] != 1);
                }
            }
        }
        assert(matrix@ =~~= spec_commit(om, tv, pi, pj));
    }
}

/// The set of absolute grid coordinates covered by the occupied cells of
/// table `t` anchored at `(pi, pj)`.
pub open spec fn footprint_set(t: Seq<Seq<u8>>, pi: int, pj: int) -> Set<(int, int)> {
    Set::new(|rc: (int, int)| in_footprint(t, pi, pj, rc.0, rc.1))
}

/// The set of occupied cells of grid `m`.
pub open spec fn occupied_set(m: Seq<Seq<u8>>) -> Set<(int, int)> {
    Set::new(
        |rc: (int, int)| 0 <= rc.0 < m.len() && 0 <= rc.1 < m[rc.0].len() && m[rc.0][rc.1] == 1,
    )
}

/// Bounds law: whenever some occupied cell of the table projects outside
/// the board, the placement collides.
pub proof fn lemma_collides_out_of_bounds(
    m: Seq<Seq<u8>>,
    t: Seq<Seq<u8>>,
    pi: int,
    pj: int,
    i: int,
    j: int,
)
    requires
        0 <= i < 4,
        0 <= j < 4,
        t[i][j] != 0,
        pi + i < 0 || pi + i >= m.len() || pj + j < 0 || pj + j >= m[0].len(),
    ensures
        spec_collides(m, t, pi, pj),
{
    assert(collides_at(m, t, pi, pj, i, j));
}

/// Emptiness law: on an all-empty rectangular grid, a placement whose
/// occupied cells all project onto the board does not collide.
pub proof fn lemma_empty_grid_no_collision(m: Seq<Seq<u8>>, t: Seq<Seq<u8>>, pi: int, pj: int)
    requires
        forall|r: int| 0 <= r < m.len() ==> #[trigger] m[r].len() == m[0].len(),
        forall|r: int, c: int|
            0 <= r < m.len() && 0 <= c < m[0].len() ==> #[trigger] m[r][c] == 0,
        forall|i: int, j: int|
            0 <= i < 4 && 0 <= j < 4 && #[trigger] t[i][j] != 0
                ==> 0 <= pi + i < m.len() && 0 <= pj + j < m[0].len(),
    ensures
        !spec_collides(m, t, pi, pj),
{
    assert forall|i: int, j: int| 0 <= i < 4 && 0 <= j < 4 implies !collides_at(
        m,
        t,
        pi,
        pj,
        i,
        j,
    ) by {
        if t[i][j] != 0 {
            assert(m[pi + i][pj + j] == 0);
        }
    }
}

/// Disjoint-commit law: committing two non-overlapping in-bounds footprints
/// into an all-empty rectangular grid, one after the other, yields a grid
/// whose occupied cells are exactly the union of the two footprints.
pub proof fn lemma_commit_disjoint_footprints(
    m: Seq<Seq<u8>>,
    t1: Seq<Seq<u8>>,
    p1i: int,
    p1j: int,
    t2: Seq<Seq<u8>>,
    p2i: int,
    p2j: int,
)
    requires
        forall|r: int| 0 <= r < m.len() ==> #[trigger] m[r].len() == m[0].len(),
        forall|r: int, c: int|
            0 <= r < m.len() && 0 <= c < m[0].len() ==> #[trigger] m[r][c] == 0,
        forall|i: int, j: int|
            0 <= i < 4 && 0 <= j < 4 && #[trigger] t1[i][j] == 1
                ==> 0 <= p1i + i < m.len() && 0 <= p1j + j < m[0].len(),
        forall|i: int, j: int|
            0 <= i < 4 && 0 <= j < 4 && #[trigger] t2[i][j] == 1
                ==> 0 <= p2i + i < m.len() && 0 <= p2j + j < m[0].len(),
        footprint_set(t1, p1i, p1j).disjoint(footprint_set(t2, p2i, p2j)),
    ensures
        occupied_set(spec_commit(spec_commit(m, t1, p1i, p1j), t2, p2i, p2j)) == footprint_set(
            t1,
            p1i,
            p1j,
        ) + footprint_set(t2, p2i, p2j),
{
    let f1 = footprint_set(t1, p1i, p1j);
    let f2 = footprint_set(t2, p2i, p2j);
    let m1 = spec_commit(m, t1, p1i, p1j);
    let m2 = spec_commit(m1, t2, p2i, p2j);

    assert forall|rc: (int, int)| occupied_set(m2).contains(rc) implies (f1 + f2).contains(
        rc,
    ) by {
        let r = rc.0;
        let c = rc.1;
        if !in_footprint(t2, p2i, p2j, r, c) && !in_footprint(t1, p1i, p1j, r, c) {
            assert(m2[r][c] == m[r][c]);
            assert(m[r][c] == 0);
        }
    }

    assert forall|rc: (int, int)| (f1 + f2).contains(rc) implies occupied_set(m2).contains(
        rc,
    ) by {
        let r = rc.0;
        let c = rc.1;
        if f1.contains(rc) {
            let (i, j) = choose|i: int, j: int|
                0 <= i < 4 && 0 <= j < 4 && t1[i][j] == 1 && p1i + i == r && p1j + j == c;
            assert(0 <= r < m.len() && 0 <= c < m[0].len());
            assert(m1[r][c] == 1);
            assert(m2[r][c] == 1);
        } else {
            let (i, j) = choose|i: int, j: int|
                0 <= i < 4 && 0 <= j < 4 && t2[i][j] == 1 && p2i + i == r && p2j + j == c;
            assert(0 <= r < m.len() && 0 <= c < m[0].len());
            assert(m2[r][c] == 1);
        }
    }

    assert(occupied_set(m2) =~= f1 + f2);
}

} // verus!
