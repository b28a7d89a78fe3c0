use vstd::prelude::*;
use crate::cell::{letter, letter_at, Cell, TimeWords, ALPHABET_LEN};
use crate::outside::random_in;

verus! {

/// Where the three words begin: one anchor (row, column) for each of them.
///
/// The composer draws the hour anchor first; each later anchor is taken as
/// the word before it finishes.
#[derive(Clone, Copy, Debug, PartialEq, Eq, Structural)]
pub struct Placement {
    pub hour_row: usize,
    pub hour_col: usize,
    pub minute_row: usize,
    pub minute_col: usize,
    pub ampm_row: usize,
    pub ampm_col: usize,
}

/// The grid that the composer hands back, flattened in reading order.
pub struct Grid {
    pub size: usize,
    pub cells: Vec<Cell>,
}

impl View for Grid {
    type V = Seq<Cell>;

    open spec fn view(&self) -> Seq<Cell> {
        self.cells@
    }
}

impl Grid {
    /// A square grid: `size * size` cells.
    pub open spec fn wf(&self) -> bool {
        self@.len() == self.size * self.size
    }

    /// The cell at (row, col).
    pub fn cell(&self, row: usize, col: usize) -> (r: Cell)
        requires
            row < self.size,
            col < self.size,
            self.wf(),
        ensures
            r == self@[flat(row as int, col as int, self.size as int)],
    {
        let total = self.cells.len();
        proof {
            assert(row * self.size + col < self.size * self.size) by (nonlinear_arith)
                requires row < self.size, col < self.size;
            assert(row * self.size + col < total);
        }
        self.cells[row * self.size + col]
    }
}

/// Position of cell (row, col) in reading order.
pub open spec fn flat(row: int, col: int, g: int) -> int {
    row * g + col
}

/// The longer of the two spelled-out words.
pub open spec fn max_len(h: Seq<char>, m: Seq<char>) -> int {
    if h.len() >= m.len() {
        h.len() as int
    } else {
        m.len() as int
    }
}

/// The words that a composer can place: both non-empty, a marker of two
/// characters, and a grid wider than the longer word.
pub open spec fn valid_words(h: Seq<char>, m: Seq<char>, ap: Seq<char>, g: int) -> bool {
    &&& h.len() > 0
    &&& m.len() > 0
    &&& ap.len() == 2
    &&& max_len(h, m) < g
    &&& 4 <= g
}

/// The ranges anchors are drawn from. The hour starts in the top third;
/// the minute on a later row, above the bottom third's last row; the
/// marker on a row below that; every column leaves room for the longer word.
pub open spec fn valid_placement(p: Placement, g: int, wlen: int) -> bool {
    &&& p.hour_row < g / 3
    &&& p.hour_row < p.minute_row < g - g / 3 - 1
    &&& p.minute_row < p.ampm_row < g
    &&& p.hour_col < g - wlen
    &&& p.minute_col < g - wlen
    &&& p.ampm_col < g - wlen
}

/// One decoy letter index for every cell.
pub open spec fn valid_letters(letters: Seq<u8>, g: int) -> bool {
    &&& letters.len() == g * g
    &&& forall|k: int| 0 <= k < letters.len() ==> #[trigger] letters[k] < 26
}

impl Placement {
    pub open spec fn hour_start(self, g: int) -> int {
        flat(self.hour_row as int, self.hour_col as int, g)
    }

    pub open spec fn minute_start(self, g: int) -> int {
        flat(self.minute_row as int, self.minute_col as int, g)
    }

    pub open spec fn ampm_start(self, g: int) -> int {
        flat(self.ampm_row as int, self.ampm_col as int, g)
    }
}

/// The cell at position `k` in reading order: a letter of the word whose
/// span holds `k`, else the decoy letter drawn for `k`.
pub open spec fn cell_at(
    k: int,
    h: Seq<char>,
    m: Seq<char>,
    ap: Seq<char>,
    g: int,
    p: Placement,
    letters: Seq<u8>,
) -> Cell {
    let sh = p.hour_start(g);
    let sm = p.minute_start(g);
    let sa = p.ampm_start(g);
    if sh <= k < sh + h.len() {
        Cell { ch: h[k - sh], kind: TimeWords::Hour }
    } else if sm <= k < sm + m.len() {
        Cell { ch: m[k - sm], kind: TimeWords::Minute }
    } else if sa <= k < sa + ap.len() {
        Cell { ch: ap[k - sa], kind: TimeWords::AMPM }
    } else {
        Cell { ch: letter(letters[k] as int), kind: TimeWords::Others }
    }
}

/// The whole grid, in reading order.
pub open spec fn composed(
    h: Seq<char>,
    m: Seq<char>,
    ap: Seq<char>,
    g: int,
    p: Placement,
    letters: Seq<u8>,
) -> Seq<Cell> {
    Seq::new((g * g) as nat, |k: int| cell_at(k, h, m, ap, g, p, letters))
}

/// How many characters of a word that starts at `s` have been written
/// before position `k`.
pub open spec fn progress(k: int, s: int, len: int) -> int {
    if k <= s {
        0
    } else if k >= s + len {
        len
    } else {
        k - s
    }
}

/// Each word ends on the row it starts on, and so before the next anchor.
pub proof fn lemma_spans(p: Placement, g: int, lh: int, lm: int, la: int, wlen: int)
    requires
        valid_placement(p, g, wlen),
        0 < lh <= wlen,
        0 < lm <= wlen,
        0 < la <= 2,
        0 < wlen,
        4 <= g,
    ensures
        0 <= p.hour_start(g),
        p.hour_start(g) + lh < p.minute_start(g),
        p.minute_start(g) + lm < p.ampm_start(g),
        p.ampm_start(g) + la <= g * g,
{
    let hr = p.hour_row as int;
    let mr = p.minute_row as int;
    let ar = p.ampm_row as int;
    assert(0 <= hr * g) by (nonlinear_arith)
        requires 0 <= hr, 0 <= g;
    assert(hr * g + g <= mr * g) by (nonlinear_arith)
        requires hr + 1 <= mr, 0 <= g;
    assert(mr * g + g <= ar * g) by (nonlinear_arith)
        requires mr + 1 <= ar, 0 <= g;
    assert(ar * g + g <= g * g) by (nonlinear_arith)
        requires ar + 1 <= g, 0 <= g;
}

/// A (row, col) pair with col inside the grid names exactly one position.
proof fn lemma_flat_unique(i: int, j: int, row: int, col: int, g: int)
    requires
        0 <= i,
        0 <= j < g,
        0 <= row,
        0 <= col < g,
    ensures
        (i == row && j == col) <==> flat(i, j, g) == flat(row, col, g),
{
    if flat(i, j, g) == flat(row, col, g) {
        if i < row {
            assert(i * g + g <= row * g) by (nonlinear_arith)
                requires i + 1 <= row, 0 <= g;
        } else if i > row {
            assert(row * g + g <= i * g) by (nonlinear_arith)
                requires row + 1 <= i, 0 <= g;
        }
    }
}

/// What the scan is writing when it reaches position `k`: the word whose
/// last written character (or the cell after it) lies just before `k`.
pub open spec fn rendering_at(k: int, sh: int, lh: int, sm: int, lm: int, sa: int, la: int) -> TimeWords {
    if sh < k <= sh + lh {
        TimeWords::Hour
    } else if sm < k <= sm + lm {
        TimeWords::Minute
    } else if sa < k <= sa + la {
        TimeWords::AMPM
    } else {
        TimeWords::Others
    }
}

/// Lays the three words out in a `grid_size` by `grid_size` grid, scanning
/// it in reading order.
///
/// Each word starts at its anchor and runs on, uninterrupted, in reading
/// order. Once a word is written out, the anchor moves on to the next word.
/// Every other cell gets the decoy letter drawn for its position. All the
/// random choices are arguments, so the same arguments give the same grid.
pub fn compose_with(
    hour_word: &str,
    minute_word: &str,
    am_pm: &str,
    grid_size: usize,
    placement: Placement,
    letters: &Vec<u8>,
) -> (r: Grid)
    requires
        valid_words(hour_word@, minute_word@, am_pm@, grid_size as int),
        valid_placement(placement, grid_size as int, max_len(hour_word@, minute_word@)),
        valid_letters(letters@, grid_size as int),
    ensures
        r.size == grid_size,
        r.wf(),
        r@ == composed(hour_word@, minute_word@, am_pm@, grid_size as int, placement, letters@),
{
    let ghost h = hour_word@;
    let ghost m = minute_word@;
    let ghost ap = am_pm@;
    let ghost g = grid_size as int;
    let ghost p = placement;
    let ghost sh = placement.hour_start(g);
    let ghost sm = placement.minute_start(g);
    let ghost sa = placement.ampm_start(g);
    let lh = hour_word.unicode_len();
    let lm = minute_word.unicode_len();
    let la = am_pm.unicode_len();
    proof {
        lemma_spans(placement, g, lh as int, lm as int, la as int, max_len(h, m));
    }
    let total = letters.len();
    let mut done_h: usize = 0;
    let mut done_m: usize = 0;
    let mut done_a: usize = 0;
    let mut row = placement.hour_row;
    let mut col = placement.hour_col;
    let mut rendering = TimeWords::Others;
    let mut cells: Vec<Cell> = Vec::new();
    let mut i: usize = 0;
    let mut j: usize = 0;
    let mut k: usize = 0;
    while k < total
        invariant
            total == g * g,
            letters@.len() == total,
            valid_words(h, m, ap, g),
            valid_placement(p, g, max_len(h, m)),
            valid_letters(letters@, g),
            h == hour_word@,
            m == minute_word@,
            ap == am_pm@,
            g == grid_size,
            p == placement,
            sh == p.hour_start(g),
            sm == p.minute_start(g),
            sa == p.ampm_start(g),
            lh == h.len(),
            lm == m.len(),
            la == ap.len(),
            0 <= sh,
            sh + lh < sm,
            sm + lm < sa,
            sa + la <= total,
            k <= total,
            i * g + j == k,
            j < g,
            done_h == progress(k as int, sh, lh as int),
            done_m == progress(k as int, sm, lm as int),
            done_a == progress(k as int, sa, la as int),
            k <= sh + lh ==> row == p.hour_row && col == p.hour_col,
            sh + lh < k <= sm + lm ==> row == p.minute_row && col == p.minute_col,
            sm + lm < k ==> row == p.ampm_row && col == p.ampm_col,
            rendering == rendering_at(k as int, sh, lh as int, sm, lm as int, sa, la as int),
            cells@.len() == k,
            forall|t: int| 0 <= t < k ==> #[trigger] cells@[t] == cell_at(t, h, m, ap, g, p, letters@),
        decreases total - k,
    {
        proof {
            lemma_flat_unique(i as int, j as int, row as int, col as int, g);
            assert(i < g) by (nonlinear_arith)
                requires i * g + j == k, k < g * g, 0 <= j, 0 < g;
        }
        if done_h > 0 && done_h < lh {
            rendering = TimeWords::Hour;
        } else if done_m > 0 && done_m < lm {
            rendering = TimeWords::Minute;
        } else if done_a > 0 && done_a < la {
            rendering = TimeWords::AMPM;
        } else if i == row && j == col {
            if done_h == 0 {
                rendering = TimeWords::Hour;
            } else if done_m == 0 {
                rendering = TimeWords::Minute;
            } else if done_a == 0 {
                rendering = TimeWords::AMPM;
            }
        }
        match rendering {
            TimeWords::Hour => {
                if done_h < lh {
                    cells.push(Cell { ch: hour_word.get_char(done_h), kind: TimeWords::Hour });
                    done_h += 1;
                } else {
                    row = placement.minute_row;
                    col = placement.minute_col;
                    rendering = TimeWords::Others;
                }
            },
            TimeWords::Minute => {
                if done_m < lm {
                    cells.push(Cell { ch: minute_word.get_char(done_m), kind: TimeWords::Minute });
                    done_m += 1;
                } else {
                    row = placement.ampm_row;
                    col = placement.ampm_col;
                    rendering = TimeWords::Others;
                }
            },
            TimeWords::AMPM => {
                if done_a < la {
                    cells.push(Cell { ch: am_pm.get_char(done_a), kind: TimeWords::AMPM });
                    done_a += 1;
                } else {
                    rendering = TimeWords::Others;
                }
            },
            TimeWords::Others => {},
        }
        if rendering == TimeWords::Others {
            cells.push(Cell { ch: letter_at(letters[k]), kind: TimeWords::Others });
        }
        proof {
            assert(cells@[k as int] == cell_at(k as int, h, m, ap, g, p, letters@));
        }
        k += 1;
        j += 1;
        if j == grid_size {
            proof {
                assert((i + 1) * g == i * g + g) by (nonlinear_arith);
            }
            j = 0;
            i += 1;
        }
    }
    proof {
        assert(cells@ =~= composed(h, m, ap, g, p, letters@));
    }
    Grid { size: grid_size, cells }
}

/// The grid that `compose` may hand back: some placement and decoy letters,
/// each drawn from its range, laid out by the scan.
pub open spec fn is_composition(
    r: Seq<Cell>,
    h: Seq<char>,
    m: Seq<char>,
    ap: Seq<char>,
    g: int,
) -> bool {
    exists|p: Placement, letters: Seq<u8>|
        valid_placement(p, g, max_len(h, m)) && valid_letters(letters, g) && r == composed(
            h,
            m,
            ap,
            g,
            p,
            letters,
        )
}

/// Lays the three words out in a fresh grid at random: draws the hour
/// anchor, the later anchors each on a row below the one before, and one
/// decoy letter per cell, then scans the grid with `compose_with`.
pub fn compose(hour_word: &str, minute_word: &str, am_pm: &str, grid_size: usize) -> (r: Grid)
    requires
        valid_words(hour_word@, minute_word@, am_pm@, grid_size as int),
        grid_size * grid_size <= usize::MAX,
    ensures
        r.size == grid_size,
        r.wf(),
        is_composition(r@, hour_word@, minute_word@, am_pm@, grid_size as int),
{
    let lh = hour_word.unicode_len();
    let lm = minute_word.unicode_len();
    let wlen = if lh >= lm {
        lh
    } else {
        lm
    };
    let third = grid_size / 3;
    let hour_row = random_in(0, third);
    let hour_col = random_in(0, grid_size - wlen);
    let minute_col = random_in(0, grid_size - wlen);
    let minute_row = random_in(hour_row + 1, grid_size - third - 1);
    let ampm_col = random_in(0, grid_size - wlen);
    let ampm_row = random_in(minute_row + 1, grid_size);
    let placement = Placement { hour_row, hour_col, minute_row, minute_col, ampm_row, ampm_col };
    let total = grid_size * grid_size;
    let mut letters: Vec<u8> = Vec::new();
    while letters.len() < total
        invariant
            letters@.len() <= total,
            forall|k: int| 0 <= k < letters@.len() ==> #[trigger] letters@[k] < 26,
        decreases total - letters@.len(),
    {
        let d = random_in(0, ALPHABET_LEN);
        letters.push(d as u8);
    }
    let r = compose_with(hour_word, minute_word, am_pm, grid_size, placement, &letters);
    assert(valid_placement(placement, grid_size as int, max_len(hour_word@, minute_word@)));
    assert(valid_letters(letters@, grid_size as int));
    r
}

/// The number of cells that hold a letter of a time word.
pub open spec fn word_cells(cells: Seq<Cell>) -> nat
    decreases cells.len(),
{
    if cells.len() == 0 {
        0
    } else {
        word_cells(cells.drop_last()) + if cells.last().kind == TimeWords::Others {
            0nat
        } else {
            1nat
        }
    }
}

/// The words come in a fixed order, hour before minute before marker,
/// without overlap, and all of them inside the grid.
pub proof fn lemma_words_in_order(
    h: Seq<char>,
    m: Seq<char>,
    ap: Seq<char>,
    g: int,
    p: Placement,
)
    requires
        valid_words(h, m, ap, g),
        valid_placement(p, g, max_len(h, m)),
    ensures
        0 <= p.hour_start(g),
        p.hour_start(g) + h.len() <= p.minute_start(g),
        p.minute_start(g) + m.len() <= p.ampm_start(g),
        p.ampm_start(g) + ap.len() <= g * g,
{
    lemma_spans(p, g, h.len() as int, m.len() as int, ap.len() as int, max_len(h, m));
}

/// Each word is written exactly once, in one unbroken run: the cells from
/// its start spell it out, and no other cell is labelled with its kind.
pub proof fn lemma_each_word_once(
    h: Seq<char>,
    m: Seq<char>,
    ap: Seq<char>,
    g: int,
    p: Placement,
    letters: Seq<u8>,
)
    requires
        valid_words(h, m, ap, g),
        valid_placement(p, g, max_len(h, m)),
        valid_letters(letters, g),
    ensures
        ({
            let r = composed(h, m, ap, g, p, letters);
            let sh = p.hour_start(g);
            let sm = p.minute_start(g);
            let sa = p.ampm_start(g);
            &&& forall|i: int|
                0 <= i < h.len() ==> #[trigger] r[sh + i] == Cell { ch: h[i], kind: TimeWords::Hour }
            &&& forall|i: int|
                0 <= i < m.len() ==> #[trigger] r[sm + i] == Cell {
                    ch: m[i],
                    kind: TimeWords::Minute,
                }
            &&& forall|i: int|
                0 <= i < ap.len() ==> #[trigger] r[sa + i] == Cell { ch: ap[i], kind: TimeWords::AMPM }
            &&& forall|k: int|
                0 <= k < r.len() && #[trigger] r[k].kind == TimeWords::Hour ==> sh <= k < sh + h.len()
            &&& forall|k: int|
                0 <= k < r.len() && #[trigger] r[k].kind == TimeWords::Minute ==> sm <= k < sm
                    + m.len()
            &&& forall|k: int|
                0 <= k < r.len() && #[trigger] r[k].kind == TimeWords::AMPM ==> sa <= k < sa
                    + ap.len()
        }),
{
    lemma_spans(p, g, h.len() as int, m.len() as int, ap.len() as int, max_len(h, m));
}

/// Counting the word cells of the first `n` cells of the grid.
proof fn lemma_word_cells_prefix(
    h: Seq<char>,
    m: Seq<char>,
    ap: Seq<char>,
    g: int,
    p: Placement,
    letters: Seq<u8>,
    n: int,
)
    requires
        valid_words(h, m, ap, g),
        valid_placement(p, g, max_len(h, m)),
        valid_letters(letters, g),
        0 <= n <= g * g,
    ensures
        word_cells(composed(h, m, ap, g, p, letters).take(n)) == progress(
            n,
            p.hour_start(g),
            h.len() as int,
        ) + progress(n, p.minute_start(g), m.len() as int) + progress(
            n,
            p.ampm_start(g),
            ap.len() as int,
        ),
    decreases n,
{
    lemma_spans(p, g, h.len() as int, m.len() as int, ap.len() as int, max_len(h, m));
    let r = composed(h, m, ap, g, p, letters);
    if n > 0 {
        lemma_word_cells_prefix(h, m, ap, g, p, letters, n - 1);
        assert(r.take(n).drop_last() =~= r.take(n - 1));
        assert(r.take(n).last() == r[n - 1]);
    } else {
        assert(r.take(n).len() == 0);
    }
}

/// The grid has `g * g` cells, and exactly as many of them hold a word
/// letter as the three words have characters.
pub proof fn lemma_word_cell_count(
    h: Seq<char>,
    m: Seq<char>,
    ap: Seq<char>,
    g: int,
    p: Placement,
    letters: Seq<u8>,
)
    requires
        valid_words(h, m, ap, g),
        valid_placement(p, g, max_len(h, m)),
        valid_letters(letters, g),
    ensures
        composed(h, m, ap, g, p, letters).len() == g * g,
        word_cells(composed(h, m, ap, g, p, letters)) == h.len() + m.len() + ap.len(),
{
    lemma_spans(p, g, h.len() as int, m.len() as int, ap.len() as int, max_len(h, m));
    let r = composed(h, m, ap, g, p, letters);
    assert(0 <= g * g) by (nonlinear_arith)
        requires 0 <= g;
    lemma_word_cells_prefix(h, m, ap, g, p, letters, g * g);
    assert(r.take(g * g) =~= r);
}

/// Every decoy cell holds a capital letter from A to Z.
pub proof fn lemma_decoys_are_capitals(
    h: Seq<char>,
    m: Seq<char>,
    ap: Seq<char>,
    g: int,
    p: Placement,
    letters: Seq<u8>,
)
    requires
        valid_words(h, m, ap, g),
        valid_placement(p, g, max_len(h, m)),
        valid_letters(letters, g),
    ensures
        forall|k: int|
            0 <= k < g * g && (#[trigger] composed(h, m, ap, g, p, letters)[k]).kind
                == TimeWords::Others ==> 'A' <= composed(h, m, ap, g, p, letters)[k].ch <= 'Z',
{
    assert forall|k: int|
        0 <= k < g * g && (#[trigger] composed(h, m, ap, g, p, letters)[k]).kind
            == TimeWords::Others implies 'A' <= composed(h, m, ap, g, p, letters)[k].ch <= 'Z' by {
        assert(letters[k] < 26);
    }
}

} // verus!
