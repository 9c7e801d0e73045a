//! A falling stream of glyphs in one terminal column.

use crate::palette::{fade_tier, lemma_only_head_is_head, style_for_tier, sparkle_style, terminal_style, tier_of, CellStyle};
use crate::random::{chance, chance_draws, random_between};
use vstd::prelude::*;

verus! {

pub const MIN_STREAM_LENGTH: usize = 5;
pub const MAX_STREAM_LENGTH: usize = 42;
pub const STREAM_SPEED_MIN: u32 = 1;
pub const STREAM_SPEED_MAX: u32 = 8;
/// The base chance per frame that an idle glyph glitches, in millionths.
pub const GLITCH_RATE_PPM: u32 = 5000;
pub const GLITCH_DURATION_MIN: u32 = 15;
pub const GLITCH_DURATION_MAX: u32 = 40;
/// The chance that a glyph behind the head sparkles in a frame, in ten-thousandths.
pub const SPARKLE_PER_10K: u32 = 4;

/// The smallest and largest glitch rate a stream can get, in millionths:
/// half and (just under) twice the base rate.
pub open spec fn glitch_rate_ok(r: u32) -> bool {
    GLITCH_RATE_PPM / 2 <= r < 2 * GLITCH_RATE_PPM
}

/// A stream of glyphs falling down column `col` of a screen `height` rows high.
/// `y` is the row of its head (negative while still above the screen); the
/// glyph `chars[i]` is drawn `i` rows above the head. The stream moves down one
/// row every `speed` frames, counted by `counter`.
pub struct RainStream {
    pub col: u16,
    pub height: u16,
    pub max_len: usize,
    pub min_len: usize,
    pub length: usize,
    pub y: i32,
    pub speed: u32,
    pub chars: Vec<char>,
    pub glitch_ttl: Vec<u32>,
    pub counter: u32,
    /// Chance per frame that an idle glyph glitches, in millionths.
    pub glitch_rate: u32,
    pub charset: Vec<char>,
}

/// The lowest head row a stream can have: a fresh stream starts at most
/// `length + 5` rows above the screen.
pub open spec fn y_floor() -> int {
    -(MAX_STREAM_LENGTH as int) - 5
}

/// The highest head row a stream can have: it is reset once its head passes
/// `height + length + 2` rows.
pub open spec fn y_ceiling() -> int {
    u16::MAX as int + MAX_STREAM_LENGTH as int + 2
}

/// How one glyph and its glitch counter change in a frame: a glitching glyph
/// counts down, and is redrawn when its count runs out; an idle glyph either
/// stays as it is or is redrawn and glitches for a drawn number of frames.
pub open spec fn glitch_step(t0: u32, c0: char, t1: u32, c1: char) -> bool {
    if t0 > 0 {
        &&& t1 == t0 - 1
        &&& t1 > 0 ==> c1 == c0
    } else {
        ||| (t1 == 0 && c1 == c0)
        ||| GLITCH_DURATION_MIN <= t1 <= GLITCH_DURATION_MAX
    }
}

/// Glyphs `c1` with counters `t1` are what one frame of glitching makes of
/// glyphs `c0` with counters `t0`, position by position.
pub open spec fn glitched(c0: Seq<char>, t0: Seq<u32>, c1: Seq<char>, t1: Seq<u32>) -> bool {
    &&& c0.len() == t0.len()
    &&& c1.len() == c0.len()
    &&& t1.len() == t0.len()
    &&& forall|k: int| 0 <= k < c0.len() ==> glitch_step(#[trigger] t0[k], c0[k], t1[k], c1[k])
}

/// The bound on the length of a stream on a screen `height` rows high: one
/// less than the height, at most `MAX_STREAM_LENGTH`. A fresh stream raises
/// it to its smallest length where it falls below.
pub open spec fn spec_max_len(height: int) -> int {
    if height - 1 < MAX_STREAM_LENGTH { height - 1 } else { MAX_STREAM_LENGTH as int }
}

/// The smallest length of a stream whose largest length is `max_len`.
pub open spec fn spec_min_len(max_len: int) -> int {
    let m = if (MIN_STREAM_LENGTH as int) < max_len { MIN_STREAM_LENGTH as int } else { max_len };
    if m >= 3 { m } else { 3 }
}

/// A glyph to print at `row` and `col`.
#[derive(Clone, Copy, Debug, PartialEq, Eq)]
pub struct GlyphCell {
    pub row: u16,
    pub col: u16,
    pub ch: char,
    pub style: CellStyle,
}

/// `(row, col)` lies in the rectangle `(top, left, bottom, right)`, borders
/// included.
pub open spec fn in_rect(row: int, col: int, r: (u16, u16, u16, u16)) -> bool {
    &&& r.0 <= row <= r.2
    &&& r.1 <= col <= r.3
}

/// Glyph `i` of stream `s` is on the screen and outside the region `exclude`.
pub open spec fn glyph_visible(s: RainStream, i: int, exclude: Option<(u16, u16, u16, u16)>) -> bool {
    let row = s.y - i;
    &&& 0 <= row < s.height
    &&& !(exclude matches Some(r) && in_rect(row, s.col as int, r))
}

/// The indices below `upto` of the glyphs of `s` that are drawn, in order.
pub open spec fn drawn_indices(s: RainStream, exclude: Option<(u16, u16, u16, u16)>, upto: int) -> Seq<int>
    decreases upto,
{
    if upto <= 0 {
        seq![]
    } else if glyph_visible(s, upto - 1, exclude) {
        drawn_indices(s, exclude, upto - 1).push(upto - 1)
    } else {
        drawn_indices(s, exclude, upto - 1)
    }
}

/// Cell `c` prints glyph `i` of stream `s`: at the glyph's row in the
/// stream's column, with the glyph's tier style or, behind the head, the
/// sparkle style.
pub open spec fn cell_of(s: RainStream, c: GlyphCell, i: int) -> bool {
    &&& 0 <= i < s.chars@.len()
    &&& c.row == s.y - i
    &&& c.col == s.col
    &&& c.ch == s.chars@[i]
    &&& (c.style == terminal_style(tier_of(i, s.chars@.len() as int)) || (i > 0 && c.style
        == sparkle_style()))
}

/// Stream `new` is what one frame makes of stream `old`: its column, screen,
/// length bounds and character set stay. Before its head is due to move, only
/// the frame counter advances and the glyphs take a glitch step. When the head
/// moves and has passed the bottom by the stream's length and two rows, the
/// stream is reset; otherwise its head moves down a row, a new glyph enters
/// at the head, the tail is cut to the stream's length, and the glyphs take a
/// glitch step.
pub open spec fn advanced(old: RainStream, new: RainStream) -> bool {
    &&& new.col == old.col
    &&& new.height == old.height
    &&& new.max_len == old.max_len
    &&& new.min_len == old.min_len
    &&& new.charset@ == old.charset@
    &&& if old.counter + 1 < old.speed {
        &&& new.y == old.y
        &&& new.counter == old.counter + 1
        &&& new.speed == old.speed
        &&& new.length == old.length
        &&& new.glitch_rate == old.glitch_rate
        &&& glitched(old.chars@, old.glitch_ttl@, new.chars@, new.glitch_ttl@)
    } else if old.y + 1 >= old.height + old.length + 2 {
        new.is_reset_of(old)
    } else {
        let n = new.chars@.len();
        &&& new.y == old.y + 1
        &&& new.counter == 0
        &&& new.speed == old.speed
        &&& new.length == old.length
        &&& new.glitch_rate == old.glitch_rate
        &&& n == (if old.chars@.len() < old.length {
            old.chars@.len() + 1
        } else {
            old.length as nat
        })
        &&& (new.glitch_ttl@[0] == 0 || GLITCH_DURATION_MIN <= new.glitch_ttl@[0] <= GLITCH_DURATION_MAX)
        &&& glitched(
            old.chars@.take(n - 1),
            old.glitch_ttl@.take(n - 1),
            new.chars@.skip(1),
            new.glitch_ttl@.skip(1),
        )
    }
}

/// One frame of a stream, said by its head row: before the head is due to
/// move it stays put; when it moves, the stream goes on one row down, with
/// its length and its glyphs (shifted one row, a new one at the head) kept,
/// unless its head has passed the bottom by its length plus two rows, so
/// that its whole tail has left the screen: only then is it reset, to a head
/// above the screen.
pub proof fn lemma_update_resets_only_past_the_tail(old: RainStream, new: RainStream)
    requires
        old.wf(),
        advanced(old, new),
    ensures
        old.counter + 1 < old.speed ==> new.y == old.y && new.length == old.length,
        old.counter + 1 >= old.speed && old.y + 1 < old.height + old.length + 2 ==> {
            &&& new.y == old.y + 1
            &&& new.length == old.length
            &&& new.counter == 0
            &&& new.chars@.len() == (if old.chars@.len() < old.length { old.chars@.len() + 1 } else { old.length as nat })
        },
        old.counter + 1 >= old.speed && old.y + 1 >= old.height + old.length + 2 ==> new.y < 0,
        new.y >= 0 ==> new.y == old.y || new.y == old.y + 1,
        old.y - (old.length as int) < old.height - 1 && old.counter + 1 >= old.speed ==> new.y == old.y + 1,
{
}

/// `cells` is a plan for stream `s`: one cell for each glyph drawn outside
/// `exclude`, head first.
pub open spec fn planned(s: RainStream, exclude: Option<(u16, u16, u16, u16)>, cells: Seq<GlyphCell>) -> bool {
    let idx = drawn_indices(s, exclude, s.chars@.len() as int);
    &&& cells.len() == idx.len()
    &&& forall|k: int| 0 <= k < cells.len() ==> cell_of(s, #[trigger] cells[k], idx[k])
}

/// Every index `drawn_indices` lists is a visible glyph below `upto`, and the
/// list is in increasing order.
pub proof fn lemma_drawn_indices_visible(s: RainStream, exclude: Option<(u16, u16, u16, u16)>, upto: int)
    ensures
        forall|k: int| 0 <= k < drawn_indices(s, exclude, upto).len() ==> {
            let i = #[trigger] drawn_indices(s, exclude, upto)[k];
            &&& 0 <= i < upto
            &&& glyph_visible(s, i, exclude)
        },
        forall|a: int, b: int| 0 <= a < b < drawn_indices(s, exclude, upto).len() ==> #[trigger] drawn_indices(s, exclude, upto)[a]
            < #[trigger] drawn_indices(s, exclude, upto)[b],
    decreases upto,
{
    if upto > 0 {
        lemma_drawn_indices_visible(s, exclude, upto - 1);
        let prev = drawn_indices(s, exclude, upto - 1);
        let cur = drawn_indices(s, exclude, upto);
        if glyph_visible(s, upto - 1, exclude) {
            assert(cur == prev.push(upto - 1));
            assert forall|k: int| 0 <= k < cur.len() implies {
                let i = #[trigger] cur[k];
                &&& 0 <= i < upto
                &&& glyph_visible(s, i, exclude)
            } by {
                if k < prev.len() {
                    assert(cur[k] == prev[k]);
                }
            }
            assert forall|a: int, b: int| 0 <= a < b < cur.len() implies #[trigger] cur[a] < #[trigger] cur[b] by {
                assert(cur[a] == prev[a]);
                if b < prev.len() {
                    assert(cur[b] == prev[b]);
                } else {
                    assert(prev[a] < upto - 1);
                }
            }
        } else {
            assert(cur == prev);
        }
    }
}

/// `cells` is a plan for stream `s` in which a glyph behind the head
/// sparkles exactly when its draw in `draws` came out true: the cell on row
/// `s.y - i` shows the sparkle style when `i > 0` and `draws[i]`, and the
/// style of its tier otherwise.
pub open spec fn planned_with_draws(
    s: RainStream,
    exclude: Option<(u16, u16, u16, u16)>,
    draws: Seq<bool>,
    cells: Seq<GlyphCell>,
) -> bool {
    &&& planned(s, exclude, cells)
    &&& forall|k: int| #![trigger cells[k]] 0 <= k < cells.len() ==> {
        let i = s.y - cells[k].row;
        cells[k].style == (if i > 0 && draws[i] {
            sparkle_style()
        } else {
            terminal_style(tier_of(i, s.chars@.len() as int))
        })
    }
}

/// In a plan drawn with `draws`, a glyph behind the head is printed white
/// like the head exactly when its draw came out true; with no draw true the
/// stream keeps its theme colours and its fade.
pub proof fn lemma_sparkle_exactly_on_draw(
    s: RainStream,
    exclude: Option<(u16, u16, u16, u16)>,
    draws: Seq<bool>,
    cells: Seq<GlyphCell>,
)
    requires
        planned_with_draws(s, exclude, draws, cells),
    ensures
        forall|k: int| #![trigger cells[k]] 0 <= k < cells.len() && s.y - cells[k].row > 0 ==> (cells[k].style
            == sparkle_style() <==> draws[s.y - cells[k].row]),
        forall|k: int| #![trigger cells[k]] 0 <= k < cells.len() && !draws[s.y - cells[k].row] ==> cells[k].style
            == terminal_style(tier_of(s.y - cells[k].row, s.chars@.len() as int)),
{
    assert forall|k: int| #![trigger cells[k]] 0 <= k < cells.len() && s.y - cells[k].row > 0 implies (
    cells[k].style == sparkle_style() <==> draws[s.y - cells[k].row]) by {
        let idx = drawn_indices(s, exclude, s.chars@.len() as int);
        assert(cell_of(s, cells[k], idx[k]));
        lemma_only_head_is_head(s.y - cells[k].row, s.chars@.len() as int);
    }
}

/// A plan only prints cells on the screen, outside the excluded region, in
/// the stream's column, head first.
pub proof fn lemma_planned_cells_on_screen(s: RainStream, exclude: Option<(u16, u16, u16, u16)>, cells: Seq<GlyphCell>)
    requires
        planned(s, exclude, cells),
    ensures
        forall|k: int| 0 <= k < cells.len() ==> {
            &&& (#[trigger] cells[k]).row < s.height
            &&& cells[k].col == s.col
            &&& !(exclude matches Some(r) && in_rect(cells[k].row as int, cells[k].col as int, r))
        },
        forall|a: int, b: int| 0 <= a < b < cells.len() ==> #[trigger] cells[a].row > #[trigger] cells[b].row,
{
    lemma_drawn_indices_visible(s, exclude, s.chars@.len() as int);
}

impl RainStream {
    /// The invariant of a stream.
    pub open spec fn wf(&self) -> bool {
        &&& self.charset@.len() > 0
        &&& 3 <= self.min_len <= MIN_STREAM_LENGTH
        &&& self.max_len <= MAX_STREAM_LENGTH
        &&& 3 <= self.length <= MAX_STREAM_LENGTH
        &&& 1 <= self.chars@.len() <= self.length
        &&& self.glitch_ttl@.len() == self.chars@.len()
        &&& (forall|k: int| 0 <= k < self.chars@.len() ==> self.charset@.contains(#[trigger] self.chars@[k]))
        &&& (forall|k: int| 0 <= k < self.glitch_ttl@.len() ==> #[trigger] self.glitch_ttl@[k] <= GLITCH_DURATION_MAX)
        &&& STREAM_SPEED_MIN <= self.speed <= STREAM_SPEED_MAX
        &&& self.counter < self.speed
        &&& y_floor() <= self.y < y_ceiling()
        &&& glitch_rate_ok(self.glitch_rate)
    }

    /// The length a reset gives a stream: drawn from `min_len..=max_len` when
    /// that range holds more than one value, else `min_len`.
    pub open spec fn length_ok(&self, length: int) -> bool {
        if self.min_len < self.max_len {
            self.min_len <= length <= self.max_len
        } else {
            length == self.min_len
        }
    }

    /// `self` is what a reset made of `prev`: the column, screen, length
    /// bounds and character set stay; a length, a start row above the screen,
    /// a speed, a glitch rate and between one and half the length (at least
    /// one) fresh glyphs are drawn, none of them glitching.
    pub open spec fn is_reset_of(&self, prev: RainStream) -> bool {
        &&& self.col == prev.col
        &&& self.height == prev.height
        &&& self.max_len == prev.max_len
        &&& self.min_len == prev.min_len
        &&& self.charset@ == prev.charset@
        &&& prev.length_ok(self.length as int)
        &&& -(self.length as int) - 5 <= self.y <= -1
        &&& STREAM_SPEED_MIN <= self.speed <= STREAM_SPEED_MAX
        &&& 1 <= self.chars@.len() <= (if self.length / 2 >= 1 { self.length / 2 } else { 1 })
        &&& self.glitch_ttl@.len() == self.chars@.len()
        &&& (forall|k: int| 0 <= k < self.glitch_ttl@.len() ==> #[trigger] self.glitch_ttl@[k] == 0)
        &&& (forall|k: int| 0 <= k < self.chars@.len() ==> self.charset@.contains(#[trigger] self.chars@[k]))
        &&& self.counter == 0
        &&& glitch_rate_ok(self.glitch_rate)
    }

    /// A glyph of the character set, drawn at random.
    pub fn rand_char(&self) -> (c: char)
        requires
            self.charset@.len() > 0,
        ensures
            self.charset@.contains(c),
    {
        let n = self.charset.len();
        let k = random_between(0, (n - 1) as u64) as usize;
        let c = self.charset[k];
        assert(self.charset@[k as int] == c);
        c
    }

    /// The cells to print for this stream: one for each glyph that is on the
    /// screen and outside `exclude`, head first. A glyph is shaded by its
    /// tier, except that a glyph behind the head sparkles white when a draw
    /// with a chance of `SPARKLE_PER_10K` in ten thousand comes out true.
    pub fn plan_cells(&self, exclude: Option<(u16, u16, u16, u16)>) -> (cells: Vec<GlyphCell>)
        requires
            self.wf(),
        ensures
            planned(*self, exclude, cells@),
            exists|draws: Seq<bool>| draws.len() == self.chars@.len() && planned_with_draws(*self, exclude, draws, cells@),
    {
        let draws = chance_draws(self.chars.len(), SPARKLE_PER_10K, 10_000);
        self.plan_cells_with(exclude, &draws)
    }

    /// The cells to print for this stream, as `plan_cells` says, where glyph
    /// `i` behind the head sparkles exactly when `draws[i]` is true.
    pub fn plan_cells_with(&self, exclude: Option<(u16, u16, u16, u16)>, draws: &Vec<bool>) -> (cells: Vec<
        GlyphCell,
    >)
        requires
            self.wf(),
            draws@.len() == self.chars@.len(),
        ensures
            planned_with_draws(*self, exclude, draws@, cells@),
    {
        let n = self.chars.len();
        let mut cells: Vec<GlyphCell> = Vec::new();
        let mut i: usize = 0;
        while i < n
            invariant
                self.wf(),
                n == self.chars@.len(),
                i <= n,
                draws@.len() == n,
                ({
                    let idx = drawn_indices(*self, exclude, i as int);
                    &&& cells@.len() == idx.len()
                    &&& forall|k: int| 0 <= k < cells@.len() ==> cell_of(*self, #[trigger] cells@[k], idx[k])
                    &&& forall|k: int| #![trigger cells@[k]] 0 <= k < cells@.len() ==> {
                        let j = self.y - cells@[k].row;
                        cells@[k].style == (if j > 0 && draws@[j] {
                            sparkle_style()
                        } else {
                            terminal_style(tier_of(j, n as int))
                        })
                    }
                }),
            decreases n - i,
        {
            let cy: i32 = self.y - i as i32;
            let on_screen = cy >= 0 && cy < self.height as i32;
            let mut shown = on_screen;
            if on_screen {
                let row = cy as u16;
                if let Some((y1, x1, y2, x2)) = exclude {
                    if row >= y1 && row <= y2 && self.col >= x1 && self.col <= x2 {
                        shown = false;
                    }
                }
            }
            assert(shown == glyph_visible(*self, i as int, exclude));
            let ghost old_cells = cells@;
            if shown {
                let row = cy as u16;
                let tier = fade_tier(i, n);
                let sparkle = i > 0 && draws[i];
                let style = if sparkle {
                    CellStyle { ink: crate::palette::Ink::White, bold: true }
                } else {
                    style_for_tier(tier)
                };
                let cell = GlyphCell { row, col: self.col, ch: self.glyph(i), style };
                cells.push(cell);
            }
            proof {
                let idx0 = drawn_indices(*self, exclude, i as int);
                let idx1 = drawn_indices(*self, exclude, i + 1);
                if shown {
                    assert(idx1 == idx0.push(i as int));
                } else {
                    assert(idx1 == idx0);
                }
                assert forall|k: int| 0 <= k < cells@.len() implies cell_of(*self, #[trigger] cells@[k], idx1[k]) by {
                    if k < old_cells.len() {
                        assert(cells@[k] == old_cells[k]);
                        assert(idx1[k] == idx0[k]);
                    }
                }
                assert forall|k: int| #![trigger cells@[k]] 0 <= k < cells@.len() implies ({
                    let j = self.y - cells@[k].row;
                    cells@[k].style == (if j > 0 && draws@[j] {
                        sparkle_style()
                    } else {
                        terminal_style(tier_of(j, n as int))
                    })
                }) by {
                    if k < old_cells.len() {
                        assert(cells@[k] == old_cells[k]);
                    }
                }
            }
            i = i + 1;
        }
        proof {
            assert(drawn_indices(*self, exclude, n as int).len() == cells@.len());
        }
        cells
    }

    /// Glyph `i` of the stream.
    pub fn glyph(&self, i: usize) -> (c: char)
        requires
            i < self.chars@.len(),
        ensures
            c == self.chars@[i as int],
    {
        self.chars[i]
    }

    /// Draws a new length, start row, speed, glyphs and glitch rate.
    pub fn reset(&mut self)
        requires
            old(self).charset@.len() > 0,
            3 <= old(self).min_len <= MIN_STREAM_LENGTH,
            old(self).max_len <= MAX_STREAM_LENGTH,
        ensures
            final(self).wf(),
            final(self).is_reset_of(*old(self)),
    {
        self.length = if self.min_len < self.max_len {
            random_between(self.min_len as u64, self.max_len as u64) as usize
        } else {
            self.min_len
        };
        let above = random_between(0, (self.length + 4) as u64) as i32;
        self.y = -1 - above;
        self.speed = random_between(STREAM_SPEED_MIN as u64, STREAM_SPEED_MAX as u64) as u32;
        let half: usize = if self.length / 2 >= 1 { self.length / 2 } else { 1 };
        let count = random_between(1, half as u64) as usize;
        let mut chars: Vec<char> = Vec::new();
        let mut ttl: Vec<u32> = Vec::new();
        let mut k: usize = 0;
        while k < count
            invariant
                k <= count,
                chars@.len() == k,
                ttl@.len() == k,
                self.charset@.len() > 0,
                forall|j: int| 0 <= j < chars@.len() ==> self.charset@.contains(#[trigger] chars@[j]),
                forall|j: int| 0 <= j < ttl@.len() ==> #[trigger] ttl@[j] == 0,
            decreases count - k,
        {
            let c = self.rand_char();
            chars.push(c);
            ttl.push(0);
            k = k + 1;
        }
        self.chars = chars;
        self.glitch_ttl = ttl;
        self.counter = 0;
        self.glitch_rate = random_between((GLITCH_RATE_PPM / 2) as u64, (2 * GLITCH_RATE_PPM - 1) as u64) as u32;
    }

    /// A fresh stream in column `col` of a screen `height` rows high.
    pub fn new(col: u16, height: u16, charset: Vec<char>) -> (s: RainStream)
        requires
            height >= 1,
            charset@.len() > 0,
        ensures
            s.wf(),
            s.col == col,
            s.height == height,
            s.charset@ == charset@,
            s.min_len == spec_min_len(spec_max_len(height as int)),
            s.max_len == (if spec_max_len(height as int) >= s.min_len {
                spec_max_len(height as int)
            } else {
                s.min_len as int
            }),
            s.is_reset_of(s),
    {
        let h1: usize = height as usize - 1;
        let max_len: usize = if h1 < MAX_STREAM_LENGTH { h1 } else { MAX_STREAM_LENGTH };
        let m: usize = if MIN_STREAM_LENGTH < max_len { MIN_STREAM_LENGTH } else { max_len };
        let min_len: usize = if m >= 3 { m } else { 3 };
        let max_len: usize = if max_len >= min_len { max_len } else { min_len };
        let mut s = RainStream {
            col,
            height,
            max_len,
            min_len,
            length: 0,
            y: 0,
            speed: 0,
            chars: Vec::new(),
            glitch_ttl: Vec::new(),
            counter: 0,
            glitch_rate: 0,
            charset,
        };
        s.reset();
        s
    }

    /// Advances the stream by one frame. Every `speed` frames the head moves
    /// down a row: a stream whose head passed the bottom by its length and two
    /// rows is reset, else a drawn glyph enters at the head and the tail glyph
    /// beyond `length` leaves. Then every glyph takes a glitch step.
    pub fn update(&mut self)
        requires
            old(self).wf(),
        ensures
            final(self).wf(),
            advanced(*old(self), *final(self)),
            old(self).counter + 1 >= old(self).speed && old(self).y + 1 < old(self).height + old(self).length + 2
                ==> final(self).y == old(self).y + 1,
            old(self).counter + 1 >= old(self).speed && old(self).y + 1 >= old(self).height + old(self).length + 2
                ==> final(self).y < 0,
            old(self).counter + 1 < old(self).speed ==> final(self).y == old(self).y,
    {
        self.counter = self.counter + 1;
        if self.counter >= self.speed {
            self.y = self.y + 1;
            self.counter = 0;
            if self.y >= self.height as i32 + self.length as i32 + 2 {
                self.reset();
                return;
            }
            let c = self.rand_char();
            self.chars.insert(0, c);
            self.glitch_ttl.insert(0, 0);
            if self.chars.len() > self.length {
                self.chars.pop();
                self.glitch_ttl.pop();
            }
            let ghost mid_c = self.chars@;
            let ghost mid_t = self.glitch_ttl@;
            let ghost n = mid_c.len();
            assert(mid_c.skip(1) =~= old(self).chars@.take(n - 1));
            assert(mid_t.skip(1) =~= old(self).glitch_ttl@.take(n - 1));
            assert(mid_t[0] == 0);
            self.glitch_all();
            proof {
                assert forall|k: int| 0 <= k < n - 1 implies glitch_step(
                    #[trigger] old(self).glitch_ttl@.take(n - 1)[k],
                    old(self).chars@.take(n - 1)[k],
                    self.glitch_ttl@.skip(1)[k],
                    self.chars@.skip(1)[k],
                ) by {
                    assert(glitch_step(mid_t[k + 1], mid_c[k + 1], self.glitch_ttl@[k + 1], self.chars@[k + 1]));
                    assert(mid_t.skip(1)[k] == mid_t[k + 1]);
                    assert(mid_c.skip(1)[k] == mid_c[k + 1]);
                }
                assert(glitch_step(mid_t[0], mid_c[0], self.glitch_ttl@[0], self.chars@[0]));
            }
        } else {
            self.glitch_all();
        }
    }

    /// One frame of glitching for every glyph, as `glitch_step` says.
    fn glitch_all(&mut self)
        requires
            old(self).charset@.len() > 0,
            old(self).chars@.len() == old(self).glitch_ttl@.len(),
            forall|k: int| 0 <= k < old(self).chars@.len() ==> old(self).charset@.contains(#[trigger] old(self).chars@[k]),
            forall|k: int| 0 <= k < old(self).glitch_ttl@.len() ==> #[trigger] old(self).glitch_ttl@[k] <= GLITCH_DURATION_MAX,
            glitch_rate_ok(old(self).glitch_rate),
        ensures
            glitched(old(self).chars@, old(self).glitch_ttl@, final(self).chars@, final(self).glitch_ttl@),
            forall|k: int| 0 <= k < final(self).chars@.len() ==> final(self).charset@.contains(#[trigger] final(self).chars@[k]),
            forall|k: int| 0 <= k < final(self).glitch_ttl@.len() ==> #[trigger] final(self).glitch_ttl@[k] <= GLITCH_DURATION_MAX,
            final(self).col == old(self).col,
            final(self).height == old(self).height,
            final(self).max_len == old(self).max_len,
            final(self).min_len == old(self).min_len,
            final(self).length == old(self).length,
            final(self).y == old(self).y,
            final(self).speed == old(self).speed,
            final(self).counter == old(self).counter,
            final(self).glitch_rate == old(self).glitch_rate,
            final(self).charset@ == old(self).charset@,
    {
        let ghost c0 = self.chars@;
        let ghost t0 = self.glitch_ttl@;
        let n = self.chars.len();
        let mut i: usize = 0;
        while i < n
            invariant
                i <= n,
                n == c0.len(),
                c0.len() == t0.len(),
                self.chars@.len() == n,
                self.glitch_ttl@.len() == n,
                self.charset@.len() > 0,
                self.charset@ == old(self).charset@,
                c0 == old(self).chars@,
                t0 == old(self).glitch_ttl@,
                glitch_rate_ok(self.glitch_rate),
                self.col == old(self).col,
                self.height == old(self).height,
                self.max_len == old(self).max_len,
                self.min_len == old(self).min_len,
                self.length == old(self).length,
                self.y == old(self).y,
                self.speed == old(self).speed,
                self.counter == old(self).counter,
                self.glitch_rate == old(self).glitch_rate,
                forall|k: int| 0 <= k < i ==> glitch_step(#[trigger] t0[k], c0[k], self.glitch_ttl@[k], self.chars@[k]),
                forall|k: int| i <= k < n ==> #[trigger] self.glitch_ttl@[k] == t0[k],
                forall|k: int| i <= k < n ==> #[trigger] self.chars@[k] == c0[k],
                forall|k: int| 0 <= k < n ==> self.charset@.contains(#[trigger] self.chars@[k]),
                forall|k: int| 0 <= k < n ==> #[trigger] self.glitch_ttl@[k] <= GLITCH_DURATION_MAX,
            decreases n - i,
        {
            let t = self.glitch_ttl[i];
            if t > 0 {
                self.glitch_ttl.set(i, t - 1);
                if t - 1 == 0 {
                    let c = self.rand_char();
                    self.chars.set(i, c);
                }
            } else if chance(self.glitch_rate, 1_000_000) {
                let c = self.rand_char();
                self.chars.set(i, c);
                let d = random_between(GLITCH_DURATION_MIN as u64, GLITCH_DURATION_MAX as u64) as u32;
                self.glitch_ttl.set(i, d);
            }
            i = i + 1;
        }
    }
}

} // verus!
