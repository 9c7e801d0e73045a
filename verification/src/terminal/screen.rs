//! One terminal screen of rain: the streams on it, and what a frame draws,
//! clears and spawns.

use crate::random::{chance, random_between};
use crate::terminal::stream::{
    advanced, in_rect, planned, spec_max_len, spec_min_len, GlyphCell, RainStream, MAX_STREAM_LENGTH,
};
use std::collections::HashSet;
use vstd::prelude::*;

verus! {

/// The chance per frame of a burst of new streams, in ten-thousandths.
pub const SPAWN_BURST_PER_10K: u32 = 1;
/// The fewest and most streams a burst asks for.
pub const SPAWN_BURST_MIN: u64 = 3;
pub const SPAWN_BURST_MAX: u64 = 15;

pub open spec fn min_int(a: int, b: int) -> int {
    if a <= b { a } else { b }
}

/// `picks` fit a list of `n` free columns: pick `j` is an index into what
/// is left of the list after `j` picks.
pub open spec fn picks_ok(n: int, picks: Seq<usize>) -> bool {
    &&& picks.len() <= n
    &&& forall|j: int| 0 <= j < picks.len() ==> #[trigger] picks[j] < n - j
}

/// The columns `picks` take from the free columns `free`, in order: each
/// pick takes the column at its index, and the last column moves into its
/// place.
pub open spec fn burst_cols(free: Seq<u16>, picks: Seq<usize>) -> Seq<u16>
    decreases picks.len(),
{
    if picks.len() == 0 || free.len() == 0 {
        seq![]
    } else {
        let p = picks[0] as int;
        seq![free[p]] + burst_cols(free.update(p, free.last()).drop_last(), picks.drop_first())
    }
}

/// `new` is `old` followed by one stream for each column that `picks` take
/// from the free columns of a screen `width` columns wide, in that order.
pub open spec fn burst_spawned(old: Seq<RainStream>, new: Seq<RainStream>, width: int, picks: Seq<usize>) -> bool {
    let cols = burst_cols(free_cols_spec(old, width), picks);
    &&& new.len() == old.len() + picks.len()
    &&& new.take(old.len() as int) == old
    &&& forall|k: int| 0 <= k < picks.len() ==> #[trigger] new[old.len() + k].col == cols[k]
}

/// No two of the streams share a column.
pub open spec fn distinct_cols(ss: Seq<RainStream>) -> bool {
    forall|i: int, j: int| 0 <= i < j < ss.len() ==> #[trigger] ss[i].col != #[trigger] ss[j].col
}

/// Some stream runs down column `c`.
pub open spec fn col_used(ss: Seq<RainStream>, c: int) -> bool {
    exists|k: int| 0 <= k < ss.len() && #[trigger] ss[k].col == c
}

/// `s` is a fresh stream for a screen `height` rows high drawing from
/// `charset`: valid, just reset, with the length bounds `RainStream::new`
/// gives that height.
pub open spec fn fresh_stream(s: RainStream, height: u16, charset: Seq<char>) -> bool {
    &&& s.wf()
    &&& s.height == height
    &&& s.charset@ == charset
    &&& s.min_len == spec_min_len(spec_max_len(height as int))
    &&& s.max_len == (if spec_max_len(height as int) >= s.min_len {
        spec_max_len(height as int)
    } else {
        s.min_len as int
    })
    &&& s.is_reset_of(s)
}

/// `ss` is what `make_streams(width, height, density_pct, charset)` can
/// give: no stream on a screen of two rows or less or of no columns; else
/// fresh streams in increasing columns of the screen, one in every column
/// from a density of 100 on, none at density 0.
pub open spec fn spawned_for(ss: Seq<RainStream>, width: u16, height: u16, density_pct: u32, charset: Seq<char>) -> bool {
    &&& (height <= 2 || width == 0) ==> ss.len() == 0
    &&& forall|k: int| 0 <= k < ss.len() ==> fresh_stream(#[trigger] ss[k], height, charset) && ss[k].col < width
    &&& forall|i: int, j: int| 0 <= i < j < ss.len() ==> #[trigger] ss[i].col < #[trigger] ss[j].col
    &&& (density_pct >= 100 && height > 2) ==> ss.len() == width && forall|k: int| 0 <= k < width ==> #[trigger] ss[k].col == k
    &&& density_pct == 0 ==> ss.len() == 0
}

/// A copy of the characters of `v`.
pub fn copy_chars(v: &Vec<char>) -> (r: Vec<char>)
    ensures
        r@ == v@,
{
    let mut r: Vec<char> = Vec::new();
    let mut i: usize = 0;
    while i < v.len()
        invariant
            i <= v@.len(),
            r@ == v@.take(i as int),
        decreases v@.len() - i,
    {
        let c = v[i];
        r.push(c);
        assert(v@.take(i + 1) =~= v@.take(i as int).push(c));
        i = i + 1;
    }
    assert(v@.take(v@.len() as int) =~= v@);
    r
}

/// Streams for a screen `width` columns by `height` rows: none on a screen of
/// two rows or less or of no columns; otherwise each column, left to right,
/// gets a fresh stream with a chance of `density_pct` hundredths (every
/// column, from 100 on).
pub fn make_streams(width: u16, height: u16, density_pct: u32, charset: &Vec<char>) -> (ss: Vec<RainStream>)
    requires
        charset@.len() > 0,
    ensures
        spawned_for(ss@, width, height, density_pct, charset@),
{
    let mut out: Vec<RainStream> = Vec::new();
    if height <= 2 || width == 0 {
        return out;
    }
    let mut col: u16 = 0;
    while col < width
        invariant
            col <= width,
            height > 2,
            charset@.len() > 0,
            forall|k: int| #![trigger out@[k]] 0 <= k < out@.len() ==> {
                &&& fresh_stream(out@[k], height, charset@)
                &&& out@[k].col < col
            },
            forall|i: int, j: int| 0 <= i < j < out@.len() ==> #[trigger] out@[i].col < #[trigger] out@[j].col,
            density_pct >= 100 ==> out@.len() == col && forall|k: int| 0 <= k < col ==> #[trigger] out@[k].col == k,
            density_pct == 0 ==> out@.len() == 0,
        decreases width - col,
    {
        let spawn = if density_pct >= 100 { true } else { chance(density_pct, 100) };
        if spawn {
            let s = RainStream::new(col, height, copy_chars(charset));
            out.push(s);
        }
        col = col + 1;
    }
    out
}

/// One terminal screen of rain.
pub struct Screen {
    pub width: u16,
    pub height: u16,
    pub streams: Vec<RainStream>,
    pub charset: Vec<char>,
}

/// The free columns below `upto`, left to right.
pub open spec fn free_cols_spec(ss: Seq<RainStream>, upto: int) -> Seq<u16>
    decreases upto,
{
    if upto <= 0 {
        seq![]
    } else if !col_used(ss, upto - 1) {
        free_cols_spec(ss, upto - 1).push((upto - 1) as u16)
    } else {
        free_cols_spec(ss, upto - 1)
    }
}

/// Stream `s` with its largest length fitted to a screen `height` rows high:
/// `height - 1`, at most `MAX_STREAM_LENGTH`.
pub open spec fn fitted(s: RainStream, height: u16) -> RainStream {
    let h1 = if height >= 1 { height - 1 } else { 0 };
    RainStream { max_len: (if h1 < MAX_STREAM_LENGTH { h1 } else { MAX_STREAM_LENGTH as int }) as usize, ..s }
}

impl Screen {
    /// Stream `s` belongs on this screen: valid, as high as the screen, in
    /// one of its columns, drawing from its character set.
    pub open spec fn stream_ok(&self, s: RainStream) -> bool {
        &&& s.wf()
        &&& s.height == self.height
        &&& s.col < self.width
        &&& s.charset@ == self.charset@
    }

    /// The invariant of a screen: every stream belongs on it, no two share a
    /// column, and a screen of two rows or less or of no columns has none.
    pub open spec fn wf(&self) -> bool {
        &&& self.charset@.len() > 0
        &&& forall|k: int| 0 <= k < self.streams@.len() ==> self.stream_ok(#[trigger] self.streams@[k])
        &&& distinct_cols(self.streams@)
        &&& (self.height <= 2 || self.width == 0) ==> self.streams@.len() == 0
    }

    /// A screen `width` columns by `height` rows with streams spawned at
    /// density `density_pct` (hundredths).
    pub fn new(width: u16, height: u16, density_pct: u32, charset: Vec<char>) -> (s: Screen)
        requires
            charset@.len() > 0,
        ensures
            s.wf(),
            s.width == width,
            s.height == height,
            s.charset@ == charset@,
            spawned_for(s.streams@, width, height, density_pct, charset@),
    {
        let streams = make_streams(width, height, density_pct, &charset);
        Screen { width, height, streams, charset }
    }

    /// Spawns every stream anew at density `density_pct` (hundredths).
    pub fn respawn(&mut self, density_pct: u32)
        requires
            old(self).charset@.len() > 0,
        ensures
            final(self).wf(),
            final(self).width == old(self).width,
            final(self).height == old(self).height,
            final(self).charset@ == old(self).charset@,
            spawned_for(final(self).streams@, old(self).width, old(self).height, density_pct, old(self).charset@),
    {
        self.streams = make_streams(self.width, self.height, density_pct, &self.charset);
    }

    /// Takes the screen size `width` by `height`: when it differs from the
    /// current size, the streams are spawned anew for the new size and `true`
    /// is returned (the caller clears the screen); otherwise nothing changes.
    pub fn resize(&mut self, width: u16, height: u16, density_pct: u32) -> (changed: bool)
        requires
            old(self).wf(),
        ensures
            final(self).wf(),
            changed == (width != old(self).width || height != old(self).height),
            final(self).width == width,
            final(self).height == height,
            final(self).charset@ == old(self).charset@,
            !changed ==> final(self).streams@ == old(self).streams@,
            changed ==> spawned_for(final(self).streams@, width, height, density_pct, old(self).charset@),
    {
        if width != self.width || height != self.height {
            self.width = width;
            self.height = height;
            self.respawn(density_pct);
            true
        } else {
            false
        }
    }

    /// The columns no stream runs down, left to right: the columns in use
    /// are gathered in a set first.
    pub fn free_columns(&self) -> (r: Vec<u16>)
        ensures
            r@ == free_cols_spec(self.streams@, self.width as int),
    {
        broadcast use vstd::std_specs::hash::group_hash_axioms;

        let mut used: HashSet<u16> = HashSet::new();
        let mut k: usize = 0;
        while k < self.streams.len()
            invariant
                k <= self.streams@.len(),
                forall|x: u16| #[trigger] used@.contains(x) <==> col_used(self.streams@.subrange(0, k as int), x as int),
            decreases self.streams@.len() - k,
        {
            let col = self.streams[k].col;
            used.insert(col);
            proof {
                let prev = self.streams@.subrange(0, k as int);
                let next = self.streams@.subrange(0, k + 1);
                assert forall|x: u16| #[trigger] used@.contains(x) <==> col_used(next, x as int) by {
                    if col_used(prev, x as int) {
                        let j = choose|j: int| 0 <= j < prev.len() && #[trigger] prev[j].col == x as int;
                        assert(next[j].col == x);
                    }
                    if x == col {
                        assert(next[k as int].col == x);
                    }
                    if col_used(next, x as int) && x != col {
                        let j = choose|j: int| 0 <= j < next.len() && #[trigger] next[j].col == x as int;
                        assert(prev[j].col == x);
                    }
                }
            }
            k = k + 1;
        }
        assert(self.streams@.subrange(0, self.streams@.len() as int) =~= self.streams@);
        let mut r: Vec<u16> = Vec::new();
        let mut c: u16 = 0;
        while c < self.width
            invariant
                c <= self.width,
                r@ == free_cols_spec(self.streams@, c as int),
                forall|x: u16| #[trigger] used@.contains(x) <==> col_used(self.streams@, x as int),
            decreases self.width - c,
        {
            if !used.contains(&c) {
                r.push(c);
            }
            c = c + 1;
        }
        r
    }

    /// One frame: every stream's largest length is fitted to the screen
    /// height, the stream advances a frame, and its cells outside `exclude`
    /// are planned. The plans come in the order of the streams.
    pub fn frame(&mut self, exclude: Option<(u16, u16, u16, u16)>) -> (plans: Vec<Vec<GlyphCell>>)
        requires
            old(self).wf(),
        ensures
            final(self).wf(),
            final(self).width == old(self).width,
            final(self).height == old(self).height,
            final(self).charset@ == old(self).charset@,
            final(self).streams@.len() == old(self).streams@.len(),
            plans@.len() == old(self).streams@.len(),
            forall|k: int| 0 <= k < old(self).streams@.len() ==> advanced(
                #[trigger] fitted(old(self).streams@[k], old(self).height),
                final(self).streams@[k],
            ),
            forall|k: int| 0 <= k < plans@.len() ==> planned(final(self).streams@[k], exclude, #[trigger] plans@[k]@),
    {
        let mut rest: Vec<RainStream> = Vec::new();
        std::mem::swap(&mut rest, &mut self.streams);
        let ghost all = rest@;
        let total = rest.len();
        let h1: usize = if self.height >= 1 { self.height as usize - 1 } else { 0 };
        let max_len: usize = if h1 < MAX_STREAM_LENGTH { h1 } else { MAX_STREAM_LENGTH };
        let mut done: Vec<RainStream> = Vec::new();
        let mut plans: Vec<Vec<GlyphCell>> = Vec::new();
        let mut i: usize = 0;
        while rest.len() > 0
            invariant
                i <= all.len(),
                all.len() == total,
                rest@ == all.skip(i as int),
                done@.len() == i,
                plans@.len() == i,
                self.charset@.len() > 0,
                total > 0 ==> self.height > 2,
                max_len == fitted(all[0], self.height).max_len || total == 0,
                forall|k: int| 0 <= k < all.len() ==> self.stream_ok(#[trigger] all[k]),
                forall|k: int| 0 <= k < i ==> self.stream_ok(#[trigger] done@[k]) && done@[k].col == all[k].col,
                forall|k: int| 0 <= k < i ==> advanced(#[trigger] fitted(all[k], self.height), done@[k]),
                forall|k: int| 0 <= k < i ==> planned(done@[k], exclude, #[trigger] plans@[k]@),
            decreases rest@.len(),
        {
            assert(i < all.len());
            let mut st = rest.remove(0);
            assert(st == all[i as int]);
            st.max_len = max_len;
            assert(st == fitted(all[i as int], self.height));
            st.update();
            let cells = st.plan_cells(exclude);
            done.push(st);
            plans.push(cells);
            assert(rest@ =~= all.skip(i + 1));
            i = i + 1;
        }
        self.streams = done;
        proof {
            assert forall|a: int, b: int| 0 <= a < b < self.streams@.len() implies #[trigger] self.streams@[a].col
                != #[trigger] self.streams@[b].col by {
                assert(all[a].col != all[b].col);
            }
        }
        plans
    }

    /// With a small chance per frame, on a screen of more than two rows, a
    /// burst of between `SPAWN_BURST_MIN` and `SPAWN_BURST_MAX` fresh streams
    /// (as many as there are free columns, at most) is spawned in free
    /// columns drawn at random, as `spawn_picked` places them. The streams
    /// already there stay, in order, ahead of the new ones.
    pub fn spawn_burst(&mut self)
        requires
            old(self).wf(),
        ensures
            final(self).wf(),
            final(self).width == old(self).width,
            final(self).height == old(self).height,
            final(self).charset@ == old(self).charset@,
            final(self).streams@.len() <= old(self).streams@.len() + SPAWN_BURST_MAX,
            (old(self).width == 0 || old(self).height <= 2) ==> final(self).streams@ == old(self).streams@,
            final(self).streams@.len() == old(self).streams@.len() || final(self).streams@.len() - old(self).streams@.len()
                >= min_int(SPAWN_BURST_MIN as int, free_cols_spec(old(self).streams@, old(self).width as int).len() as int),
            final(self).streams@.take(old(self).streams@.len() as int) == old(self).streams@,
            forall|k: int| old(self).streams@.len() <= k < final(self).streams@.len() ==> {
                &&& fresh_stream(#[trigger] final(self).streams@[k], old(self).height, old(self).charset@)
                &&& !col_used(old(self).streams@, final(self).streams@[k].col as int)
            },
            final(self).streams@ == old(self).streams@ || exists|picks: Seq<usize>| {
                &&& #[trigger] picks_ok(free_cols_spec(old(self).streams@, old(self).width as int).len() as int, picks)
                &&& burst_spawned(old(self).streams@, final(self).streams@, old(self).width as int, picks)
            },
    {
        if chance(SPAWN_BURST_PER_10K, 10_000) && self.width > 0 && self.height > 2 {
            let n = self.free_columns().len();
            if n > 0 {
                let burst = random_between(SPAWN_BURST_MIN, SPAWN_BURST_MAX) as usize;
                let count: usize = if burst < n { burst } else { n };
                let mut picks: Vec<usize> = Vec::new();
                let mut j: usize = 0;
                while j < count
                    invariant
                        j <= count,
                        count <= n,
                        picks@.len() == j,
                        forall|k: int| 0 <= k < j ==> #[trigger] picks@[k] < n - k,
                    decreases count - j,
                {
                    let p = random_between(0, (n - 1 - j) as u64) as usize;
                    picks.push(p);
                    j = j + 1;
                }
                assert(picks_ok(n as int, picks@));
                self.spawn_picked(&picks);
            }
        }
    }

    /// Spawns a fresh stream in each column that `picks` takes from the free
    /// columns, in order: pick `p` takes the free column at index `p`, and
    /// the last free column moves into its place (see `burst_cols`). The
    /// streams already there stay, in order, ahead of the new ones.
    pub fn spawn_picked(&mut self, picks: &Vec<usize>)
        requires
            old(self).wf(),
            old(self).width > 0,
            old(self).height > 2,
            picks_ok(free_cols_spec(old(self).streams@, old(self).width as int).len() as int, picks@),
        ensures
            final(self).wf(),
            final(self).width == old(self).width,
            final(self).height == old(self).height,
            final(self).charset@ == old(self).charset@,
            burst_spawned(old(self).streams@, final(self).streams@, old(self).width as int, picks@),
            forall|k: int| old(self).streams@.len() <= k < final(self).streams@.len() ==> {
                &&& fresh_stream(#[trigger] final(self).streams@[k], old(self).height, old(self).charset@)
                &&& !col_used(old(self).streams@, final(self).streams@[k].col as int)
            },
    {
        let ghost start = self.streams@;
        let mut free = self.free_columns();
        let ghost free0 = free@;
        proof {
            self.lemma_free_cols(self.width as int);
        }
        let ghost mut added: Seq<u16> = seq![];
        assert(picks@.skip(0) =~= picks@);
        let mut j: usize = 0;
        while j < picks.len()
            invariant
                self.wf(),
                self.width > 0,
                self.height > 2,
                j <= picks@.len(),
                picks_ok(free0.len() as int, picks@),
                free@.len() == free0.len() - j,
                free0 == free_cols_spec(start, self.width as int),
                self.streams@.len() == start.len() + j,
                self.streams@.take(start.len() as int) == start,
                self.width == old(self).width,
                self.height == old(self).height,
                self.charset@ == old(self).charset@,
                start == old(self).streams@,
                free@.no_duplicates(),
                forall|x: u16| #[trigger] free@.contains(x) ==> x < self.width && !col_used(self.streams@, x as int),
                forall|k: int| start.len() <= k < self.streams@.len() ==> {
                    &&& fresh_stream(#[trigger] self.streams@[k], self.height, self.charset@)
                    &&& !col_used(start, self.streams@[k].col as int)
                },
                added.len() == j,
                forall|k: int| 0 <= k < j ==> #[trigger] added[k] == self.streams@[start.len() + k].col,
                added + burst_cols(free@, picks@.skip(j as int)) == burst_cols(free0, picks@),
            decreases picks@.len() - j,
        {
            let idx = picks[j];
            assert(picks@[j as int] < free0.len() - j);
            let ghost before = free@;
            let col = free.swap_remove(idx);
            assert(before.contains(col));
            proof {
                assert(picks@.skip(j as int).drop_first() =~= picks@.skip(j + 1));
                assert(picks@.skip(j as int)[0] == idx);
                assert(burst_cols(before, picks@.skip(j as int)) == seq![col] + burst_cols(free@, picks@.skip(j + 1)));
                assert(added.push(col) + burst_cols(free@, picks@.skip(j + 1)) =~= added + (seq![col] + burst_cols(
                    free@,
                    picks@.skip(j + 1),
                )));
                assert forall|x: u16| #[trigger] free@.contains(x) implies before.contains(x) && x != col by {
                    let m = choose|m: int| 0 <= m < free@.len() && free@[m] == x;
                    if m == idx {
                        assert(x == before.last());
                        assert(before[before.len() - 1] == x);
                        assert(before.len() - 1 != idx);
                    } else {
                        assert(free@[m] == before[m]);
                        assert(m != idx);
                    }
                }
                assert forall|a: int, b: int| 0 <= a < b < free@.len() implies free@[a] != free@[b] by {
                    let ia = if a == idx { before.len() - 1 } else { a };
                    let ib = if b == idx { before.len() - 1 } else { b };
                    assert(free@[a] == before[ia]);
                    assert(free@[b] == before[ib]);
                }
            }
            let ghost prev = self.streams@;
            let st = RainStream::new(col, self.height, copy_chars(&self.charset));
            self.streams.push(st);
            proof {
                assert(self.streams@ == prev.push(st));
                assert(!col_used(prev, col as int));
                assert forall|x: u16| #[trigger] free@.contains(x) implies x < self.width && !col_used(
                    self.streams@,
                    x as int,
                ) by {
                    assert(before.contains(x));
                    if col_used(self.streams@, x as int) {
                        let k = choose|k: int| 0 <= k < self.streams@.len() && #[trigger] self.streams@[k].col == x;
                        if k < prev.len() {
                            assert(prev[k].col == x);
                        }
                    }
                }
                assert forall|a: int, b: int| 0 <= a < b < self.streams@.len() implies #[trigger] self.streams@[a].col
                    != #[trigger] self.streams@[b].col by {
                    if b == prev.len() {
                        assert(prev[a].col == self.streams@[a].col);
                    } else {
                        assert(prev[a] == self.streams@[a]);
                        assert(prev[b] == self.streams@[b]);
                    }
                }
                assert forall|k: int| start.len() <= k < self.streams@.len() implies !col_used(
                    start,
                    self.streams@[k].col as int,
                ) by {
                    if k == prev.len() {
                        if col_used(start, col as int) {
                            let m = choose|m: int| 0 <= m < start.len() && #[trigger] start[m].col == col;
                            assert(prev[m] == start[m]);
                        }
                    } else {
                        assert(prev[k] == self.streams@[k]);
                    }
                }
                assert(self.streams@.take(start.len() as int) =~= prev.take(start.len() as int));
                assert forall|k: int| 0 <= k < j + 1 implies #[trigger] added.push(col)[k] == self.streams@[start.len() + k].col by {
                    if k < j {
                        assert(self.streams@[start.len() + k] == prev[start.len() + k]);
                    }
                }
                added = added.push(col);
            }
            j = j + 1;
        }
        proof {
            assert(picks@.skip(j as int).len() == 0);
            assert(added + burst_cols(free@, picks@.skip(j as int)) =~= added);
        }
    }

    /// The free columns are exactly the columns on the screen no stream runs
    /// down, each once.
    pub proof fn lemma_free_cols(&self, upto: int)
        requires
            0 <= upto <= self.width,
        ensures
            free_cols_spec(self.streams@, upto).no_duplicates(),
            forall|x: u16| #[trigger] free_cols_spec(self.streams@, upto).contains(x) <==> (x < upto && !col_used(
                self.streams@,
                x as int,
            )),
        decreases upto,
    {
        if upto > 0 {
            self.lemma_free_cols(upto - 1);
            let prev = free_cols_spec(self.streams@, upto - 1);
            if !col_used(self.streams@, upto - 1) {
                let c = (upto - 1) as u16;
                assert(free_cols_spec(self.streams@, upto) == prev.push(c));
                assert(!prev.contains(c));
                assert forall|a: int, b: int| 0 <= a < b < prev.push(c).len() implies prev.push(c)[a] != prev.push(c)[b] by {
                    if b == prev.len() {
                        assert(prev.contains(prev[a]));
                    }
                }
                assert forall|x: u16| #[trigger] prev.push(c).contains(x) <==> (x < upto && !col_used(
                    self.streams@,
                    x as int,
                )) by {
                    if prev.push(c).contains(x) {
                        let m = choose|m: int| 0 <= m < prev.push(c).len() && prev.push(c)[m] == x;
                        if m < prev.len() {
                            assert(prev.contains(x));
                        }
                    }
                    if x < upto && !col_used(self.streams@, x as int) {
                        if x == c {
                            assert(prev.push(c)[prev.len() as int] == x);
                        } else {
                            assert(prev.contains(x));
                            let m = choose|m: int| 0 <= m < prev.len() && prev[m] == x;
                            assert(prev.push(c)[m] == x);
                        }
                    }
                }
            }
        }
    }

    /// Keeps the streams whose column is on the screen, in order. On a valid
    /// screen every stream is on it, so all of them stay.
    pub fn retain_on_screen(&mut self)
        requires
            old(self).wf(),
        ensures
            final(self).wf(),
            final(self).width == old(self).width,
            final(self).height == old(self).height,
            final(self).charset@ == old(self).charset@,
            final(self).streams@ == old(self).streams@.filter(|s: RainStream| s.col < old(self).width),
            final(self).streams@ == old(self).streams@,
    {
        let ghost w = self.width;
        let ghost pred = |s: RainStream| s.col < w;
        let mut rest: Vec<RainStream> = Vec::new();
        std::mem::swap(&mut rest, &mut self.streams);
        let ghost all = rest@;
        let total = rest.len();
        let mut kept: Vec<RainStream> = Vec::new();
        let mut i: usize = 0;
        while rest.len() > 0
            invariant
                i <= all.len(),
                all.len() == total,
                pred == (|s: RainStream| s.col < w),
                rest@ == all.skip(i as int),
                kept@ == all.take(i as int).filter(pred),
                kept@ == all.take(i as int),
                forall|k: int| 0 <= k < all.len() ==> #[trigger] all[k].col < w,
                self.width == w,
            decreases rest@.len(),
        {
            assert(i < all.len());
            let s = rest.remove(0);
            assert(s == all[i as int]);
            assert(pred(s) == (s.col < w));
            proof {
                assert(all.take(i + 1) =~= all.take(i as int).push(s));
                all.take(i as int).lemma_filter_push(s, pred);
            }
            if s.col < self.width {
                kept.push(s);
            }
            assert(rest@ =~= all.skip(i + 1));
            i = i + 1;
        }
        assert(all.take(i as int) =~= all);
        self.streams = kept;
    }
}

/// `p` was drawn last frame and must be blanked: it lies outside `exclude`
/// and nothing was drawn there this frame.
pub open spec fn is_stale(p: (u16, u16), cur: Seq<(u16, u16)>, exclude: Option<(u16, u16, u16, u16)>) -> bool {
    &&& !(exclude matches Some(r) && in_rect(p.0 as int, p.1 as int, r))
    &&& !cur.contains(p)
}

/// The positions of `prev` that are stale, in order.
pub open spec fn stale_spec(prev: Seq<(u16, u16)>, cur: Seq<(u16, u16)>, exclude: Option<(u16, u16, u16, u16)>) -> Seq<(u16, u16)>
    decreases prev.len(),
{
    if prev.len() == 0 {
        seq![]
    } else if is_stale(prev.last(), cur, exclude) {
        stale_spec(prev.drop_last(), cur, exclude).push(prev.last())
    } else {
        stale_spec(prev.drop_last(), cur, exclude)
    }
}

/// What `stale_spec` lists is stale, and was drawn last frame.
pub proof fn lemma_stale_positions_are_stale(prev: Seq<(u16, u16)>, cur: Seq<(u16, u16)>, exclude: Option<(u16, u16, u16, u16)>)
    ensures
        forall|k: int| 0 <= k < stale_spec(prev, cur, exclude).len() ==> {
            &&& is_stale(#[trigger] stale_spec(prev, cur, exclude)[k], cur, exclude)
            &&& prev.contains(stale_spec(prev, cur, exclude)[k])
        },
    decreases prev.len(),
{
    if prev.len() > 0 {
        lemma_stale_positions_are_stale(prev.drop_last(), cur, exclude);
        let r = stale_spec(prev.drop_last(), cur, exclude);
        assert forall|k: int| 0 <= k < stale_spec(prev, cur, exclude).len() implies prev.contains(
            #[trigger] stale_spec(prev, cur, exclude)[k],
        ) by {
            if k < r.len() {
                let x = r[k];
                assert(prev.drop_last().contains(x));
                let m = choose|m: int| 0 <= m < prev.drop_last().len() && prev.drop_last()[m] == x;
                assert(prev[m] == x);
            } else {
                assert(prev[prev.len() - 1] == prev.last());
            }
        }
    }
}

/// `v` holds `p`.
pub fn contains_pos(v: &Vec<(u16, u16)>, p: (u16, u16)) -> (b: bool)
    ensures
        b == v@.contains(p),
{
    let mut i: usize = 0;
    while i < v.len()
        invariant
            i <= v@.len(),
            forall|k: int| 0 <= k < i ==> v@[k] != p,
        decreases v@.len() - i,
    {
        let q = v[i];
        if q.0 == p.0 && q.1 == p.1 {
            assert(v@[i as int] == p);
            return true;
        }
        i = i + 1;
    }
    false
}

/// The cells drawn last frame (`prev`) to blank this frame: those outside
/// `exclude` where nothing was drawn this frame (`cur`), in the order of
/// `prev`.
pub fn stale_positions(prev: &Vec<(u16, u16)>, cur: &Vec<(u16, u16)>, exclude: Option<(u16, u16, u16, u16)>) -> (r: Vec<(u16, u16)>)
    ensures
        r@ == stale_spec(prev@, cur@, exclude),
{
    let mut r: Vec<(u16, u16)> = Vec::new();
    let mut i: usize = 0;
    while i < prev.len()
        invariant
            i <= prev@.len(),
            r@ == stale_spec(prev@.take(i as int), cur@, exclude),
        decreases prev@.len() - i,
    {
        let p = prev[i];
        let mut skip = false;
        if let Some((y1, x1, y2, x2)) = exclude {
            if p.0 >= y1 && p.0 <= y2 && p.1 >= x1 && p.1 <= x2 {
                skip = true;
            }
        }
        if !skip && !contains_pos(cur, p) {
            r.push(p);
        }
        assert(prev@.take(i + 1).drop_last() =~= prev@.take(i as int));
        assert(prev@.take(i + 1).last() == p);
        i = i + 1;
    }
    assert(prev@.take(prev@.len() as int) =~= prev@);
    r
}

/// The cells of a frame's plans, flattened in order.
pub open spec fn flat_cells(plans: Seq<Vec<GlyphCell>>) -> Seq<GlyphCell>
    decreases plans.len(),
{
    if plans.len() == 0 {
        seq![]
    } else {
        flat_cells(plans.drop_last()) + plans.last()@
    }
}

/// Where the cells of a frame's plans are drawn, as (row, column), in order.
pub fn drawn_positions(plans: &Vec<Vec<GlyphCell>>) -> (r: Vec<(u16, u16)>)
    ensures
        r@ == flat_cells(plans@).map_values(|c: GlyphCell| (c.row, c.col)),
{
    let mut r: Vec<(u16, u16)> = Vec::new();
    let mut i: usize = 0;
    while i < plans.len()
        invariant
            i <= plans@.len(),
            r@ == flat_cells(plans@.take(i as int)).map_values(|c: GlyphCell| (c.row, c.col)),
        decreases plans@.len() - i,
    {
        let plan = &plans[i];
        let ghost before = r@;
        let mut j: usize = 0;
        while j < plan.len()
            invariant
                j <= plan@.len(),
                r@ == before + plan@.take(j as int).map_values(|c: GlyphCell| (c.row, c.col)),
            decreases plan@.len() - j,
        {
            let c = plan[j];
            r.push((c.row, c.col));
            assert(plan@.take(j + 1).map_values(|c: GlyphCell| (c.row, c.col)) =~= plan@.take(j as int).map_values(
                |c: GlyphCell| (c.row, c.col),
            ).push((c.row, c.col)));
            j = j + 1;
        }
        assert(plan@.take(plan@.len() as int) =~= plan@);
        assert(plans@.take(i + 1).drop_last() =~= plans@.take(i as int));
        assert(flat_cells(plans@.take(i + 1)) == flat_cells(plans@.take(i as int)) + plan@);
        assert(flat_cells(plans@.take(i + 1)).map_values(|c: GlyphCell| (c.row, c.col)) =~= before + plan@.map_values(
            |c: GlyphCell| (c.row, c.col),
        ));
        i = i + 1;
    }
    assert(plans@.take(plans@.len() as int) =~= plans@);
    r
}

} // verus!
