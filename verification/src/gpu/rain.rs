//! The layered rain of the GPU renderer. Positions are kept in millionths of
//! a row and chances in millionths, so the simulation runs on integers.

use crate::palette::{fade_tier, lemma_only_head_is_head, tier_of, Tier};
use crate::random::{chance, chance_draws, random_between};
use vstd::prelude::*;

verus! {

pub const MIN_STREAM_LENGTH: usize = 5;
pub const MAX_STREAM_LENGTH: usize = 42;
/// The slowest and fastest base speed of a stream, in thousandths of a row per
/// tenth of a frame.
pub const STREAM_SPEED_MIN: u64 = 500;
pub const STREAM_SPEED_MAX: u64 = 4000;
/// The base chance per frame that a head glyph glitches, in millionths.
pub const GLITCH_RATE_PPM: u64 = 3000;
pub const GLITCH_DURATION_MIN: u32 = 15;
pub const GLITCH_DURATION_MAX: u32 = 40;
/// The chance that a glyph behind the head sparkles in a frame, in ten-thousandths.
pub const SPARKLE_PER_10K: u32 = 4;
/// One row, in the units of `Stream::y`.
pub const ROW: i64 = 1_000_000;
/// Chances are given in millionths.
pub const PPM: u64 = 1_000_000;
/// The most rows a simulation may have.
pub const MAX_ROWS: usize = 0xffff_ffff;

/// The lowercase letters `a` to `z`, in order.
pub open spec fn is_lowercase_run(s: Seq<char>) -> bool {
    &&& s.len() == 26
    &&& forall|k: int| 0 <= k < 26 ==> #[trigger] s[k] as u32 == 0x61 + k
}

/// The symbols of the GPU character set.
pub open spec fn gpu_symbols() -> Seq<char> {
    seq!['=', '*', '+', '-', '<', '>', '|', '~', '^', '!', '#', '$', '%', '&', '_', '@']
}

/// The character set of the GPU renderer: the lowercase letters, the
/// digits, then its symbols.
pub open spec fn is_gpu_char_set(s: Seq<char>) -> bool {
    &&& is_lowercase_run(s.take(26))
    &&& s.skip(26) == crate::glyphs::digits_seq() + gpu_symbols()
}

/// The GPU character set: lowercase letters, digits and symbols, no capitals.
pub fn char_set() -> (v: Vec<char>)
    ensures
        is_gpu_char_set(v@),
        v@.len() == 26 + 10 + 16,
{
    let mut set: Vec<char> = Vec::new();
    let mut b: u8 = 0x61;
    while b <= 0x7a
        invariant
            0x61 <= b <= 0x7b,
            set@.len() == b - 0x61,
            forall|k: int| 0 <= k < set@.len() ==> #[trigger] set@[k] as u32 == 0x61 + k,
        decreases 0x7b - b,
    {
        set.push(b as char);
        b = b + 1;
    }
    let ghost letters = set@;
    let mut digits = crate::glyphs::digit_chars();
    set.append(&mut digits);
    let mut symbols = vec!['=', '*', '+', '-', '<', '>', '|', '~', '^', '!', '#', '$', '%', '&', '_', '@'];
    assert(symbols@ =~= gpu_symbols());
    set.append(&mut symbols);
    assert(set@.take(26) =~= letters);
    assert(set@.skip(26) =~= crate::glyphs::digits_seq() + gpu_symbols());
    set
}

/// The speed factor of depth layer `layer`, in hundredths: farther layers
/// fall slower, by five hundredths a layer, down to 40.
pub open spec fn layer_speed_pct(layer: int) -> int {
    if 5 * layer <= 60 { 100 - 5 * layer } else { 40 }
}

/// Farther layers never fall faster: the speed factor does not grow with
/// depth and never drops below 40 hundredths.
pub proof fn lemma_deeper_layers_are_slower(a: int, b: int)
    requires
        0 <= a <= b,
    ensures
        layer_speed_pct(b) <= layer_speed_pct(a),
        40 <= layer_speed_pct(b) <= 100,
{
}

/// The largest stream length on `num_rows` rows.
pub open spec fn max_len_for(num_rows: int) -> int {
    if num_rows < MAX_STREAM_LENGTH { num_rows } else { MAX_STREAM_LENGTH as int }
}

/// The smallest stream length on `num_rows` rows.
pub open spec fn min_len_for(num_rows: int) -> int {
    let m = if (MIN_STREAM_LENGTH as int) < max_len_for(num_rows) { MIN_STREAM_LENGTH as int } else { max_len_for(num_rows) };
    if m >= 3 { m } else { 3 }
}

/// The row, in millionths, past which a stream of `length` glyphs on
/// `num_rows` rows has left the screen for good.
pub open spec fn exit_row(num_rows: int, length: int) -> int {
    (num_rows + length + 20) * ROW
}

/// A stream falling in column `col` of depth layer `layer`. `y` is its head
/// row in millionths of a row; `speed` is how far it falls per frame, in
/// millionths of a row; `chars` are indices into the character set; a glyph
/// with a non-zero `glitch_ttl` is glitching.
pub struct Stream {
    pub col: usize,
    pub layer: usize,
    pub y: i64,
    pub speed: u64,
    pub length: usize,
    pub chars: Vec<usize>,
    pub glitch_ttl: Vec<u32>,
    /// Chance per frame that a head glyph glitches, in millionths.
    pub glitch_rate: u64,
    /// Whether the stream is still on its way down.
    pub active: bool,
}

/// A glyph keeps its index and counts its glitch down (an idle glyph stays idle).
pub open spec fn ticked(t0: u32, c0: usize, t1: u32, c1: usize) -> bool {
    &&& c1 == c0
    &&& t1 == (if t0 > 0 { t0 - 1 } else { 0 })
}

/// How many head glyphs of a stream of `len` glyphs may glitch: a quarter of
/// them, at least three, at most all.
pub open spec fn glitch_window(len: int) -> int {
    let w = if len / 4 >= 3 { len / 4 } else { 3 };
    if w <= len { w } else { len }
}

/// One frame of glitching of the head window `w`: walking from the head,
/// every glyph counts its glitch down, until, possibly, one idle glyph `g`
/// starts glitching for a drawn number of frames with a drawn index, after
/// which the walk stops; every glyph past the walk stays as it was.
pub open spec fn glitch_pass(c0: Seq<usize>, t0: Seq<u32>, c1: Seq<usize>, t1: Seq<u32>, w: int) -> bool {
    &&& c1.len() == c0.len()
    &&& t1.len() == t0.len()
    &&& c0.len() == t0.len()
    &&& 0 <= w <= c0.len()
    &&& {
        ||| (forall|k: int| 0 <= k < w ==> ticked(#[trigger] t0[k], c0[k], t1[k], c1[k])) && (forall|k: int|
            w <= k < c0.len() ==> #[trigger] t1[k] == t0[k] && c1[k] == c0[k])
        ||| exists|g: int| {
            &&& 0 <= g < w
            &&& t0[g] == 0
            &&& GLITCH_DURATION_MIN <= #[trigger] t1[g] <= GLITCH_DURATION_MAX
            &&& forall|k: int| 0 <= k < g ==> ticked(#[trigger] t0[k], c0[k], t1[k], c1[k])
            &&& forall|k: int| g < k < c0.len() ==> #[trigger] t1[k] == t0[k] && c1[k] == c0[k]
        }
    }
}

/// A glyph of a stream to draw: which character of the drawn character list
/// it shows, and how bright it is.
#[derive(Clone, Copy, Debug, PartialEq, Eq)]
pub struct GlyphPlan {
    pub char_idx: usize,
    pub tier: Tier,
}

/// `s` is a stream just spawned on `num_rows` rows: valid and live, its head
/// between `length + 20` and 5 rows above the screen, its speed a base speed
/// scaled by its layer's factor, none of its glyphs glitching.
pub open spec fn fresh(s: Stream, num_rows: usize, charset_len: usize) -> bool {
    &&& s.wf(num_rows, charset_len)
    &&& s.active
    &&& -(s.length as int + 20) * ROW <= s.y < -5 * ROW
    &&& layer_speed_pct(s.layer as int) * STREAM_SPEED_MIN <= s.speed <= layer_speed_pct(s.layer as int) * STREAM_SPEED_MAX
    &&& s.speed % (layer_speed_pct(s.layer as int) as u64) == 0
    &&& forall|k: int| 0 <= k < s.glitch_ttl@.len() ==> #[trigger] s.glitch_ttl@[k] == 0
}

/// Stream `new` is what one frame makes of stream `old` on `num_rows` rows:
/// the head falls by the speed; past the exit row the stream is done (and a
/// done stream stays done) and its glyphs stay, otherwise the head window
/// takes a glitch pass.
pub open spec fn stepped(old: Stream, new: Stream, num_rows: usize, charset_len: usize) -> bool {
    &&& new.wf(num_rows, charset_len)
    &&& new.col == old.col
    &&& new.layer == old.layer
    &&& new.speed == old.speed
    &&& new.length == old.length
    &&& new.glitch_rate == old.glitch_rate
    &&& new.y == old.y + old.speed
    &&& if new.y > exit_row(num_rows as int, old.length as int) {
        &&& !new.active
        &&& new.chars@ == old.chars@
        &&& new.glitch_ttl@ == old.glitch_ttl@
    } else {
        &&& new.active
        &&& glitch_pass(old.chars@, old.glitch_ttl@, new.chars@, new.glitch_ttl@, glitch_window(old.length as int))
    }
}

impl Stream {
    /// The invariant of a stream on `num_rows` rows drawing from `charset_len`
    /// characters.
    pub open spec fn wf(&self, num_rows: usize, charset_len: usize) -> bool {
        &&& 3 <= num_rows <= MAX_ROWS
        &&& charset_len > 0
        &&& min_len_for(num_rows as int) <= self.length <= max_len_for(num_rows as int)
        &&& self.chars@.len() == self.length
        &&& self.glitch_ttl@.len() == self.length
        &&& (forall|k: int| 0 <= k < self.chars@.len() ==> #[trigger] self.chars@[k] < charset_len)
        &&& (forall|k: int| 0 <= k < self.glitch_ttl@.len() ==> #[trigger] self.glitch_ttl@[k] <= GLITCH_DURATION_MAX)
        &&& STREAM_SPEED_MIN * 40 <= self.speed <= STREAM_SPEED_MAX * 100
        &&& GLITCH_RATE_PPM / 2 <= self.glitch_rate < 2 * GLITCH_RATE_PPM
        &&& -(MAX_STREAM_LENGTH as int + 20) * ROW <= self.y
        &&& self.active <==> self.y <= exit_row(num_rows as int, self.length as int)
    }

    /// A fresh stream in column `col` of layer `layer`: its length is drawn
    /// between the smallest and largest length for `num_rows` rows, its head
    /// starts between `length + 20` and 5 rows above the screen, its base
    /// speed is drawn between `STREAM_SPEED_MIN` and `STREAM_SPEED_MAX` and
    /// scaled by the layer's factor, its glyphs are drawn, none glitching,
    /// and its glitch rate is drawn between half and twice the base rate.
    pub fn new(col: usize, layer: usize, num_rows: usize, charset_len: usize) -> (s: Stream)
        requires
            3 <= num_rows <= MAX_ROWS,
            charset_len > 0,
        ensures
            fresh(s, num_rows, charset_len),
            s.col == col,
            s.layer == layer,
    {
        let max_len: usize = if num_rows < MAX_STREAM_LENGTH { num_rows } else { MAX_STREAM_LENGTH };
        let m: usize = if MIN_STREAM_LENGTH < max_len { MIN_STREAM_LENGTH } else { max_len };
        let min_len: usize = if m >= 3 { m } else { 3 };
        let length = random_between(min_len as u64, max_len as u64) as usize;
        let base = random_between(STREAM_SPEED_MIN, STREAM_SPEED_MAX);
        let factor: u64 = if layer <= 12 { 100 - 5 * (layer as u64) } else { 40 };
        assert(base * factor <= STREAM_SPEED_MAX * 100) by (nonlinear_arith)
            requires
                base <= STREAM_SPEED_MAX,
                factor <= 100,
        ;
        let speed = base * factor;
        assert(speed % factor == 0) by (nonlinear_arith)
            requires
                speed == base * factor,
                factor > 0,
        ;
        assert(factor * STREAM_SPEED_MIN <= speed <= factor * STREAM_SPEED_MAX) by (nonlinear_arith)
            requires
                speed == base * factor,
                STREAM_SPEED_MIN <= base <= STREAM_SPEED_MAX,
                40 <= factor <= 100,
        ;
        let mut chars: Vec<usize> = Vec::new();
        let mut ttl: Vec<u32> = Vec::new();
        let mut k: usize = 0;
        while k < length
            invariant
                k <= length,
                chars@.len() == k,
                ttl@.len() == k,
                charset_len > 0,
                forall|j: int| 0 <= j < chars@.len() ==> #[trigger] chars@[j] < charset_len,
                forall|j: int| 0 <= j < ttl@.len() ==> #[trigger] ttl@[j] == 0,
            decreases length - k,
        {
            chars.push(random_between(0, (charset_len - 1) as u64) as usize);
            ttl.push(0);
            k = k + 1;
        }
        assert(((length as u64) + 15) * (ROW as u64) <= 57 * (ROW as u64)) by (nonlinear_arith)
            requires
                length <= MAX_STREAM_LENGTH,
        ;
        let span = ((length as u64) + 15) * (ROW as u64);
        let y = -((length as i64) + 20) * ROW + random_between(0, span - 1) as i64;
        let glitch_rate = random_between(GLITCH_RATE_PPM / 2, 2 * GLITCH_RATE_PPM - 1);
        Stream { col, layer, y, speed, length, chars, glitch_ttl: ttl, glitch_rate, active: true }
    }

    /// Advances the stream by one frame: its head falls by `speed`; once it
    /// passes the exit row the stream is done (a done stream falls on and
    /// stays done) and nothing else changes;
    /// otherwise the head window takes one glitch pass.
    pub fn update(&mut self, num_rows: usize, charset_len: usize)
        requires
            old(self).wf(num_rows, charset_len),
            old(self).y + old(self).speed <= i64::MAX,
        ensures
            stepped(*old(self), *final(self), num_rows, charset_len),
            !old(self).active ==> !final(self).active && final(self).chars@ == old(self).chars@
                && final(self).glitch_ttl@ == old(self).glitch_ttl@,
    {
        self.y = self.y + self.speed as i64;
        let exit: i64 = (num_rows as i64 + self.length as i64 + 20) * ROW;
        if self.y > exit {
            self.active = false;
            return;
        }
        let len = self.length;
        let q = len / 4;
        let w0: usize = if q >= 3 { q } else { 3 };
        let w: usize = if w0 <= len { w0 } else { len };
        let ghost c0 = self.chars@;
        let ghost t0 = self.glitch_ttl@;
        let ghost mut g: int = -1;
        let mut i: usize = 0;
        let mut done = false;
        while i < w && !done
            invariant
                i <= w,
                w == glitch_window(len as int),
                len == self.length,
                c0.len() == len,
                t0.len() == len,
                self.chars@.len() == len,
                self.glitch_ttl@.len() == len,
                charset_len > 0,
                GLITCH_RATE_PPM / 2 <= self.glitch_rate < 2 * GLITCH_RATE_PPM,
                forall|k: int| 0 <= k < len ==> #[trigger] self.chars@[k] < charset_len,
                forall|k: int| 0 <= k < len ==> #[trigger] self.glitch_ttl@[k] <= GLITCH_DURATION_MAX,
                !done ==> forall|k: int| 0 <= k < i ==> ticked(#[trigger] t0[k], c0[k], self.glitch_ttl@[k], self.chars@[k]),
                !done ==> forall|k: int| i <= k < len ==> #[trigger] self.glitch_ttl@[k] == t0[k],
                !done ==> forall|k: int| i <= k < len ==> #[trigger] self.chars@[k] == c0[k],
                done ==> {
                    &&& 0 <= g < i
                    &&& t0[g] == 0
                    &&& GLITCH_DURATION_MIN <= self.glitch_ttl@[g] <= GLITCH_DURATION_MAX
                    &&& forall|k: int| 0 <= k < g ==> ticked(#[trigger] t0[k], c0[k], self.glitch_ttl@[k], self.chars@[k])
                    &&& forall|k: int| g < k < len ==> #[trigger] self.glitch_ttl@[k] == t0[k]
                    &&& forall|k: int| g < k < len ==> #[trigger] self.chars@[k] == c0[k]
                },
                c0 == old(self).chars@,
                t0 == old(self).glitch_ttl@,
                self.col == old(self).col,
                self.layer == old(self).layer,
                self.speed == old(self).speed,
                self.glitch_rate == old(self).glitch_rate,
                self.y == old(self).y + old(self).speed,
                self.y <= exit_row(num_rows as int, len as int),
                self.active == old(self).active,
                old(self).wf(num_rows, charset_len),
            decreases w - i,
        {
            let t = self.glitch_ttl[i];
            if t > 0 {
                self.glitch_ttl.set(i, t - 1);
            } else if chance(self.glitch_rate as u32, PPM as u32) {
                let c = random_between(0, (charset_len - 1) as u64) as usize;
                self.chars.set(i, c);
                let d = random_between(GLITCH_DURATION_MIN as u64, GLITCH_DURATION_MAX as u64) as u32;
                self.glitch_ttl.set(i, d);
                done = true;
                proof {
                    g = i as int;
                }
            }
            i = i + 1;
        }
    }

    /// The glyphs to draw for this stream, head first: glyph `k` shows
    /// character `chars[k]` of a list of `chars_len` characters (wrapping
    /// round), at the brightness of its tier, except that a glyph behind the
    /// head sparkles as bright as the head when a draw with a chance of
    /// `SPARKLE_PER_10K` in ten thousand comes out true.
    pub fn glyph_plan(&self, chars_len: usize) -> (plan: Vec<GlyphPlan>)
        requires
            chars_len > 0,
        ensures
            plan@.len() == self.chars@.len(),
            forall|k: int| #![trigger plan@[k]] 0 <= k < plan@.len() ==> {
                &&& plan@[k].char_idx == self.chars@[k] % chars_len
                &&& (plan@[k].tier == tier_of(k, self.chars@.len() as int) || (k > 0 && plan@[k].tier
                    == Tier::Head))
            },
            exists|draws: Seq<bool>| draws.len() == self.chars@.len() && planned_glyphs(*self, chars_len as int, draws, plan@),
    {
        let draws = chance_draws(self.chars.len(), SPARKLE_PER_10K, 10_000);
        let plan = self.glyph_plan_with(chars_len, &draws);
        proof {
            lemma_sparkle_raises_to_head_exactly_on_draw(*self, chars_len as int, draws@, plan@);
        }
        plan
    }

    /// The glyphs to draw for this stream, as `glyph_plan` says, where glyph
    /// `k` behind the head sparkles exactly when `draws[k]` is true.
    pub fn glyph_plan_with(&self, chars_len: usize, draws: &Vec<bool>) -> (plan: Vec<GlyphPlan>)
        requires
            chars_len > 0,
            draws@.len() == self.chars@.len(),
        ensures
            planned_glyphs(*self, chars_len as int, draws@, plan@),
    {
        let n = self.chars.len();
        let mut plan: Vec<GlyphPlan> = Vec::new();
        let mut i: usize = 0;
        while i < n
            invariant
                i <= n,
                n == self.chars@.len(),
                draws@.len() == n,
                chars_len > 0,
                plan@.len() == i,
                forall|k: int| #![trigger plan@[k]] 0 <= k < i ==> {
                    &&& plan@[k].char_idx == self.chars@[k] % chars_len
                    &&& plan@[k].tier == (if k > 0 && draws@[k] { Tier::Head } else { tier_of(k, n as int) })
                },
            decreases n - i,
        {
            let sparkle = i > 0 && draws[i];
            let tier = if sparkle { Tier::Head } else { fade_tier(i, n) };
            let c = self.chars[i];
            plan.push(GlyphPlan { char_idx: c % chars_len, tier });
            i = i + 1;
        }
        plan
    }

    /// Whether the stream is still on its way down.
    pub fn is_active(&self) -> (b: bool)
        ensures
            b == self.active,
    {
        self.active
    }
}

/// `plan` draws stream `s` with `draws`: glyph `k` shows character
/// `chars[k]` of a list of `chars_len`, at the Head tier when `k > 0` and
/// `draws[k]`, at the tier of its place otherwise.
pub open spec fn planned_glyphs(s: Stream, chars_len: int, draws: Seq<bool>, plan: Seq<GlyphPlan>) -> bool {
    &&& plan.len() == s.chars@.len()
    &&& forall|k: int| #![trigger plan[k]] 0 <= k < plan.len() ==> {
        &&& plan[k].char_idx == s.chars@[k] % (chars_len as usize)
        &&& plan[k].tier == (if k > 0 && draws[k] { Tier::Head } else { tier_of(k, s.chars@.len() as int) })
    }
}

/// In a plan drawn with `draws`, a glyph behind the head is as bright as the
/// head exactly when its draw came out true; with no draw true the glyphs
/// fade along the stream by their tiers.
pub proof fn lemma_sparkle_raises_to_head_exactly_on_draw(s: Stream, chars_len: int, draws: Seq<bool>, plan: Seq<GlyphPlan>)
    requires
        planned_glyphs(s, chars_len, draws, plan),
    ensures
        forall|k: int| #![trigger plan[k]] 0 < k < plan.len() ==> (plan[k].tier == Tier::Head <==> draws[k]),
        forall|k: int| #![trigger plan[k]] 0 <= k < plan.len() && !draws[k] ==> plan[k].tier == tier_of(
            k,
            s.chars@.len() as int,
        ),
        forall|k: int| #![trigger plan[k]] 0 <= k < plan.len() ==> (plan[k].tier == tier_of(k, s.chars@.len() as int)
            || (k > 0 && plan[k].tier == Tier::Head)),
{
    assert forall|k: int| #![trigger plan[k]] 0 < k < plan.len() implies (plan[k].tier == Tier::Head <==> draws[k]) by {
        lemma_only_head_is_head(k, s.chars@.len() as int);
    }
}

/// The spawn chance in layer `layer` at density `density` (millionths): six
/// hundredths less for every layer of depth, nothing from the seventeenth
/// layer on.
pub open spec fn layer_density(density: int, layer: int) -> int {
    if 6 * layer < 100 { density * (100 - 6 * layer) / 100 } else { 0 }
}

/// The chance per frame that an empty slot of layer `layer` gets a new
/// stream: two hundredths of the layer's spawn chance.
pub open spec fn respawn_chance(density: int, layer: int) -> int {
    layer_density(density, layer) / 50
}

/// A draw that comes out `true` with a chance of `ppm` millionths: never
/// for 0, always from one million on.
pub fn roll(ppm: u64) -> (b: bool)
    ensures
        ppm == 0 ==> !b,
        ppm >= PPM ==> b,
{
    if ppm >= PPM {
        true
    } else {
        chance(ppm as u32, PPM as u32)
    }
}

/// The spawn chance in layer `layer` at density `density` (millionths).
pub fn layer_density_ppm(density: u64, layer: usize) -> (d: u64)
    requires
        density <= u32::MAX,
    ensures
        d == layer_density(density as int, layer as int),
{
    if layer < 17 {
        assert(density * (100 - 6 * (layer as u64)) <= 100 * (u32::MAX as u64)) by (nonlinear_arith)
            requires
                density <= u32::MAX,
                layer < 17,
        ;
        density * (100 - 6 * (layer as u64)) / 100
    } else {
        0
    }
}

/// No two of the streams share a column of one layer.
pub open spec fn slots_distinct(ss: Seq<Stream>) -> bool {
    forall|i: int, j: int| 0 <= i < j < ss.len() ==> !(#[trigger] ss[i].col == #[trigger] ss[j].col && ss[i].layer == ss[j].layer)
}

/// The streams come in increasing layer, and within a layer in increasing
/// column.
pub open spec fn slot_order(ss: Seq<Stream>) -> bool {
    forall|i: int, j: int| 0 <= i < j < ss.len() ==> #[trigger] ss[i].layer < #[trigger] ss[j].layer || (ss[i].layer
        == ss[j].layer && ss[i].col < ss[j].col)
}

/// A layer has a spawn or respawn chance only at a non-zero density.
proof fn lemma_spawn_needs_density(density: int, layer: int)
    requires
        density >= 0,
    ensures
        layer_density(density, layer) > 0 ==> density > 0,
        respawn_chance(density, layer) > 0 ==> density > 0,
{
    if density == 0 {
        assert(layer_density(density, layer) == 0) by (nonlinear_arith)
            requires
                density == 0,
        ;
    }
}

/// A simulation of `num_cols` columns, `num_layers` layers and density
/// `density` can ever hold a stream: it has a slot, and its nearest layer
/// a spawn chance.
pub open spec fn can_spawn(num_cols: usize, num_layers: usize, density: u64) -> bool {
    num_cols > 0 && num_layers > 0 && density > 0
}

/// Some stream runs down column `col` of layer `layer`.
pub open spec fn slot_taken(ss: Seq<Stream>, col: int, layer: int) -> bool {
    exists|k: int| 0 <= k < ss.len() && #[trigger] ss[k].col == col && ss[k].layer == layer
}

/// The layered rain: `num_layers` layers of `num_cols` columns on `num_rows`
/// rows, spawned at `density` millionths per slot.
pub struct RainSimulation {
    pub streams: Vec<Stream>,
    pub num_cols: usize,
    pub num_rows: usize,
    pub num_layers: usize,
    pub density: u64,
    pub charset_len: usize,
}

/// `new` are the streams `old`, each one frame on, without those that are
/// done, in order.
pub open spec fn advanced_all(old: Seq<Stream>, new: Seq<Stream>, num_rows: usize, charset_len: usize) -> bool {
    exists|after: Seq<Stream>| {
        &&& #[trigger] after.len() == old.len()
        &&& forall|k: int| 0 <= k < old.len() ==> stepped(#[trigger] old[k], after[k], num_rows, charset_len)
        &&& new == after.filter(|s: Stream| s.active)
    }
}

/// `new` are the streams `old` followed by fresh streams, each in a slot no
/// stream of `old` runs down, in layer-then-column order.
pub open spec fn refilled(old: Seq<Stream>, new: Seq<Stream>, num_rows: usize, charset_len: usize) -> bool {
    &&& old.len() <= new.len()
    &&& new.take(old.len() as int) == old
    &&& slot_order(new.skip(old.len() as int))
    &&& forall|k: int| old.len() <= k < new.len() ==> fresh(#[trigger] new[k], num_rows, charset_len) && !slot_taken(
        old,
        new[k].col as int,
        new[k].layer as int,
    )
}

impl RainSimulation {
    /// Stream `s` belongs in this simulation: live, valid, in one of its
    /// columns and layers.
    pub open spec fn stream_ok(&self, s: Stream) -> bool {
        &&& s.wf(self.num_rows, self.charset_len)
        &&& s.active
        &&& s.col < self.num_cols
        &&& s.layer < self.num_layers
    }

    /// The invariant of a simulation: every stream belongs in it and no two
    /// share a slot.
    pub open spec fn wf(&self) -> bool {
        &&& can_spawn(self.num_cols, self.num_layers, self.density) ==> 3 <= self.num_rows <= MAX_ROWS && self.charset_len
            > 0
        &&& !can_spawn(self.num_cols, self.num_layers, self.density) ==> self.streams@.len() == 0
        &&& self.density <= u32::MAX
        &&& forall|k: int| 0 <= k < self.streams@.len() ==> self.stream_ok(#[trigger] self.streams@[k])
        &&& slots_distinct(self.streams@)
    }

    /// A simulation whose slots, layer by layer and column by column, each
    /// get a fresh stream with the layer's spawn chance.
    pub fn new(num_cols: usize, num_rows: usize, num_layers: usize, density: u64, charset_len: usize) -> (sim: RainSimulation)
        requires
            can_spawn(num_cols, num_layers, density) ==> 3 <= num_rows <= MAX_ROWS && charset_len > 0,
            density <= u32::MAX,
        ensures
            sim.wf(),
            sim.num_cols == num_cols,
            sim.num_rows == num_rows,
            sim.num_layers == num_layers,
            sim.density == density,
            sim.charset_len == charset_len,
            forall|k: int| 0 <= k < sim.streams@.len() ==> fresh(#[trigger] sim.streams@[k], num_rows, charset_len),
            slot_order(sim.streams@),
            forall|c: int, l: int|
                0 <= c < num_cols && 0 <= l < num_layers ==> (layer_density(density as int, l) >= PPM ==> #[trigger] slot_taken(
                    sim.streams@,
                    c,
                    l,
                )) && (layer_density(density as int, l) == 0 ==> !slot_taken(sim.streams@, c, l)),
    {
        let mut sim = RainSimulation { streams: Vec::new(), num_cols, num_rows, num_layers, density, charset_len };
        let mut layer: usize = 0;
        while layer < num_layers
            invariant
                layer <= num_layers,
                sim.wf(),
                sim.num_cols == num_cols,
                sim.num_rows == num_rows,
                sim.num_layers == num_layers,
                sim.density == density,
                sim.charset_len == charset_len,
                forall|k: int| 0 <= k < sim.streams@.len() ==> fresh(#[trigger] sim.streams@[k], num_rows, charset_len),
                forall|k: int| 0 <= k < sim.streams@.len() ==> #[trigger] sim.streams@[k].layer < layer,
                slot_order(sim.streams@),
                forall|c: int, l: int|
                    0 <= c < num_cols && 0 <= l < layer ==> (layer_density(density as int, l) >= PPM ==> #[trigger] slot_taken(
                        sim.streams@,
                        c,
                        l,
                    )) && (layer_density(density as int, l) == 0 ==> !slot_taken(sim.streams@, c, l)),
            decreases num_layers - layer,
        {
            let ld = layer_density_ppm(density, layer);
            let mut col: usize = 0;
            while col < num_cols
                invariant
                    col <= num_cols,
                    layer < num_layers,
                    sim.wf(),
                    sim.num_cols == num_cols,
                    sim.num_rows == num_rows,
                    sim.num_layers == num_layers,
                    sim.density == density,
                    sim.charset_len == charset_len,
                    forall|k: int| 0 <= k < sim.streams@.len() ==> fresh(#[trigger] sim.streams@[k], num_rows, charset_len),
                    forall|k: int| 0 <= k < sim.streams@.len() ==> #[trigger] sim.streams@[k].layer < layer || (
                        sim.streams@[k].layer == layer && sim.streams@[k].col < col),
                    slot_order(sim.streams@),
                    ld == layer_density(density as int, layer as int),
                    forall|c: int, l: int|
                        0 <= c < num_cols && (0 <= l < layer || (l == layer && c < col)) ==> (layer_density(
                            density as int,
                            l,
                        ) >= PPM ==> #[trigger] slot_taken(sim.streams@, c, l)) && (layer_density(density as int, l) == 0
                            ==> !slot_taken(sim.streams@, c, l)),
                decreases num_cols - col,
            {
                if roll(ld) {
                    proof {
                        lemma_spawn_needs_density(density as int, layer as int);
                        assert(can_spawn(num_cols, num_layers, density));
                    }
                    let st = Stream::new(col, layer, num_rows, charset_len);
                    let ghost prev = sim.streams@;
                    sim.streams.push(st);
                    proof {
                        assert(sim.streams@ == prev.push(st));
                        assert forall|a: int, b: int| 0 <= a < b < sim.streams@.len() implies !(
                            #[trigger] sim.streams@[a].col == #[trigger] sim.streams@[b].col
                                && sim.streams@[a].layer == sim.streams@[b].layer) by {
                            assert(sim.streams@[a] == prev[a]);
                            if b < prev.len() {
                                assert(sim.streams@[b] == prev[b]);
                            }
                        }
                        assert(sim.streams@[prev.len() as int] == st);
                        assert forall|c: int, l: int| slot_taken(prev, c, l) implies #[trigger] slot_taken(sim.streams@, c, l) by {
                            let m = choose|m: int| 0 <= m < prev.len() && #[trigger] prev[m].col == c && prev[m].layer == l;
                            assert(sim.streams@[m] == prev[m]);
                        }
                        assert forall|c: int, l: int| #[trigger] slot_taken(sim.streams@, c, l) && !(c == col && l == layer)
                            implies slot_taken(prev, c, l) by {
                            let m = choose|m: int| 0 <= m < sim.streams@.len() && #[trigger] sim.streams@[m].col == c
                                && sim.streams@[m].layer == l;
                            assert(m < prev.len());
                            assert(sim.streams@[m] == prev[m]);
                        }
                        assert(slot_taken(sim.streams@, col as int, layer as int));
                    }
                }
                col = col + 1;
            }
            layer = layer + 1;
        }
        sim
    }

    /// Advances every stream a frame and drops those that are done, keeping
    /// the order of the others.
    pub fn advance(&mut self)
        requires
            old(self).wf(),
        ensures
            final(self).wf(),
            final(self).num_cols == old(self).num_cols,
            final(self).num_rows == old(self).num_rows,
            final(self).num_layers == old(self).num_layers,
            final(self).density == old(self).density,
            final(self).charset_len == old(self).charset_len,
            advanced_all(old(self).streams@, final(self).streams@, old(self).num_rows, old(self).charset_len),
    {
        let ghost pred = |s: Stream| s.active;
        let mut rest: Vec<Stream> = Vec::new();
        std::mem::swap(&mut rest, &mut self.streams);
        let ghost all = rest@;
        let total = rest.len();
        let ghost mut after: Seq<Stream> = seq![];
        let ghost mut origin: Seq<int> = seq![];
        let mut kept: Vec<Stream> = Vec::new();
        let mut i: usize = 0;
        while rest.len() > 0
            invariant
                i <= all.len(),
                all.len() == total,
                pred == (|s: Stream| s.active),
                rest@ == all.skip(i as int),
                after.len() == i,
                forall|k: int| 0 <= k < i ==> stepped(#[trigger] all[k], after[k], self.num_rows, self.charset_len),
                kept@ == after.filter(pred),
                forall|k: int| 0 <= k < all.len() ==> self.stream_ok(#[trigger] all[k]),
                slots_distinct(all),
                forall|k: int| 0 <= k < kept@.len() ==> self.stream_ok(#[trigger] kept@[k]),
                origin.len() == kept@.len(),
                forall|k: int| 0 <= k < kept@.len() ==> 0 <= #[trigger] origin[k] < i,
                forall|k: int| 0 <= k < kept@.len() ==> #[trigger] kept@[k].col == all[origin[k]].col,
                forall|k: int| 0 <= k < kept@.len() ==> #[trigger] kept@[k].layer == all[origin[k]].layer,
                forall|a: int, b: int| 0 <= a < b < origin.len() ==> #[trigger] origin[a] < #[trigger] origin[b],
                self.num_rows == old(self).num_rows,
                self.charset_len == old(self).charset_len,
                self.num_cols == old(self).num_cols,
                self.num_layers == old(self).num_layers,
                self.density == old(self).density,
                can_spawn(self.num_cols, self.num_layers, self.density) ==> 3 <= self.num_rows <= MAX_ROWS
                    && self.charset_len > 0,
                !can_spawn(self.num_cols, self.num_layers, self.density) ==> all.len() == 0,
                self.density <= u32::MAX,
            decreases rest@.len(),
        {
            assert(i < all.len());
            let mut st = rest.remove(0);
            assert(st == all[i as int]);
            let ghost before = st;
            st.update(self.num_rows, self.charset_len);
            proof {
                after.lemma_filter_push(st, pred);
                after = after.push(st);
            }
            assert(pred(st) == st.active);
            if st.is_active() {
                kept.push(st);
                proof {
                    origin = origin.push(i as int);
                }
            }
            assert(rest@ =~= all.skip(i + 1));
            i = i + 1;
        }
        proof {
            assert forall|a: int, b: int| 0 <= a < b < kept@.len() implies !(#[trigger] kept@[a].col == #[trigger] kept@[b].col
                && kept@[a].layer == kept@[b].layer) by {
                assert(origin[a] < origin[b]);
            }
            assert(after.len() == all.len());
        }
        self.streams = kept;
    }

    /// Some stream runs down column `col` of layer `layer`.
    pub fn has_stream(&self, col: usize, layer: usize) -> (b: bool)
        ensures
            b == slot_taken(self.streams@, col as int, layer as int),
    {
        let mut k: usize = 0;
        while k < self.streams.len()
            invariant
                k <= self.streams@.len(),
                forall|j: int| 0 <= j < k ==> !(#[trigger] self.streams@[j].col == col && self.streams@[j].layer == layer),
            decreases self.streams@.len() - k,
        {
            if self.streams[k].col == col && self.streams[k].layer == layer {
                assert(self.streams@[k as int].col == col && self.streams@[k as int].layer == layer);
                return true;
            }
            k = k + 1;
        }
        false
    }

    /// Gives empty slots, layer by layer and column by column, a fresh
    /// stream with the layer's respawn chance. The streams already there
    /// stay, in order, ahead of the new ones.
    pub fn refill(&mut self)
        requires
            old(self).wf(),
        ensures
            final(self).wf(),
            final(self).num_cols == old(self).num_cols,
            final(self).num_rows == old(self).num_rows,
            final(self).num_layers == old(self).num_layers,
            final(self).density == old(self).density,
            final(self).charset_len == old(self).charset_len,
            refilled(old(self).streams@, final(self).streams@, old(self).num_rows, old(self).charset_len),
            forall|k: int| old(self).streams@.len() <= k < final(self).streams@.len() ==> respawn_chance(
                old(self).density as int,
                #[trigger] final(self).streams@[k].layer as int,
            ) > 0,
            forall|c: int, l: int|
                0 <= c < old(self).num_cols && 0 <= l < old(self).num_layers && respawn_chance(old(self).density as int, l)
                    >= PPM ==> #[trigger] slot_taken(final(self).streams@, c, l),
    {
        let ghost start = self.streams@;
        assert(start.take(start.len() as int) =~= start);
        let mut layer: usize = 0;
        while layer < self.num_layers
            invariant
                self.wf(),
                self.num_cols == old(self).num_cols,
                self.num_rows == old(self).num_rows,
                self.num_layers == old(self).num_layers,
                self.density == old(self).density,
                self.charset_len == old(self).charset_len,
                start == old(self).streams@,
                refilled(start, self.streams@, self.num_rows, self.charset_len),
                forall|k: int| start.len() <= k < self.streams@.len() ==> respawn_chance(
                    self.density as int,
                    #[trigger] self.streams@[k].layer as int,
                ) > 0,
                forall|c: int, l: int|
                    0 <= c < self.num_cols && 0 <= l < layer && respawn_chance(self.density as int, l) >= PPM
                        ==> #[trigger] slot_taken(self.streams@, c, l),
                forall|k: int| start.len() <= k < self.streams@.len() ==> #[trigger] self.streams@[k].layer < layer,
            decreases self.num_layers - layer,
        {
            let chance_ppm = layer_density_ppm(self.density, layer) / 50;
            let mut col: usize = 0;
            while col < self.num_cols
                invariant
                    layer < self.num_layers,
                    self.wf(),
                    self.num_cols == old(self).num_cols,
                    self.num_rows == old(self).num_rows,
                    self.num_layers == old(self).num_layers,
                    self.density == old(self).density,
                    self.charset_len == old(self).charset_len,
                    start == old(self).streams@,
                    refilled(start, self.streams@, self.num_rows, self.charset_len),
                    chance_ppm == respawn_chance(self.density as int, layer as int),
                    forall|k: int| start.len() <= k < self.streams@.len() ==> respawn_chance(
                        self.density as int,
                        #[trigger] self.streams@[k].layer as int,
                    ) > 0,
                    forall|c: int, l: int|
                        0 <= c < self.num_cols && (0 <= l < layer || (l == layer && c < col)) && respawn_chance(
                            self.density as int,
                            l,
                        ) >= PPM ==> #[trigger] slot_taken(self.streams@, c, l),
                    forall|k: int| start.len() <= k < self.streams@.len() ==> #[trigger] self.streams@[k].layer < layer || (
                        self.streams@[k].layer == layer && self.streams@[k].col < col),
                decreases self.num_cols - col,
            {
                if !self.has_stream(col, layer) && roll(chance_ppm) {
                    proof {
                        lemma_spawn_needs_density(self.density as int, layer as int);
                        assert(can_spawn(self.num_cols, self.num_layers, self.density));
                    }
                    let st = Stream::new(col, layer, self.num_rows, self.charset_len);
                    let ghost prev = self.streams@;
                    self.streams.push(st);
                    proof {
                        assert(self.streams@ == prev.push(st));
                        assert forall|a: int, b: int| 0 <= a < b < self.streams@.len() implies !(
                            #[trigger] self.streams@[a].col == #[trigger] self.streams@[b].col
                                && self.streams@[a].layer == self.streams@[b].layer) by {
                            assert(self.streams@[a] == prev[a]);
                            if b < prev.len() {
                                assert(self.streams@[b] == prev[b]);
                            }
                        }
                        assert(self.streams@.take(start.len() as int) =~= prev.take(start.len() as int));
                        assert(self.streams@[prev.len() as int] == st);
                        assert(self.streams@.skip(start.len() as int) =~= prev.skip(start.len() as int).push(st));
                        assert forall|a: int, b: int| 0 <= a < b < self.streams@.skip(start.len() as int).len() implies #[trigger] self.streams@.skip(
                            start.len() as int,
                        )[a].layer < #[trigger] self.streams@.skip(start.len() as int)[b].layer || (self.streams@.skip(
                            start.len() as int,
                        )[a].layer == self.streams@.skip(start.len() as int)[b].layer && self.streams@.skip(
                            start.len() as int,
                        )[a].col < self.streams@.skip(start.len() as int)[b].col) by {
                            let ps = prev.skip(start.len() as int);
                            assert(self.streams@.skip(start.len() as int)[a] == prev[start.len() + a]);
                            assert(self.streams@.skip(start.len() as int)[b] == self.streams@[start.len() + b]);
                            if b < ps.len() {
                                assert(ps[a] == prev[start.len() + a]);
                                assert(ps[b] == prev[start.len() + b]);
                            }
                        }
                        assert forall|c: int, l: int| slot_taken(prev, c, l) implies #[trigger] slot_taken(self.streams@, c, l) by {
                            let m = choose|m: int| 0 <= m < prev.len() && #[trigger] prev[m].col == c && prev[m].layer == l;
                            assert(self.streams@[m] == prev[m]);
                        }
                        assert(slot_taken(self.streams@, col as int, layer as int));
                        assert forall|k: int| start.len() <= k < self.streams@.len() implies fresh(
                            #[trigger] self.streams@[k],
                            self.num_rows,
                            self.charset_len,
                        ) && !slot_taken(start, self.streams@[k].col as int, self.streams@[k].layer as int) by {
                            if k < prev.len() {
                                assert(self.streams@[k] == prev[k]);
                            } else if slot_taken(start, col as int, layer as int) {
                                let m = choose|m: int| 0 <= m < start.len() && #[trigger] start[m].col == col
                                    && start[m].layer == layer;
                                assert(prev[m] == start[m]);
                            }
                        }
                    }
                }
                col = col + 1;
            }
            layer = layer + 1;
        }
    }

    /// One frame: every stream advances and those that are done are dropped,
    /// then empty slots may get fresh streams.
    pub fn update(&mut self)
        requires
            old(self).wf(),
        ensures
            final(self).wf(),
            final(self).num_cols == old(self).num_cols,
            final(self).num_rows == old(self).num_rows,
            final(self).num_layers == old(self).num_layers,
            final(self).density == old(self).density,
            final(self).charset_len == old(self).charset_len,
            exists|mid: Seq<Stream>| #[trigger] advanced_all(old(self).streams@, mid, old(self).num_rows, old(self).charset_len)
                && refilled(mid, final(self).streams@, old(self).num_rows, old(self).charset_len),
            forall|c: int, l: int|
                0 <= c < old(self).num_cols && 0 <= l < old(self).num_layers && respawn_chance(old(self).density as int, l)
                    >= PPM ==> #[trigger] slot_taken(final(self).streams@, c, l),
    {
        self.advance();
        let ghost mid = self.streams@;
        self.refill();
        assert(advanced_all(old(self).streams@, mid, old(self).num_rows, old(self).charset_len));
    }
}

} // verus!