//! The animated background: falling glyph streams advanced on a fixed
//! schedule. Positions are integers — vertical position and the visible
//! limit are in thousandths of a pixel, speeds in pixels per second — so a
//! tick of `delta` milliseconds advances a drop by exactly
//! `speed * delta` thousandths. Randomness comes from the random number
//! generator the caller owns; everything else is exact.
use vstd::prelude::*;
use rand::Rng;

verus! {

/// The glyphs a stream is built from.
pub const MATRIX_CHARS: &'static str = "ABCDEFGHIJKLMNOPQRSTUVWXYZ0123456789@#$%^&*()_+-=[]{}|;:,.<>?";

/// The bottom of the visible extent, in thousandths of a pixel.
pub const VISIBLE_BOTTOM_MILLI: i64 = 800000;

/// The most drops alive at once.
pub const MAX_DROPS: usize = 20;

/// How many pixels of height each glyph of a stream occupies.
pub const GLYPH_HEIGHT: i64 = 20;

#[verifier::external_type_specification]
#[verifier::external_body]
pub struct ExThreadRng(rand::rngs::ThreadRng);

/// Relies on rand's thread_rng: a handle to the thread-local generator.
#[verifier::external_body]
pub fn fresh_rng() -> rand::rngs::ThreadRng {
    rand::thread_rng()
}

/// Relies on Rng::gen_range over `0..n`: a draw below the bound; the call
/// panics on an empty range, so the bound must be positive. Nothing more
/// can be promised of a random draw.
#[verifier::external_body]
pub fn rng_below(rng: &mut rand::rngs::ThreadRng, n: u32) -> (r: u32)
    requires
        n > 0,
    ensures
        r < n,
{
    rng.gen_range(0..n)
}

/// One falling glyph stream.
#[derive(Debug, Clone)]
pub struct MatrixDrop {
    pub x: u32,
    pub y: i64,
    pub chars: Vec<char>,
    pub speed: u32,
    pub brightness: usize,
}

/// Everything observable about a drop except which glyphs it shows: the
/// glyphs flicker at random, the rest is deterministic.
pub open spec fn drop_skel(d: MatrixDrop) -> (u32, int, nat, u32, usize) {
    (d.x, d.y as int, d.chars@.len(), d.speed, d.brightness)
}

/// A drop's skeleton after a tick of `delta` milliseconds.
pub open spec fn drop_skel_advanced(d: MatrixDrop, delta: u32) -> (u32, int, nat, u32, usize) {
    (d.x, d.y + d.speed * delta, d.chars@.len(), d.speed, d.brightness)
}

impl MatrixDrop {
    /// The ranges every live drop stays in; the position bound is what the
    /// engine's sweep maintains, and is what keeps a tick's arithmetic in
    /// range.
    pub open spec fn wf(self) -> bool {
        &&& 5 <= self.chars@.len() <= 15
        &&& 50 <= self.speed <= 150
        &&& 1 <= self.brightness <= 4
        &&& -400000 <= self.y <= VISIBLE_BOTTOM_MILLI
    }

    /// A fresh drop at the given column: a random glyph run of five to
    /// fifteen, starting above the visible top by its own height, falling
    /// at a random speed with a random brightness.
    pub fn new(x: u32, rng: &mut rand::rngs::ThreadRng) -> (r: MatrixDrop)
        ensures
            r.wf(),
            r.x == x,
            r.y == -(r.chars@.len() * GLYPH_HEIGHT * 1000),
            forall|k: int|
                0 <= k < r.chars@.len() ==> MATRIX_CHARS@.contains(#[trigger] r.chars@[k]),
    {
        let length: u32 = 5 + rng_below(rng, 11);
        let glyph_count = MATRIX_CHARS.unicode_len();
        proof {
            reveal_strlit("ABCDEFGHIJKLMNOPQRSTUVWXYZ0123456789@#$%^&*()_+-=[]{}|;:,.<>?");
            assert(MATRIX_CHARS@.len() == 61);
        }
        let mut chars: Vec<char> = Vec::new();
        let mut i: u32 = 0;
        while i < length
            invariant
                i <= length,
                5 <= length <= 15,
                chars@.len() == i,
                glyph_count == MATRIX_CHARS@.len(),
                0 < glyph_count <= 0xffff_ffff,
                forall|k: int|
                    0 <= k < chars@.len() ==> MATRIX_CHARS@.contains(#[trigger] chars@[k]),
            decreases length - i,
        {
            let idx = rng_below(rng, glyph_count as u32);
            let c = MATRIX_CHARS.get_char(idx as usize);
            proof {
                assert(MATRIX_CHARS@[idx as int] == c);
                assert(MATRIX_CHARS@.contains(c));
            }
            chars.push(c);
            i = i + 1;
        }
        let y: i64 = -((length as i64) * GLYPH_HEIGHT * 1000);
        let speed: u32 = 50 + rng_below(rng, 101);
        let brightness: usize = 1 + (rng_below(rng, 4) as usize);
        MatrixDrop { x, y, chars, speed, brightness }
    }

    /// One tick: the drop falls by `speed * delta` thousandths of a pixel
    /// and each glyph flickers with small probability; whether it has left
    /// the visible extent is returned. Everything but the glyph choice is
    /// exact.
    pub fn update(&mut self, delta_ms: u32, rng: &mut rand::rngs::ThreadRng) -> (removed: bool)
        requires
            old(self).wf(),
        ensures
            drop_skel(*final(self)) == drop_skel_advanced(*old(self), delta_ms),
            removed == (final(self).y > VISIBLE_BOTTOM_MILLI),
            !removed ==> final(self).wf(),
            forall|k: int|
                0 <= k < final(self).chars@.len() ==> #[trigger] final(self).chars@[k] == old(
                    self,
                ).chars@[k] || MATRIX_CHARS@.contains(final(self).chars@[k]),
    {
        proof {
            let sp = old(self).speed as int;
            let dm = delta_ms as int;
            assert(sp * dm <= 150 * 4294967295int) by (nonlinear_arith)
                requires
                    0 <= sp <= 150,
                    0 <= dm <= 4294967295,
            ;
        }
        let step: i64 = (self.speed as i64) * (delta_ms as i64);
        self.y = self.y + step;
        let glyph_count = MATRIX_CHARS.unicode_len();
        proof {
            reveal_strlit("ABCDEFGHIJKLMNOPQRSTUVWXYZ0123456789@#$%^&*()_+-=[]{}|;:,.<>?");
            assert(MATRIX_CHARS@.len() == 61);
        }
        let n = self.chars.len();
        let mut i: usize = 0;
        while i < n
            invariant
                i <= n,
                n == self.chars@.len(),
                glyph_count == MATRIX_CHARS@.len(),
                0 < glyph_count <= 0xffff_ffff,
                self.x == old(self).x,
                self.y == old(self).y + old(self).speed * delta_ms,
                self.speed == old(self).speed,
                self.brightness == old(self).brightness,
                old(self).wf(),
                forall|k: int|
                    0 <= k < self.chars@.len() ==> #[trigger] self.chars@[k] == old(
                        self,
                    ).chars@[k] || MATRIX_CHARS@.contains(self.chars@[k]),
            decreases n - i,
        {
            if rng_below(rng, 10) == 0 {
                let idx = rng_below(rng, glyph_count as u32);
                let c = MATRIX_CHARS.get_char(idx as usize);
                proof {
                    assert(MATRIX_CHARS@[idx as int] == c);
                    assert(MATRIX_CHARS@.contains(c));
                }
                self.chars.set(i, c);
            }
            i = i + 1;
        }
        self.y > VISIBLE_BOTTOM_MILLI
    }
}

/// The shared collection of live drops, advanced by the scheduler and
/// copied by the renderer.
pub struct MatrixEffectManager {
    pub drops: Vec<MatrixDrop>,
    pub terminal_width: u16,
    pub terminal_height: u16,
}

/// The fall-and-sweep relation of one tick: every drop advances by
/// `speed * delta`, and exactly those whose new position is past the
/// visible bottom leave.
pub open spec fn visible_pred() -> spec_fn((u32, int, nat, u32, usize)) -> bool {
    |s: (u32, int, nat, u32, usize)| s.1 <= VISIBLE_BOTTOM_MILLI
}

pub open spec fn advanced_fn(delta: u32) -> spec_fn(MatrixDrop) -> (u32, int, nat, u32, usize) {
    |d: MatrixDrop| drop_skel_advanced(d, delta)
}

pub open spec fn skel_fn() -> spec_fn(MatrixDrop) -> (u32, int, nat, u32, usize) {
    |d: MatrixDrop| drop_skel(d)
}

pub open spec fn tick_skeletons(drops: Seq<MatrixDrop>, delta: u32) -> Seq<
    (u32, int, nat, u32, usize),
> {
    drops.map_values(advanced_fn(delta)).filter(visible_pred())
}

/// Law: a tick never grows the population — with no spawn, the element
/// count can only stay or fall, however many ticks pass.
pub proof fn lemma_tick_never_grows(drops: Seq<MatrixDrop>, delta: u32)
    ensures
        tick_skeletons(drops, delta).len() <= drops.len(),
{
    let mapped = drops.map_values(advanced_fn(delta));
    mapped.lemma_filter_len(visible_pred());
}

/// Law: a drop survives a tick exactly when its advanced position is still
/// within the visible extent — never sooner, never later.
pub proof fn lemma_tick_keeps_exactly_the_visible(drops: Seq<MatrixDrop>, delta: u32, k: int)
    requires
        0 <= k < tick_skeletons(drops, delta).len(),
    ensures
        tick_skeletons(drops, delta)[k].1 <= VISIBLE_BOTTOM_MILLI,
{
    let mapped = drops.map_values(advanced_fn(delta));
    mapped.lemma_filter_pred(visible_pred(), k);
}

impl MatrixEffectManager {
    /// Every live drop is in range, and the population respects the cap.
    pub open spec fn wf(self) -> bool {
        &&& self.drops@.len() <= MAX_DROPS
        &&& forall|k: int| 0 <= k < self.drops@.len() ==> (#[trigger] self.drops@[k]).wf()
    }

    /// An empty collection for a terminal of the given size.
    pub fn new(terminal_width: u16, terminal_height: u16) -> (r: MatrixEffectManager)
        ensures
            r.wf(),
            r.drops@.len() == 0,
            r.terminal_width == terminal_width,
            r.terminal_height == terminal_height,
    {
        MatrixEffectManager { drops: Vec::new(), terminal_width, terminal_height }
    }

    /// Sometimes spawns one fresh drop at a random column — only while the
    /// population is below the cap, so the cap is never passed.
    pub fn add_random_drops(&mut self, rng: &mut rand::rngs::ThreadRng)
        requires
            old(self).wf(),
            old(self).terminal_width > 0,
        ensures
            final(self).wf(),
            final(self).terminal_width == old(self).terminal_width,
            final(self).terminal_height == old(self).terminal_height,
            final(self).drops@ == old(self).drops@ || (old(self).drops@.len() < MAX_DROPS
                && final(self).drops@.len() == old(self).drops@.len() + 1
                && final(self).drops@.take(old(self).drops@.len() as int) == old(self).drops@
                && final(self).drops@.last().wf() && final(self).drops@.last().x < old(
                self,
            ).terminal_width),
    {
        if rng_below(rng, 10) < 3 && self.drops.len() < MAX_DROPS {
            let x = rng_below(rng, self.terminal_width as u32);
            let drop = MatrixDrop::new(x, rng);
            self.drops.push(drop);
            proof {
                assert(final(self).drops@.take(old(self).drops@.len() as int) =~= old(
                    self,
                ).drops@);
            }
        }
    }

    /// One tick over the whole population: every drop falls by its speed
    /// times the elapsed milliseconds, glyphs flicker, and exactly the
    /// drops that passed the visible bottom are removed. The population
    /// never grows.
    pub fn update_drops(&mut self, delta_ms: u32, rng: &mut rand::rngs::ThreadRng)
        requires
            old(self).wf(),
        ensures
            final(self).wf(),
            final(self).terminal_width == old(self).terminal_width,
            final(self).terminal_height == old(self).terminal_height,
            final(self).drops@.map_values(|d: MatrixDrop| drop_skel(d)) == tick_skeletons(
                old(self).drops@,
                delta_ms,
            ),
            final(self).drops@.len() <= old(self).drops@.len(),
    {
        broadcast use vstd::seq_lib::group_seq_properties;

        let ghost before = self.drops@;
        let ghost pred = visible_pred();
        let ghost adv = advanced_fn(delta_ms);
        let ghost skel_of = skel_fn();
        let ghost mut j: int = 0;
        let mut i: usize = 0;
        proof {
            reveal(Seq::filter);
            assert(before.take(0).map_values(adv).filter(pred) =~= Seq::<
                (u32, int, nat, u32, usize),
            >::empty());
            assert(self.drops@.take(0).map_values(skel_of) =~= Seq::<
                (u32, int, nat, u32, usize),
            >::empty());
            assert(self.drops@.skip(0) =~= before.skip(0));
        }
        while i < self.drops.len()
            invariant
                pred == visible_pred(),
                adv == advanced_fn(delta_ms),
                skel_of == skel_fn(),
                0 <= j <= before.len(),
                before.len() <= MAX_DROPS,
                self.terminal_width == old(self).terminal_width,
                self.terminal_height == old(self).terminal_height,
                i <= self.drops@.len(),
                self.drops@.len() <= before.len(),
                forall|k: int| 0 <= k < before.len() ==> (#[trigger] before[k]).wf(),
                self.drops@.take(i as int).map_values(skel_of) == before.take(j).map_values(
                    adv,
                ).filter(pred),
                i == before.take(j).map_values(adv).filter(pred).len(),
                self.drops@.skip(i as int) == before.skip(j),
                forall|k: int| 0 <= k < i ==> (#[trigger] self.drops@[k]).wf(),
            decreases before.len() - j,
        {
            let ghost cur = self.drops@;
            proof {
                reveal(Seq::filter);
                assert(cur.skip(i as int).len() == cur.len() - i);
                assert(before.skip(j).len() == before.len() - j);
                assert(j < before.len());
                assert(cur.skip(i as int)[0] == cur[i as int]);
                assert(before.skip(j)[0] == before[j]);
                assert(cur[i as int] == before[j]);
                assert(before.take(j + 1).drop_last() =~= before.take(j));
                assert(before.take(j + 1).last() == before[j]);
                assert(before.take(j + 1).map_values(adv).drop_last() =~= before.take(
                    j,
                ).map_values(adv));
                assert(before.take(j + 1).map_values(adv).last() == adv(before[j]));
            }
            let mut d = self.drops.remove(i);
            let ghost after_remove = self.drops@;
            let removed = d.update(delta_ms, rng);
            proof {
                assert(adv(before[j]) == drop_skel_advanced(before[j], delta_ms));
                assert(skel_of(d) == drop_skel(d));
                assert(pred(adv(before[j])) == (drop_skel_advanced(before[j], delta_ms).1
                    <= VISIBLE_BOTTOM_MILLI));
                assert(drop_skel(d) == adv(before[j]));
                assert(after_remove.take(i as int) =~= cur.take(i as int));
                assert(after_remove.skip(i as int) =~= cur.skip(i + 1 as int));
                assert(cur.skip(i + 1 as int) =~= before.skip(j).drop_first());
                assert(before.skip(j).drop_first() =~= before.skip(j + 1));
            }
            if removed {
                proof {
                    reveal(Seq::filter);
                    assert(!pred(adv(before[j])));
                    assert(before.take(j + 1).map_values(adv).filter(pred) == before.take(
                        j,
                    ).map_values(adv).filter(pred));
                    assert(self.drops@.take(i as int).map_values(skel_of) =~= before.take(
                        j + 1,
                    ).map_values(adv).filter(pred));
                    assert(self.drops@.skip(i as int) =~= before.skip(j + 1));
                    j = j + 1;
                }
            } else {
                self.drops.insert(i, d);
                proof {
                    reveal(Seq::filter);
                    assert(pred(adv(before[j])));
                    assert(before.take(j + 1).map_values(adv).filter(pred) == before.take(
                        j,
                    ).map_values(adv).filter(pred).push(adv(before[j])));
                    assert(self.drops@.take(i + 1 as int) =~= after_remove.take(i as int).push(
                        d,
                    ));
                    assert(self.drops@.take(i + 1 as int).map_values(skel_of) =~= cur.take(
                        i as int,
                    ).map_values(skel_of).push(drop_skel(d)));
                    assert(self.drops@.take(i + 1 as int).map_values(skel_of) =~= before.take(
                        j + 1,
                    ).map_values(adv).filter(pred));
                    assert(self.drops@.skip(i + 1 as int) =~= before.skip(j + 1));
                    j = j + 1;
                }
                i = i + 1;
            }
        }
        proof {
            assert(j == before.len());
            assert(before.take(j) =~= before);
            assert(self.drops@.take(i as int) =~= self.drops@);
            assert(self.drops@.map_values(skel_of) == before.map_values(adv).filter(pred));
            assert(before.map_values(adv).filter(pred) == tick_skeletons(before, delta_ms));
            assert(self.drops@.map_values(skel_of) == self.drops@.map_values(
                |d: MatrixDrop| drop_skel(d),
            ));
            before.map_values(adv).lemma_filter_len(pred);
        }
    }

    /// A deep copy of the live drops, for the renderer to draw from
    /// outside the lock.
    pub fn snapshot(&self) -> (r: Vec<MatrixDrop>)
        ensures
            r@.len() == self.drops@.len(),
            forall|k: int|
                0 <= k < r@.len() ==> #[trigger] r@[k].x == self.drops@[k].x && r@[k].y
                    == self.drops@[k].y && r@[k].chars@ == self.drops@[k].chars@ && r@[k].speed
                    == self.drops@[k].speed && r@[k].brightness == self.drops@[k].brightness,
    {
        let n = self.drops.len();
        let mut r: Vec<MatrixDrop> = Vec::new();
        let mut i: usize = 0;
        while i < n
            invariant
                i <= n,
                n == self.drops@.len(),
                r@.len() == i,
                forall|k: int|
                    0 <= k < i ==> #[trigger] r@[k].x == self.drops@[k].x && r@[k].y
                        == self.drops@[k].y && r@[k].chars@ == self.drops@[k].chars@ && r@[k].speed
                        == self.drops@[k].speed && r@[k].brightness == self.drops@[k].brightness,
            decreases n - i,
        {
            let src = &self.drops[i];
            let m = src.chars.len();
            let mut chars: Vec<char> = Vec::new();
            let mut k: usize = 0;
            while k < m
                invariant
                    k <= m,
                    m == src.chars@.len(),
                    chars@ == src.chars@.take(k as int),
                decreases m - k,
            {
                chars.push(src.chars[k]);
                proof {
                    assert(src.chars@.take(k + 1 as int) =~= src.chars@.take(k as int).push(
                        src.chars@[k as int],
                    ));
                }
                k = k + 1;
            }
            proof {
                assert(src.chars@.take(m as int) =~= src.chars@);
            }
            r.push(
                MatrixDrop {
                    x: src.x,
                    y: src.y,
                    chars,
                    speed: src.speed,
                    brightness: src.brightness,
                },
            );
            i = i + 1;
        }
        r
    }
}

/// The global fade factor in thousandths: rising linearly over the first
/// fifth of a second after a keystroke, full afterwards.
pub fn fade_permille(idle_elapsed_ms: u64) -> (r: u64)
    ensures
        idle_elapsed_ms < 200 ==> r == idle_elapsed_ms * 5,
        idle_elapsed_ms >= 200 ==> r == 1000,
        r <= 1000,
{
    if idle_elapsed_ms < 200 {
        idle_elapsed_ms * 5
    } else {
        1000
    }
}

} // verus!
