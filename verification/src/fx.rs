use vstd::prelude::*;

use crate::color::Rgb8;
use crate::effect::{
    pattern_pixel, pattern_shift, wheel_pixel, ColorPattern, ColorWheel, StripInfo,
};

verus! {

/// One configured effect: a tagged variant dispatched by match.
#[derive(Debug, Clone)]
pub enum Effect {
    Wheel(ColorWheel),
    Pattern(ColorPattern),
}

impl Effect {
    /// A pattern must have a nonempty palette that fits the index
    /// arithmetic; a wheel carries no constraint.
    pub open spec fn wf(self) -> bool {
        match self {
            Effect::Wheel(_) => true,
            Effect::Pattern(p) => 0 < p.colors.len() <= 0xffff_ffff,
        }
    }

    /// What the effect writes at pixel `i` at time `time`.
    pub open spec fn spec_pixel(self, i: int, time: u64) -> Rgb8 {
        match self {
            Effect::Wheel(w) => wheel_pixel(w, i, time),
            Effect::Pattern(p) => pattern_pixel(
                p.colors@,
                pattern_shift(p.speed_permille, p.colors.len() as int, time),
                i,
            ),
        }
    }

    /// Render this effect into the first `info.leds` pixels of `buf`.
    pub fn update(&self, info: &StripInfo, buf: &mut Vec<Rgb8>, time: u64)
        requires
            old(buf).len() >= info.leds,
            self.wf(),
        ensures
            final(buf).len() == old(buf).len(),
            forall|i: int| 0 <= i < info.leds ==> final(buf)[i] == self.spec_pixel(i, time),
            forall|i: int|
                info.leds <= i < final(buf).len() ==> final(buf)[i] == old(buf)[i],
    {
        match self {
            Effect::Wheel(w) => w.render(info, buf, time),
            Effect::Pattern(p) => p.render(info, buf, time),
        }
    }
}

/// The configured effects and the index of the active one. Moving through
/// them wraps around in both directions.
pub struct Effects {
    pub list: Vec<Effect>,
    pub index: usize,
}

/// The index after one forward step.
pub open spec fn next_index(i: int, n: int) -> int {
    (i + 1) % n
}

/// The index reached from `i` after `k` forward steps among `n` effects.
pub open spec fn iterate_next(i: int, n: int, k: nat) -> int
    decreases k,
{
    if k == 0 {
        i
    } else {
        next_index(iterate_next(i, n, (k - 1) as nat), n)
    }
}

impl Effects {
    /// At least one effect is configured, the active index is in range, and
    /// every effect is usable.
    pub open spec fn wf(self) -> bool {
        &&& 0 < self.list.len()
        &&& self.index < self.list.len()
        &&& forall|i: int| 0 <= i < self.list.len() ==> self.list[i].wf()
    }

    pub fn new(list: Vec<Effect>) -> (fx: Self)
        requires
            0 < list.len(),
            forall|i: int| 0 <= i < list.len() ==> list[i].wf(),
        ensures
            fx.wf(),
            fx.list == list,
            fx.index == 0,
    {
        Self { list, index: 0 }
    }

    /// Jump to the given effect, wrapping modulo the number of effects.
    pub fn set_effect(&mut self, index: usize)
        requires
            old(self).wf(),
        ensures
            final(self).wf(),
            final(self).list == old(self).list,
            final(self).index == index as int % old(self).list.len() as int,
    {
        self.index = index % self.list.len();
    }

    /// Step forward to the next effect, wrapping past the last one.
    pub fn next_effect(&mut self)
        requires
            old(self).wf(),
        ensures
            final(self).wf(),
            final(self).list == old(self).list,
            final(self).index == next_index(old(self).index as int, old(self).list.len() as int),
    {
        self.index = (self.index + 1) % self.list.len();
    }

    /// Step back to the previous effect, wrapping below the first one.
    pub fn prev_effect(&mut self)
        requires
            old(self).wf(),
        ensures
            final(self).wf(),
            final(self).list == old(self).list,
            final(self).index == if old(self).index == 0 {
                old(self).list.len() - 1
            } else {
                old(self).index - 1
            },
    {
        if self.index == 0 {
            self.index = self.list.len() - 1;
        } else {
            self.index = self.index - 1;
        }
    }

    /// Move by a signed delta, wrapping in either direction.
    pub fn shift_effect(&mut self, delta: i8)
        requires
            old(self).wf(),
        ensures
            final(self).wf(),
            final(self).list == old(self).list,
            final(self).index == (old(self).index + delta as int) % old(self).list.len() as int,
    {
        let n = self.list.len();
        if delta >= 0 {
            let d = (delta as usize) % n;
            proof {
                lemma_shift_pos(self.index as int, delta as int, n as int);
            }
            let nd = n - d;
            if self.index >= nd {
                self.index = self.index - nd;
            } else {
                self.index = self.index + d;
            }
        } else {
            let neg = (-(delta as i32)) as usize;
            let d = neg % n;
            proof {
                lemma_shift_neg(self.index as int, neg as int, n as int);
            }
            if self.index >= d {
                self.index = self.index - d;
            } else {
                self.index = self.index + (n - d);
            }
        }
    }

    /// The active effect.
    pub fn current_effect(&self) -> (e: &Effect)
        requires
            self.wf(),
        ensures
            *e == self.list[self.index as int],
            e.wf(),
    {
        &self.list[self.index]
    }

    pub fn index(&self) -> (i: usize)
        ensures
            i == self.index,
    {
        self.index
    }

    /// Render the active effect into the first `info.leds` pixels of `buf`.
    pub fn update(&self, info: &StripInfo, buf: &mut Vec<Rgb8>, now: u64)
        requires
            self.wf(),
            old(buf).len() >= info.leds,
        ensures
            final(buf).len() == old(buf).len(),
            forall|i: int|
                0 <= i < info.leds ==> final(buf)[i] == self.list[self.index as int].spec_pixel(
                    i,
                    now,
                ),
            forall|i: int|
                info.leds <= i < final(buf).len() ==> final(buf)[i] == old(buf)[i],
    {
        let e = self.current_effect();
        e.update(info, buf, now)
    }
}

/// A nonnegative step wraps by reducing the step first, then stepping within
/// the index range.
proof fn lemma_shift_pos(i: int, d: int, n: int)
    requires
        0 <= i < n,
        0 <= d,
    ensures
        0 <= d % n < n,
        (i + d) % n == if i >= n - d % n {
            i - (n - d % n)
        } else {
            i + d % n
        },
{
    vstd::arithmetic::div_mod::lemma_mod_bound(d, n);
    vstd::arithmetic::div_mod::lemma_add_mod_noop_right(i, d, n);
    if i >= n - d % n {
        vstd::arithmetic::div_mod::lemma_mod_sub_multiples_vanish(i + d % n, n);
        vstd::arithmetic::div_mod::lemma_small_mod((i + d % n - n) as nat, n as nat);
    } else {
        vstd::arithmetic::div_mod::lemma_small_mod((i + d % n) as nat, n as nat);
    }
}

/// A negative step of magnitude `m` lands where stepping back by `m mod n`
/// lands, computed without leaving the index range.
proof fn lemma_shift_neg(i: int, m: int, n: int)
    requires
        0 <= i < n,
        0 <= m,
    ensures
        (i - m) % n == if i >= m % n {
            i - m % n
        } else {
            i + n - m % n
        },
{
    vstd::arithmetic::div_mod::lemma_mod_bound(m, n);
    vstd::arithmetic::div_mod::lemma_sub_mod_noop(i, m, n);
    vstd::arithmetic::div_mod::lemma_small_mod(i as nat, n as nat);
    vstd::arithmetic::div_mod::lemma_mod_twice(m, n);
    if i >= m % n {
        vstd::arithmetic::div_mod::lemma_small_mod((i - m % n) as nat, n as nat);
    } else {
        vstd::arithmetic::div_mod::lemma_mod_add_multiples_vanish(i - m % n, n);
        vstd::arithmetic::div_mod::lemma_small_mod((i + n - m % n) as nat, n as nat);
    }
}

/// Stepping forward is a cycle: from any index among `n` effects, `n`
/// forward steps return to the starting index, and one backward step from
/// index zero lands on the last index (the latter is the `prev_effect`
/// contract itself).
pub proof fn lemma_next_cycles(i: int, n: int)
    requires
        0 <= i < n,
    ensures
        iterate_next(i, n, n as nat) == i,
{
    lemma_iterate_adds(i, n, n as nat);
    vstd::arithmetic::div_mod::lemma_mod_add_multiples_vanish(i, n);
    vstd::arithmetic::div_mod::lemma_small_mod(i as nat, n as nat);
}

/// `k` forward steps land on `(i + k) mod n`.
pub proof fn lemma_iterate_adds(i: int, n: int, k: nat)
    requires
        0 <= i < n,
        0 < n,
    ensures
        iterate_next(i, n, k) == (i + k) % n,
    decreases k,
{
    if k == 0 {
        vstd::arithmetic::div_mod::lemma_small_mod(i as nat, n as nat);
    } else {
        lemma_iterate_adds(i, n, (k - 1) as nat);
        assert(iterate_next(i, n, k) == ((i + k - 1) % n + 1) % n);
        vstd::arithmetic::div_mod::lemma_add_mod_noop_right(1, i + k - 1, n);
    }
}

} // verus!
