//! The registered effects and the choice of the active one.
use vstd::prelude::*;
use vstd::string::StringSliceAdditionalSpecFns;
use vstd::utf8::encode_utf8_decode_utf8;
use vstd::arithmetic::div_mod::{lemma_add_mod_noop_right, lemma_mod_multiples_vanish, lemma_small_mod};
use crate::color::Rgb;
use crate::drogen::DrogenEffect;
use crate::effect::LedEffect;
use crate::police_dot::PoliceDot;
use crate::police_trail::PoliceTrail;
use crate::rocket::RocketEffect;
use crate::solid::SolidColor;

verus! {

/// One of the effects the engine knows.
pub enum Effect {
    Solid(SolidColor),
    Dot(PoliceDot),
    Trail(PoliceTrail),
    Drogen(DrogenEffect),
    Rocket(RocketEffect),
}

impl LedEffect for Effect {
    open spec fn well_formed(&self) -> bool {
        match self {
            Effect::Solid(e) => e.well_formed(),
            Effect::Dot(e) => e.well_formed(),
            Effect::Trail(e) => e.well_formed(),
            Effect::Drogen(e) => e.well_formed(),
            Effect::Rocket(e) => e.well_formed(),
        }
    }

    open spec fn in_strip(&self, index: nat) -> bool {
        match self {
            Effect::Solid(e) => e.in_strip(index),
            Effect::Dot(e) => e.in_strip(index),
            Effect::Trail(e) => e.in_strip(index),
            Effect::Drogen(e) => e.in_strip(index),
            Effect::Rocket(e) => e.in_strip(index),
        }
    }

    open spec fn advanced(&self, next: &Self, delta: u32) -> bool {
        match (self, next) {
            (Effect::Solid(a), Effect::Solid(b)) => a.advanced(b, delta),
            (Effect::Dot(a), Effect::Dot(b)) => a.advanced(b, delta),
            (Effect::Trail(a), Effect::Trail(b)) => a.advanced(b, delta),
            (Effect::Drogen(a), Effect::Drogen(b)) => a.advanced(b, delta),
            (Effect::Rocket(a), Effect::Rocket(b)) => a.advanced(b, delta),
            _ => false,
        }
    }

    open spec fn color_at(&self, index: nat) -> Rgb {
        match self {
            Effect::Solid(e) => e.color_at(index),
            Effect::Dot(e) => e.color_at(index),
            Effect::Trail(e) => e.color_at(index),
            Effect::Drogen(e) => e.color_at(index),
            Effect::Rocket(e) => e.color_at(index),
        }
    }

    open spec fn label(&self) -> Seq<char> {
        match self {
            Effect::Solid(e) => e.label(),
            Effect::Dot(e) => e.label(),
            Effect::Trail(e) => e.label(),
            Effect::Drogen(e) => e.label(),
            Effect::Rocket(e) => e.label(),
        }
    }

    fn before_render(&mut self, delta: u32) {
        match self {
            Effect::Solid(e) => e.before_render(delta),
            Effect::Dot(e) => e.before_render(delta),
            Effect::Trail(e) => e.before_render(delta),
            Effect::Drogen(e) => e.before_render(delta),
            Effect::Rocket(e) => e.before_render(delta),
        }
    }

    fn render(&self, index: usize, num_leds: usize) -> (c: Rgb) {
        match self {
            Effect::Solid(e) => e.render(index, num_leds),
            Effect::Dot(e) => e.render(index, num_leds),
            Effect::Trail(e) => e.render(index, num_leds),
            Effect::Drogen(e) => e.render(index, num_leds),
            Effect::Rocket(e) => e.render(index, num_leds),
        }
    }

    fn name(&self) -> (n: &'static str) {
        match self {
            Effect::Solid(e) => e.name(),
            Effect::Dot(e) => e.name(),
            Effect::Trail(e) => e.name(),
            Effect::Drogen(e) => e.name(),
            Effect::Rocket(e) => e.name(),
        }
    }
}

/// Whether two strings hold the same characters, compared byte by byte.
pub fn same_text(a: &str, b: &str) -> (r: bool)
    ensures
        r == (a@ == b@),
{
    let x = a.as_bytes();
    let y = b.as_bytes();
    proof {
        encode_utf8_decode_utf8(a@);
        encode_utf8_decode_utf8(b@);
    }
    if x.len() != y.len() {
        return false;
    }
    let mut i: usize = 0;
    while i < x.len()
        invariant
            x@ == a.spec_bytes(),
            y@ == b.spec_bytes(),
            x@.len() == y@.len(),
            i <= x@.len(),
            forall|k: int| 0 <= k < i ==> x@[k] == y@[k],
        decreases x@.len() - i,
    {
        if x[i] != y[i] {
            return false;
        }
        i = i + 1;
    }
    assert(x@ =~= y@);
    true
}

/// The index of the first effect in `effects` named `name`, if any.
pub open spec fn first_named(effects: Seq<Effect>, name: Seq<char>) -> Option<int>
    decreases effects.len(),
{
    if effects.len() == 0 {
        None
    } else {
        match first_named(effects.drop_last(), name) {
            Some(i) => Some(i),
            None => if effects.last().label() == name {
                Some(effects.len() - 1)
            } else {
                None
            },
        }
    }
}

/// A request to switch effects, taken once per tick.
pub enum SwitchRequest {
    /// Make the next effect active.
    Next,
    /// Make the first effect with this name active.
    ByName(String),
}

/// The effects in the order they were registered, and which one is active.
pub struct EffectController {
    effects: Vec<Effect>,
    current_effect_index: usize,
}

impl EffectController {
    pub closed spec fn effects(&self) -> Seq<Effect> {
        self.effects@
    }

    /// The index of the active effect; 0 while there is none.
    pub closed spec fn current(&self) -> int {
        self.current_effect_index as int
    }

    /// The active index lies within the list whenever the list is not
    /// empty, and every effect keeps its own invariant.
    pub open spec fn well_formed(&self) -> bool {
        &&& (self.effects().len() == 0 ==> self.current() == 0)
        &&& (self.effects().len() > 0 ==> 0 <= self.current() < self.effects().len())
        &&& forall|i: int| 0 <= i < self.effects().len() ==> (#[trigger] self.effects()[i]).well_formed()
    }

    /// How many effects are registered.
    pub fn len(&self) -> (n: usize)
        ensures
            n == self.effects().len(),
    {
        self.effects.len()
    }

    /// The index of the active effect.
    pub fn current_index(&self) -> (i: usize)
        ensures
            i == self.current(),
    {
        self.current_effect_index
    }

    /// The active effect.
    pub fn current_effect(&self) -> (e: &Effect)
        requires
            self.well_formed(),
            self.effects().len() > 0,
        ensures
            *e == self.effects()[self.current()],
    {
        &self.effects[self.current_effect_index]
    }

    /// One tick: advances the active effect by `delta` microseconds, then
    /// reads the color of each of the `num_leds` pixels from it.
    pub fn render_frame(&mut self, delta: u32, num_leds: usize) -> (frame: Vec<Rgb>)
        requires
            old(self).well_formed(),
            old(self).effects().len() > 0,
            forall|i: nat| i < num_leds ==> old(self).effects()[old(self).current()].in_strip(i),
        ensures
            final(self).well_formed(),
            final(self).current() == old(self).current(),
            final(self).effects().len() == old(self).effects().len(),
            forall|i: int|
                0 <= i < old(self).effects().len() && i != old(self).current() ==> final(self).effects()[i]
                    == old(self).effects()[i],
            old(self).effects()[old(self).current()].advanced(
                &final(self).effects()[old(self).current()],
                delta,
            ),
            frame@.len() == num_leds,
            forall|i: int|
                0 <= i < num_leds ==> frame@[i] == final(self).effects()[final(self).current()].color_at(
                    i as nat,
                ),
    {
        let ghost before = self.effects@;
        let k = self.current_effect_index;
        let ghost c = before[k as int];
        assert(c.well_formed());
        {
            let e = &mut self.effects[k];
            e.before_render(delta);
        }
        assert(forall|i: nat| i < num_leds ==> c.in_strip(i));
        let e = &self.effects[k];
        assert(forall|i: nat| i < num_leds ==> e.in_strip(i));
        let mut frame: Vec<Rgb> = Vec::new();
        let mut i: usize = 0;
        while i < num_leds
            invariant
                i <= num_leds,
                e.well_formed(),
                forall|j: nat| j < num_leds ==> e.in_strip(j),
                frame@.len() == i,
                forall|j: int| 0 <= j < i ==> frame@[j] == e.color_at(j as nat),
            decreases num_leds - i,
        {
            frame.push(e.render(i, num_leds));
            i = i + 1;
        }
        frame
    }

    /// Carries out a pending request, if there is one. Returns whether the
    /// active effect was chosen anew: always for `Next`, for `ByName` only
    /// where an effect has that name.
    pub fn apply_request(&mut self, request: Option<SwitchRequest>) -> (switched: bool)
        requires
            old(self).well_formed(),
            old(self).effects().len() > 0,
        ensures
            final(self).well_formed(),
            final(self).effects() == old(self).effects(),
            match request {
                None => !switched && final(self).current() == old(self).current(),
                Some(SwitchRequest::Next) => switched && final(self).current() == (old(self).current() + 1)
                    % (old(self).effects().len() as int),
                Some(SwitchRequest::ByName(name)) => {
                    &&& switched == first_named(old(self).effects(), name@) is Some
                    &&& switched ==> Some(final(self).current()) == first_named(old(self).effects(), name@)
                    &&& !switched ==> final(self).current() == old(self).current()
                },
            },
    {
        match request {
            None => false,
            Some(SwitchRequest::Next) => {
                self.next_effect();
                true
            },
            Some(SwitchRequest::ByName(name)) => self.set_effect_by_name(name.as_str()),
        }
    }

    /// A controller with no effects.
    pub fn new() -> (c: EffectController)
        ensures
            c.well_formed(),
            c.effects().len() == 0,
            c.current() == 0,
    {
        EffectController { effects: Vec::new(), current_effect_index: 0 }
    }

    /// Registers `effect` after the others. The active index does not
    /// move, so the first effect registered becomes the active one.
    pub fn add_effect(&mut self, effect: Effect)
        requires
            old(self).well_formed(),
            effect.well_formed(),
        ensures
            final(self).well_formed(),
            final(self).effects() == old(self).effects().push(effect),
            final(self).current() == old(self).current(),
    {
        self.effects.push(effect);
    }

    /// Makes the next effect active, going round to the first after the
    /// last.
    pub fn next_effect(&mut self)
        requires
            old(self).well_formed(),
            old(self).effects().len() > 0,
        ensures
            final(self).well_formed(),
            final(self).effects() == old(self).effects(),
            final(self).current() == (old(self).current() + 1) % (old(self).effects().len() as int),
    {
        assert(self.current_effect_index < self.effects.len());
        self.current_effect_index = (self.current_effect_index + 1) % self.effects.len();
    }

    /// The active effect, to advance or to read.
    pub fn get_current_effect(&mut self) -> (e: &mut Effect)
        requires
            old(self).well_formed(),
            old(self).effects().len() > 0,
        ensures
            *e == old(self).effects()[old(self).current()],
            final(self).effects() == old(self).effects().update(old(self).current(), *final(e)),
            final(self).current() == old(self).current(),
    {
        let i = self.current_effect_index;
        &mut self.effects[i]
    }

    /// Makes the first effect named `name` active. Returns whether there
    /// was one; where there is none, nothing changes.
    pub fn set_effect_by_name(&mut self, name: &str) -> (found: bool)
        requires
            old(self).well_formed(),
        ensures
            final(self).well_formed(),
            final(self).effects() == old(self).effects(),
            found == first_named(old(self).effects(), name@) is Some,
            found ==> Some(final(self).current()) == first_named(old(self).effects(), name@),
            !found ==> final(self).current() == old(self).current(),
    {
        let mut i: usize = 0;
        while i < self.effects.len()
            invariant
                i <= self.effects@.len(),
                self.effects@ == old(self).effects@,
                self.current_effect_index == old(self).current_effect_index,
                old(self).well_formed(),
                first_named(self.effects@.subrange(0, i as int), name@) is None,
            decreases self.effects@.len() - i,
        {
            proof {
                let s = self.effects@.subrange(0, i as int + 1);
                assert(s.drop_last() =~= self.effects@.subrange(0, i as int));
            }
            if same_text(self.effects[i].name(), name) {
                proof {
                    lemma_first_named_prefix(self.effects@, i as int + 1, name@);
                }
                self.current_effect_index = i;
                return true;
            }
            i = i + 1;
        }
        proof {
            assert(self.effects@.subrange(0, i as int) =~= self.effects@);
        }
        false
    }
}

/// The active index after `k` calls of `next_effect` from `start` on a list
/// of `len` effects.
pub open spec fn advanced_times(start: int, len: int, k: nat) -> int
    decreases k,
{
    if k == 0 {
        start
    } else {
        (advanced_times(start, len, (k - 1) as nat) + 1) % len
    }
}

proof fn lemma_advanced_times(start: int, len: int, k: nat)
    requires
        0 <= start < len,
    ensures
        advanced_times(start, len, k) == (start + k) % len,
    decreases k,
{
    if k > 0 {
        lemma_advanced_times(start, len, (k - 1) as nat);
        lemma_add_mod_noop_right(1, start + k - 1, len);
    } else {
        lemma_small_mod(start as nat, len as nat);
    }
}

/// Advancing once per registered effect brings the controller back to the
/// effect it started from: with three effects A, B, C and A active, three
/// calls of `next_effect` make A active again.
pub proof fn lemma_advance_cycle(start: int, len: int)
    requires
        0 <= start < len,
    ensures
        advanced_times(start, len, len as nat) == start,
{
    lemma_advanced_times(start, len, len as nat);
    lemma_mod_multiples_vanish(1, start, len);
    lemma_small_mod(start as nat, len as nat);
}

/// A match in a prefix is the first match in the whole list.
proof fn lemma_first_named_prefix(effects: Seq<Effect>, k: int, name: Seq<char>)
    requires
        0 <= k <= effects.len(),
        first_named(effects.subrange(0, k), name) is Some,
    ensures
        first_named(effects, name) == first_named(effects.subrange(0, k), name),
    decreases effects.len() - k,
{
    if k < effects.len() {
        assert(effects.subrange(0, k + 1).drop_last() =~= effects.subrange(0, k));
        lemma_first_named_prefix(effects, k + 1, name);
    } else {
        assert(effects.subrange(0, k) =~= effects);
    }
}

} // verus!
