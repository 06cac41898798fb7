use vstd::prelude::*;

verus! {

#[verifier::external_type_specification]
#[verifier::external_body]
pub struct ExEffect(tachyonfx::Effect);

#[verifier::external_type_specification]
#[verifier::external_body]
pub struct ExDuration(tachyonfx::Duration);

/// A shader effect that can be attached to an element.
pub struct Fx(pub tachyonfx::Effect);

/// Several shader effects attached to one element.
pub struct FxList(pub Vec<Fx>);

/// Calls `tachyonfx::fx::sequence` on no effect: an effect that does nothing.
#[verifier::external_body]
fn empty_sequence() -> (r: tachyonfx::Effect) {
    tachyonfx::fx::sequence(&[])
}

/// The effect after its timer, if it has one, was advanced by `dt`.
pub uninterp spec fn spec_effect_advanced(effect: tachyonfx::Effect, dt: tachyonfx::Duration) -> tachyonfx::Effect;

/// Calls `tachyonfx::Effect::timer_mut` and, when the effect has a timer,
/// `tachyonfx::EffectTimer::process` with `dt`, which takes `dt` off the time
/// the timer has left (down to zero) and touches nothing else. The result is
/// named, not stated: an effect is opaque here.
#[verifier::external_body]
fn effect_advance(effect: &mut tachyonfx::Effect, dt: tachyonfx::Duration)
    ensures
        *final(effect) == spec_effect_advanced(*old(effect), dt),
{
    if let Some(timer) = effect.timer_mut() {
        let _ = timer.process(dt);
    }
}

impl Fx {
    /// Wraps a shader effect so that an element can carry it.
    pub fn new(effect: tachyonfx::Effect) -> (r: Fx)
        ensures
            r.0 == effect,
    {
        Fx(effect)
    }

    /// Advances the effect's timer, if it has one, by `dt`.
    pub fn advance(&mut self, dt: tachyonfx::Duration)
        ensures
            final(self).0 == spec_effect_advanced(old(self).0, dt),
    {
        effect_advance(&mut self.0, dt);
    }
}

impl Default for Fx {
    fn default() -> (r: Fx) {
        Fx(empty_sequence())
    }
}

impl FxList {
    /// A list of effects, in order.
    pub fn new(effects: Vec<Fx>) -> (r: FxList)
        ensures
            r.0@ == effects@,
    {
        FxList(effects)
    }

    /// Advances every effect of the list by `dt`.
    pub fn advance(&mut self, dt: tachyonfx::Duration)
        ensures
            final(self).0@.len() == old(self).0@.len(),
            forall|j: int|
                0 <= j < old(self).0@.len() ==> (#[trigger] final(self).0@[j]).0 == spec_effect_advanced(
                    old(self).0@[j].0,
                    dt,
                ),
    {
        let ghost before = self.0@;
        let mut i: usize = 0;
        let n = self.0.len();
        while i < n
            invariant
                i <= n,
                n == self.0@.len(),
                n == before.len(),
                forall|j: int| 0 <= j < i ==> (#[trigger] self.0@[j]).0 == spec_effect_advanced(before[j].0, dt),
                forall|j: int| i <= j < n ==> #[trigger] self.0@[j] == before[j],
            decreases n - i,
        {
            let mut fx = self.0.remove(i);
            fx.advance(dt);
            self.0.insert(i, fx);
            i = i + 1;
        }
    }
}

} // verus!
