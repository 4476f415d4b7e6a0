//! The side effects that the simulation asks its host to perform.

use vstd::prelude::*;
use crate::sound::{Sound, SoundKind};
use crate::world::Entity;

verus! {

/// A request to the host. The simulation has already changed its own state
/// when it hands one out.
#[derive(Clone, Copy, Debug, PartialEq, Eq)]
pub enum Effect {
    /// Play this recording once.
    PlaySound(Sound),
    /// Stop showing this entity: it has left the simulation.
    Despawn(Entity),
}

/// The part of an effect that the state of the simulation decides: everything
/// but the choice among the recordings of a sound.
pub enum Cue {
    Sound(SoundKind),
    Despawn(Entity),
}

impl Effect {
    pub open spec fn cue(self) -> Cue {
        match self {
            Effect::PlaySound(sound) => Cue::Sound(sound.kind()),
            Effect::Despawn(entity) => Cue::Despawn(entity),
        }
    }
}

/// The cues of a list of effects, in order.
pub open spec fn cues(effects: Seq<Effect>) -> Seq<Cue> {
    effects.map_values(|effect: Effect| effect.cue())
}

/// Adding an effect to a list adds its cue to the list's cues.
pub proof fn lemma_cues_push(effects: Seq<Effect>, effect: Effect)
    ensures
        cues(effects.push(effect)) == cues(effects).push(effect.cue()),
{
    assert(cues(effects.push(effect)) =~= cues(effects).push(effect.cue()));
}

/// The cues of two lists in a row are the cues of the first and then those of
/// the second.
pub proof fn lemma_cues_add(first: Seq<Effect>, second: Seq<Effect>)
    ensures
        cues(first + second) == cues(first) + cues(second),
{
    assert(cues(first + second) =~= cues(first) + cues(second));
}

} // verus!
