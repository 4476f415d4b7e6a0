//! The sound effects of the game and the choice among their variants.

use vstd::prelude::*;
use rand::rngs::StdRng;
use crate::random::choose_sound;

verus! {

/// What a sound effect is played for.
#[derive(Clone, Copy, Debug, PartialEq, Eq)]
pub enum SoundKind {
    /// An enemy bounces off a wall.
    Impact,
    /// The player collects a star.
    Pluck,
    /// An enemy catches the player.
    Explosion,
}

/// One recording of a sound effect. Impacts come in five variants, plucks and
/// explosions in two.
#[derive(Clone, Copy, Debug, PartialEq, Eq)]
pub enum Sound {
    Impact0,
    Impact1,
    Impact2,
    Impact3,
    Impact4,
    Pluck0,
    Pluck1,
    Explosion0,
    Explosion1,
}

impl Sound {
    pub open spec fn spec_kind(&self) -> SoundKind {
        match self {
            Sound::Impact0 | Sound::Impact1 | Sound::Impact2 | Sound::Impact3 | Sound::Impact4 => {
                SoundKind::Impact
            },
            Sound::Pluck0 | Sound::Pluck1 => SoundKind::Pluck,
            Sound::Explosion0 | Sound::Explosion1 => SoundKind::Explosion,
        }
    }

    /// The event that this recording belongs to.
    #[verifier::when_used_as_spec(spec_kind)]
    pub fn kind(&self) -> (kind: SoundKind)
        ensures
            kind == self.spec_kind(),
    {
        match self {
            Sound::Impact0 | Sound::Impact1 | Sound::Impact2 | Sound::Impact3 | Sound::Impact4 => {
                SoundKind::Impact
            },
            Sound::Pluck0 | Sound::Pluck1 => SoundKind::Pluck,
            Sound::Explosion0 | Sound::Explosion1 => SoundKind::Explosion,
        }
    }

    /// Where the recording lies among the assets.
    pub open spec fn path(self) -> Seq<char> {
        match self {
            Sound::Impact0 => "audio/impactMining_000.ogg"@,
            Sound::Impact1 => "audio/impactMining_001.ogg"@,
            Sound::Impact2 => "audio/impactMining_002.ogg"@,
            Sound::Impact3 => "audio/impactMining_003.ogg"@,
            Sound::Impact4 => "audio/impactMining_004.ogg"@,
            Sound::Pluck0 => "audio/pluck_000.ogg"@,
            Sound::Pluck1 => "audio/pluck_001.ogg"@,
            Sound::Explosion0 => "audio/explosionCrunch_000.ogg"@,
            Sound::Explosion1 => "audio/explosionCrunch_001.ogg"@,
        }
    }

    /// The asset path of the recording.
    pub fn asset_path(&self) -> (path: &'static str)
        ensures
            path@ == self.path(),
    {
        match self {
            Sound::Impact0 => "audio/impactMining_000.ogg",
            Sound::Impact1 => "audio/impactMining_001.ogg",
            Sound::Impact2 => "audio/impactMining_002.ogg",
            Sound::Impact3 => "audio/impactMining_003.ogg",
            Sound::Impact4 => "audio/impactMining_004.ogg",
            Sound::Pluck0 => "audio/pluck_000.ogg",
            Sound::Pluck1 => "audio/pluck_001.ogg",
            Sound::Explosion0 => "audio/explosionCrunch_000.ogg",
            Sound::Explosion1 => "audio/explosionCrunch_001.ogg",
        }
    }
}

/// The recordings that exist for one kind of event, in the order of their
/// numbers.
pub open spec fn variants(kind: SoundKind) -> Seq<Sound> {
    match kind {
        SoundKind::Impact => seq![
            Sound::Impact0,
            Sound::Impact1,
            Sound::Impact2,
            Sound::Impact3,
            Sound::Impact4,
        ],
        SoundKind::Pluck => seq![Sound::Pluck0, Sound::Pluck1],
        SoundKind::Explosion => seq![Sound::Explosion0, Sound::Explosion1],
    }
}

/// Every recording listed for a kind is of that kind, and every recording is
/// listed for its kind.
pub proof fn lemma_variants_are_of_their_kind(kind: SoundKind, sound: Sound)
    ensures
        variants(kind).contains(sound) <==> sound.kind() == kind,
{
    let listed = variants(kind);
    if sound.kind() == kind {
        match sound {
            Sound::Impact0 | Sound::Pluck0 | Sound::Explosion0 => {
                assert(listed[0] == sound);
            },
            Sound::Impact1 | Sound::Pluck1 | Sound::Explosion1 => {
                assert(listed[1] == sound);
            },
            Sound::Impact2 => {
                assert(listed[2] == sound);
            },
            Sound::Impact3 => {
                assert(listed[3] == sound);
            },
            Sound::Impact4 => {
                assert(listed[4] == sound);
            },
        }
    }
}

/// Lists the recordings of one kind.
pub fn sound_variants(kind: SoundKind) -> (listed: Vec<Sound>)
    ensures
        listed@ == variants(kind),
{
    let mut listed: Vec<Sound> = Vec::new();
    match kind {
        SoundKind::Impact => {
            listed.push(Sound::Impact0);
            listed.push(Sound::Impact1);
            listed.push(Sound::Impact2);
            listed.push(Sound::Impact3);
            listed.push(Sound::Impact4);
        },
        SoundKind::Pluck => {
            listed.push(Sound::Pluck0);
            listed.push(Sound::Pluck1);
        },
        SoundKind::Explosion => {
            listed.push(Sound::Explosion0);
            listed.push(Sound::Explosion1);
        },
    }
    assert(listed@ =~= variants(kind));
    listed
}

/// Picks at random one of the recordings of a kind. Which one comes is up to
/// the generator; that it is of the kind asked for holds of every draw.
pub fn pick_sound(kind: SoundKind, rng: &mut StdRng) -> (sound: Sound)
    ensures
        sound.kind() == kind,
{
    let listed = sound_variants(kind);
    let chosen = choose_sound(&listed, rng);
    proof {
        lemma_variants_are_of_their_kind(kind, *chosen.unwrap());
    }
    *chosen.unwrap()
}

} // verus!
