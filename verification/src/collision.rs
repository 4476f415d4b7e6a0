//! The collision detector: the player consumes the stars it touches, and an
//! enemy that touches the player ends it.

use vstd::prelude::*;
use rand::rngs::StdRng;
use crate::effect::{cues, lemma_cues_push, Cue, Effect};
use crate::geometry::{within_reach, Position};
use crate::sound::{pick_sound, SoundKind};
use crate::world::{
    lemma_live_stars_do_not_grow, live_stars, EnemyView, Entity, Star, World, WorldView,
};

verus! {

/// Whether the slot holds a star that a player at `player` touches.
pub open spec fn consumed(slot: Option<Star>, player: Position) -> bool {
    slot matches Some(star) && within_reach(star.position, player)
}

/// The star slots after a player at `player` has consumed what it touches.
pub open spec fn stars_left(stars: Seq<Option<Star>>, player: Position) -> Seq<Option<Star>> {
    stars.map_values(
        |slot: Option<Star>|
            if consumed(slot, player) {
                None
            } else {
                slot
            },
    )
}

/// The world after the player has consumed the stars it touches. Without a
/// player nothing changes.
pub open spec fn stars_eaten(world: WorldView) -> WorldView {
    match world.player {
        Some(player) => WorldView { stars: stars_left(world.stars, player.position), ..world },
        None => world,
    }
}

/// The cues of a consumption: for each star that the player touches, in the
/// order of the slots, a pluck sound and then the removal of that star.
pub open spec fn pluck_cues(stars: Seq<Option<Star>>, player: Position) -> Seq<Cue>
    decreases stars.len(),
{
    if stars.len() == 0 {
        Seq::empty()
    } else {
        pluck_cues(stars.drop_last(), player) + (if consumed(stars.last(), player) {
            seq![
                Cue::Sound(SoundKind::Pluck),
                Cue::Despawn(Entity::Star((stars.len() - 1) as usize)),
            ]
        } else {
            Seq::empty()
        })
    }
}

/// The cues of a consumption in a world.
pub open spec fn eating_cues(world: WorldView) -> Seq<Cue> {
    match world.player {
        Some(player) => pluck_cues(world.stars, player.position),
        None => Seq::empty(),
    }
}

/// Where the player touches no star, a consumption asks for nothing.
pub proof fn lemma_no_star_in_reach_no_cues(stars: Seq<Option<Star>>, player: Position)
    requires
        forall|i: int| 0 <= i < stars.len() ==> !consumed(#[trigger] stars[i], player),
    ensures
        pluck_cues(stars, player) == Seq::<Cue>::empty(),
    decreases stars.len(),
{
    if stars.len() > 0 {
        lemma_no_star_in_reach_no_cues(stars.drop_last(), player);
        assert(!consumed(stars[stars.len() - 1], player));
        assert(pluck_cues(stars, player) =~= Seq::<Cue>::empty());
    }
}

/// A consumption takes stars away and brings none: no slot is filled, and the
/// number of stars does not grow.
pub proof fn lemma_stars_left_do_not_grow(stars: Seq<Option<Star>>, player: Position)
    ensures
        stars_left(stars, player).len() == stars.len(),
        forall|i: int|
            0 <= i < stars.len() && (#[trigger] stars_left(stars, player)[i]) is Some ==> stars[i]
                is Some,
        live_stars(stars_left(stars, player)) <= live_stars(stars),
{
    lemma_live_stars_do_not_grow(stars, stars_left(stars, player));
}

/// A star is consumed once: after a consumption the player touches none of the
/// stars that are left, so a second consumption from the same place changes
/// nothing and asks for nothing.
pub proof fn lemma_second_consumption_is_empty(stars: Seq<Option<Star>>, player: Position)
    ensures
        forall|i: int|
            0 <= i < stars.len() ==> !consumed(#[trigger] stars_left(stars, player)[i], player),
        stars_left(stars_left(stars, player), player) == stars_left(stars, player),
        pluck_cues(stars_left(stars, player), player) == Seq::<Cue>::empty(),
{
    let left = stars_left(stars, player);
    assert forall|i: int| 0 <= i < left.len() implies !consumed(#[trigger] left[i], player) by {
        assert(left[i] == if consumed(stars[i], player) {
            None
        } else {
            stars[i]
        });
    }
    assert(stars_left(left, player) =~= left);
    lemma_no_star_in_reach_no_cues(left, player);
}

/// The same for a whole world: a second consumption right after the first
/// leaves the world as the first left it and asks for nothing.
pub proof fn lemma_eating_twice(world: WorldView)
    ensures
        stars_eaten(stars_eaten(world)) == stars_eaten(world),
        eating_cues(stars_eaten(world)) == Seq::<Cue>::empty(),
{
    match world.player {
        Some(player) => {
            lemma_second_consumption_is_empty(world.stars, player.position);
        },
        None => {},
    }
}

/// Removes every star that the player touches, and asks for a pluck sound and
/// the star's removal for each of them.
pub fn eat_star(world: &mut World, rng: &mut StdRng) -> (effects: Vec<Effect>)
    ensures
        final(world)@ == stars_eaten(old(world)@),
        cues(effects@) == eating_cues(old(world)@),
        old(world)@.player is None ==> final(world)@ == old(world)@ && effects@.len() == 0,
        live_stars(final(world)@.stars) <= live_stars(old(world)@.stars),
{
    let ghost before = world@;
    let mut effects: Vec<Effect> = Vec::new();
    assert(cues(effects@) =~= Seq::empty());
    let player = match world.player() {
        Some(player) => player,
        None => {
            return effects;
        },
    };
    let slots = world.star_slots();
    let mut index: usize = 0;
    assert(before.stars.take(0) =~= Seq::empty());
    while index < slots
        invariant
            index <= slots,
            slots == before.stars.len(),
            before.player == Some(player),
            world@.stars.len() == slots,
            world@.window == before.window,
            world@.player == before.player,
            world@.enemies == before.enemies,
            forall|i: int|
                0 <= i < index ==> world@.stars[i] == stars_left(before.stars, player.position)[i],
            forall|i: int| index <= i < slots ==> world@.stars[i] == before.stars[i],
            cues(effects@) == pluck_cues(before.stars.take(index as int), player.position),
        decreases slots - index,
    {
        proof {
            assert(before.stars.take(index + 1).drop_last() =~= before.stars.take(index as int));
            assert(before.stars.take(index + 1).last() == before.stars[index as int]);
        }
        let mut touched = false;
        if let Some(star) = world.star(index) {
            touched = star.position.reaches(&player.position);
        }
        if touched {
            let sound = pick_sound(SoundKind::Pluck, rng);
            world.remove_star(index);
            proof {
                lemma_cues_push(effects@, Effect::PlaySound(sound));
                lemma_cues_push(
                    effects@.push(Effect::PlaySound(sound)),
                    Effect::Despawn(Entity::Star(index)),
                );
            }
            effects.push(Effect::PlaySound(sound));
            effects.push(Effect::Despawn(Entity::Star(index)));
            assert(cues(effects@) =~= pluck_cues(
                before.stars.take(index + 1),
                player.position,
            ));
        } else {
            assert(cues(effects@) =~= pluck_cues(
                before.stars.take(index + 1),
                player.position,
            ));
        }
        index = index + 1;
    }
    proof {
        assert(before.stars.take(index as int) =~= before.stars);
        assert(world@.stars =~= stars_left(before.stars, player.position));
        lemma_stars_left_do_not_grow(before.stars, player.position);
    }
    effects
}

/// Whether some enemy touches a player at `player`.
pub open spec fn caught(enemies: Seq<EnemyView>, player: Position) -> bool {
    exists|i: int| 0 <= i < enemies.len() && within_reach((#[trigger] enemies[i]).position, player)
}

/// Whether the player of this world is touched by an enemy.
pub open spec fn player_caught(world: WorldView) -> bool {
    world.player matches Some(player) && caught(world.enemies, player.position)
}

/// The world after the enemies have had their go at the player: the player is
/// gone where an enemy touches it. Without a player nothing changes.
pub open spec fn player_killed(world: WorldView) -> WorldView {
    if player_caught(world) {
        WorldView { player: None, ..world }
    } else {
        world
    }
}

/// The cues of the player's end: one explosion sound and the player's removal,
/// however many enemies touch the player at once.
pub open spec fn killing_cues(world: WorldView) -> Seq<Cue> {
    if player_caught(world) {
        seq![Cue::Sound(SoundKind::Explosion), Cue::Despawn(Entity::Player)]
    } else {
        Seq::empty()
    }
}

/// Once the player is gone, nothing more happens to it.
pub proof fn lemma_killing_twice(world: WorldView)
    ensures
        player_killed(player_killed(world)) == player_killed(world),
        killing_cues(player_killed(world)) == Seq::<Cue>::empty(),
{
}

/// Decides [`caught`] by looking at the enemies in the order of their slots
/// and stopping at the first that touches the player.
pub fn any_enemy_reaches(world: &World, player: Position) -> (hit: bool)
    ensures
        hit == caught(world@.enemies, player),
{
    let count = world.enemy_count();
    let mut index: usize = 0;
    while index < count
        invariant
            index <= count,
            count == world@.enemies.len(),
            forall|i: int| 0 <= i < index ==> !within_reach(world@.enemies[i].position, player),
        decreases count - index,
    {
        let enemy = world.enemy(index).unwrap();
        if enemy.position.reaches(&player) {
            assert(within_reach(world@.enemies[index as int].position, player));
            return true;
        }
        index = index + 1;
    }
    false
}

/// Removes the player where an enemy touches it, and asks once for an
/// explosion sound and the player's removal.
pub fn kill_player(world: &mut World, rng: &mut StdRng) -> (effects: Vec<Effect>)
    ensures
        final(world)@ == player_killed(old(world)@),
        cues(effects@) == killing_cues(old(world)@),
        old(world)@.player is None ==> final(world)@ == old(world)@ && effects@.len() == 0,
{
    let mut effects: Vec<Effect> = Vec::new();
    assert(cues(effects@) =~= Seq::empty());
    if let Some(player) = world.player() {
        if any_enemy_reaches(world, player.position) {
            let sound = pick_sound(SoundKind::Explosion, rng);
            world.remove_player();
            effects.push(Effect::PlaySound(sound));
            effects.push(Effect::Despawn(Entity::Player));
            assert(cues(effects@) =~= killing_cues(old(world)@));
        }
    }
    effects
}

} // verus!
