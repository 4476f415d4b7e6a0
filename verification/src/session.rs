//! One tick of the simulation, and what holds from tick to tick over a whole
//! session.

use vstd::prelude::*;
use rand::rngs::StdRng;
use crate::collision::{
    eat_star, eating_cues, kill_player, killing_cues, lemma_stars_left_do_not_grow, player_killed,
    stars_eaten,
};
use crate::confine::{
    bounce_cues, confine_enemy, confine_player, enemies_confined, lemma_enemy_confined_keeps_length,
    player_confined,
};
use crate::effect::{cues, lemma_cues_add, Cue, Effect};
use crate::movement::{enemies_moved, enemy_movement, handle_movement, player_moved, Keys};
use crate::world::{lemma_live_stars_do_not_grow, live_stars, World, WorldView};

verus! {

/// What the host hands over for one tick.
#[derive(Clone, Copy, Debug, PartialEq, Eq)]
pub struct Input {
    /// The directional keys that are held down.
    pub keys: Keys,
    /// The time since the last tick, in microseconds.
    pub elapsed: u32,
}

/// The world after the movement of a tick: the player has followed the keys
/// and the enemies their directions.
pub open spec fn after_movement(world: WorldView, input: Input) -> WorldView {
    enemies_moved(player_moved(world, input.keys, input.elapsed as int), input.elapsed as int)
}

/// The world after the confinement of a tick.
pub open spec fn after_confinement(world: WorldView) -> WorldView {
    enemies_confined(player_confined(world))
}

/// The world after the collisions of a tick: first the player consumes the
/// stars it touches, then the enemies have their go at the player. A player
/// that is caught in a tick still consumes its stars in that tick.
pub open spec fn after_collision(world: WorldView) -> WorldView {
    player_killed(stars_eaten(world))
}

/// The world after one tick: movement, then confinement, then collisions.
pub open spec fn ticked(world: WorldView, input: Input) -> WorldView {
    after_collision(after_confinement(after_movement(world, input)))
}

/// The cues of one tick: those of the bounces, then those of the stars
/// consumed, then those of the player's end.
pub open spec fn tick_cues(world: WorldView, input: Input) -> Seq<Cue> {
    let moved = after_movement(world, input);
    let confined = after_confinement(moved);
    bounce_cues(moved.enemies, moved.window) + eating_cues(confined) + killing_cues(
        stars_eaten(confined),
    )
}

/// What a world keeps of an earlier one, whatever happened in between: the
/// window and the slots are the same, no star and no player came back, and the
/// direction of every enemy is as long as it was.
pub open spec fn follows(earlier: WorldView, later: WorldView) -> bool {
    &&& later.window == earlier.window
    &&& later.stars.len() == earlier.stars.len()
    &&& forall|i: int|
        0 <= i < later.stars.len() && (#[trigger] later.stars[i]) is Some ==> earlier.stars[i]
            is Some
    &&& live_stars(later.stars) <= live_stars(earlier.stars)
    &&& later.enemies.len() == earlier.enemies.len()
    &&& forall|i: int|
        0 <= i < later.enemies.len() ==> (#[trigger] later.enemies[i]).heading.length_squared()
            == earlier.enemies[i].heading.length_squared()
    &&& earlier.player is None ==> later.player is None
}

/// Every world follows itself, and following carries over a world in between.
pub proof fn lemma_follows_chain(first: WorldView, second: WorldView, third: WorldView)
    requires
        follows(first, second),
        follows(second, third),
    ensures
        follows(first, first),
        follows(first, third),
{
    assert(follows(first, first));
    assert forall|i: int| 0 <= i < third.stars.len() && (#[trigger] third.stars[i])
        is Some implies first.stars[i] is Some by {
        assert(second.stars[i] is Some);
    }
    assert forall|i: int| 0 <= i < third.enemies.len() implies (#[trigger] third.enemies[i]).heading.length_squared()
        == first.enemies[i].heading.length_squared() by {
        assert(second.enemies[i].heading.length_squared()
            == first.enemies[i].heading.length_squared());
    }
}

/// A tick takes stars away and brings none, brings no player back, keeps the
/// enemies and the window, and leaves the direction of every enemy as long as
/// it was.
pub proof fn lemma_tick_follows(world: WorldView, input: Input)
    ensures
        follows(world, ticked(world, input)),
{
    let moved = after_movement(world, input);
    let confined = after_confinement(moved);
    let eaten = stars_eaten(confined);
    let later = ticked(world, input);
    assert(later == player_killed(eaten));
    assert(moved.stars == world.stars);
    assert(confined.stars == world.stars);
    match confined.player {
        Some(player) => {
            lemma_stars_left_do_not_grow(confined.stars, player.position);
        },
        None => {},
    }
    assert(later.stars == eaten.stars);
    assert forall|i: int| 0 <= i < later.stars.len() && (#[trigger] later.stars[i])
        is Some implies world.stars[i] is Some by {}
    lemma_live_stars_do_not_grow(world.stars, later.stars);
    assert(later.enemies == confined.enemies);
    assert forall|i: int| 0 <= i < later.enemies.len() implies (#[trigger] later.enemies[i]).heading.length_squared()
        == world.enemies[i].heading.length_squared() by {
        lemma_enemy_confined_keeps_length(moved.enemies[i], moved.window);
    }
}

/// Without a player, the four steps of a tick that need one change nothing and
/// ask for nothing.
pub proof fn lemma_without_player_nothing_happens(world: WorldView, keys: Keys, elapsed: int)
    requires
        world.player is None,
    ensures
        player_moved(world, keys, elapsed) == world,
        player_confined(world) == world,
        stars_eaten(world) == world,
        eating_cues(world) == Seq::<Cue>::empty(),
        player_killed(world) == world,
        killing_cues(world) == Seq::<Cue>::empty(),
{
}

/// The world after a run of ticks, first to last.
pub open spec fn played(world: WorldView, inputs: Seq<Input>) -> WorldView
    decreases inputs.len(),
{
    if inputs.len() == 0 {
        world
    } else {
        ticked(played(world, inputs.drop_last()), inputs.last())
    }
}

/// Over a whole session, whatever the keys and the times: the number of stars
/// never grows, a star or a player that is gone stays gone, the enemies stay
/// as many, and the direction of every enemy stays as long as it was.
pub proof fn lemma_session_follows(world: WorldView, inputs: Seq<Input>)
    ensures
        follows(world, played(world, inputs)),
        live_stars(played(world, inputs).stars) <= live_stars(world.stars),
    decreases inputs.len(),
{
    if inputs.len() == 0 {
        assert(follows(world, world));
    } else {
        let earlier = played(world, inputs.drop_last());
        lemma_session_follows(world, inputs.drop_last());
        lemma_tick_follows(earlier, inputs.last());
        lemma_follows_chain(world, earlier, ticked(earlier, inputs.last()));
    }
}

/// Runs one tick: moves the player and the enemies, confines them, lets the
/// player consume stars and the enemies catch the player, and gives the
/// effects that the host is to perform, in that order.
pub fn tick(world: &mut World, input: Input, rng: &mut StdRng) -> (effects: Vec<Effect>)
    ensures
        final(world)@ == ticked(old(world)@, input),
        cues(effects@) == tick_cues(old(world)@, input),
        follows(old(world)@, final(world)@),
{
    handle_movement(world, input.keys, input.elapsed);
    enemy_movement(world, input.elapsed);
    confine_player(world);
    let mut effects = confine_enemy(world, rng);
    let mut plucks = eat_star(world, rng);
    let mut blast = kill_player(world, rng);
    proof {
        lemma_cues_add(effects@, plucks@);
        lemma_cues_add(effects@ + plucks@, blast@);
        lemma_tick_follows(old(world)@, input);
    }
    effects.append(&mut plucks);
    effects.append(&mut blast);
    effects
}

} // verus!
