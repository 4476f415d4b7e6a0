//! The movement integrator: the player follows the keys, the enemies follow
//! their directions.

use vstd::prelude::*;
use crate::fixed::{distance_travelled, saturate, shift, travel};
use crate::geometry::{lemma_normalized_is_unit, normalize, normalized, Direction, Heading, Position};
use crate::world::{Enemy, EnemyView, Player, World, WorldView};

verus! {

/// The directional keys that are held down.
#[derive(Clone, Copy, Debug, PartialEq, Eq)]
pub struct Keys {
    pub up: bool,
    pub down: bool,
    pub left: bool,
    pub right: bool,
}

/// The sum of the axis vectors of the keys held down: left is `(-1, 0)`, right
/// `(1, 0)`, up `(0, 1)` and down `(0, -1)`. Opposite keys cancel.
pub open spec fn key_sum(keys: Keys) -> (int, int) {
    (
        (if keys.right { 1int } else { 0int }) - (if keys.left { 1int } else { 0int }),
        (if keys.up { 1int } else { 0int }) - (if keys.down { 1int } else { 0int }),
    )
}

/// The direction in which the keys move the player: their sum scaled to unit
/// length, or the zero vector where the sum is zero.
pub open spec fn key_heading(keys: Keys) -> Heading {
    normalized(key_sum(keys).0, key_sum(keys).1)
}

/// Whatever keys are held down, the direction of movement is the zero vector or
/// has unit length.
pub proof fn lemma_key_heading_zero_or_unit(keys: Keys)
    ensures
        key_heading(keys).is_zero() || key_heading(keys).is_unit(),
        key_heading(keys).is_zero() <==> key_sum(keys) == (0int, 0int),
{
    let sum = key_sum(keys);
    if sum.0 != 0 || sum.1 != 0 {
        lemma_normalized_is_unit(sum.0, sum.1);
        let heading = key_heading(keys);
        assert(heading.dx * heading.dx + heading.dy * heading.dy > 0);
        if heading.is_zero() {
            assert(heading.dx * heading.dx + heading.dy * heading.dy == 0) by (nonlinear_arith)
                requires
                    heading.dx == 0,
                    heading.dy == 0,
            ;
        }
    }
}

/// Computes [`key_heading`]. No direction stands for the zero vector.
pub fn movement_direction(keys: Keys) -> (direction: Option<Direction>)
    ensures
        direction is None <==> key_heading(keys).is_zero(),
        direction matches Some(d) ==> d@ == key_heading(keys) && d@.is_unit(),
        key_heading(keys).is_zero() || key_heading(keys).is_unit(),
{
    let mut across: i32 = 0;
    let mut along: i32 = 0;
    if keys.left {
        across = across - 1;
    }
    if keys.right {
        across = across + 1;
    }
    if keys.up {
        along = along + 1;
    }
    if keys.down {
        along = along - 1;
    }
    proof {
        lemma_key_heading_zero_or_unit(keys);
    }
    normalize(across, along)
}

/// Where an entity at `position` is after moving along `heading` for `elapsed`
/// microseconds: the old position plus direction x speed x time, each
/// coordinate held at the ends of the coordinate range.
pub open spec fn advanced(position: Position, heading: Heading, elapsed: int) -> Position {
    Position {
        x: saturate(position.x + travel(heading.dx, elapsed)) as i64,
        y: saturate(position.y + travel(heading.dy, elapsed)) as i64,
    }
}

/// An entity that moves along the zero vector stays where it is.
pub proof fn lemma_advanced_by_zero(position: Position, elapsed: int)
    ensures
        advanced(position, Heading { dx: 0, dy: 0 }, elapsed) == position,
{
    assert(0 * crate::fixed::SPEED * elapsed == 0) by (nonlinear_arith);
}

/// Computes [`advanced`].
pub fn advance(position: Position, direction: Direction, elapsed: u32) -> (moved: Position)
    ensures
        moved == advanced(position, direction@, elapsed as int),
{
    let across = distance_travelled(direction.dx(), elapsed);
    let along = distance_travelled(direction.dy(), elapsed);
    Position { x: shift(position.x, across), y: shift(position.y, along) }
}

/// The world after the player has followed the keys for `elapsed`
/// microseconds. Without a player nothing changes.
pub open spec fn player_moved(world: WorldView, keys: Keys, elapsed: int) -> WorldView {
    match world.player {
        Some(player) => WorldView {
            player: Some(
                Player { position: advanced(player.position, key_heading(keys), elapsed) },
            ),
            ..world
        },
        None => world,
    }
}

/// Moves the player along the direction of the keys held down.
pub fn handle_movement(world: &mut World, keys: Keys, elapsed: u32)
    ensures
        final(world)@ == player_moved(old(world)@, keys, elapsed as int),
        old(world)@.player is None ==> final(world)@ == old(world)@,
{
    if let Some(player) = world.player() {
        match movement_direction(keys) {
            Some(direction) => {
                let position = advance(player.position, direction, elapsed);
                world.place_player(Player { position });
            },
            None => {
                proof {
                    lemma_advanced_by_zero(player.position, elapsed as int);
                }
            },
        }
    }
}

/// An enemy after it has followed its direction for `elapsed` microseconds.
pub open spec fn enemy_moved(enemy: EnemyView, elapsed: int) -> EnemyView {
    EnemyView { position: advanced(enemy.position, enemy.heading, elapsed), heading: enemy.heading }
}

/// The world after every enemy has followed its direction for `elapsed`
/// microseconds.
pub open spec fn enemies_moved(world: WorldView, elapsed: int) -> WorldView {
    WorldView {
        enemies: world.enemies.map_values(|enemy: EnemyView| enemy_moved(enemy, elapsed)),
        ..world
    }
}

/// Moves every enemy along its direction.
pub fn enemy_movement(world: &mut World, elapsed: u32)
    ensures
        final(world)@ == enemies_moved(old(world)@, elapsed as int),
{
    let ghost before = world@;
    let count = world.enemy_count();
    let mut index: usize = 0;
    while index < count
        invariant
            index <= count,
            count == before.enemies.len(),
            world@.enemies.len() == count,
            world@.window == before.window,
            world@.player == before.player,
            world@.stars == before.stars,
            forall|i: int| 0 <= i < index ==> world@.enemies[i] == enemy_moved(before.enemies[i], elapsed as int),
            forall|i: int| index <= i < count ==> world@.enemies[i] == before.enemies[i],
        decreases count - index,
    {
        let enemy = world.enemy(index).unwrap();
        let position = advance(enemy.position, enemy.direction, elapsed);
        world.replace_enemy(index, Enemy { position, direction: enemy.direction });
        index = index + 1;
    }
    assert(world@.enemies =~= enemies_moved(before, elapsed as int).enemies);
}

} // verus!
