//! The boundary confiner: the player is clamped to the window, an enemy
//! bounces off its walls.

use vstd::prelude::*;
use rand::rngs::StdRng;
use crate::effect::{cues, lemma_cues_push, Cue, Effect};
use crate::fixed::{saturate, shift, UNIT};
use crate::geometry::{Heading, Position};
use crate::sound::{pick_sound, SoundKind};
use crate::world::{Enemy, EnemyView, Player, Window, World, WorldView};

verus! {

/// How far the player's centre stays from every wall: half the entity size, in
/// steps.
pub const PLAYER_MARGIN: i64 = 32_000_000;

/// Steps by which an enemy is pushed along its new direction when it bounces,
/// for a direction component of `UNIT`: eight distance units.
pub const NUDGE: i64 = 8;

/// A coordinate of the player after confinement to a window that reaches from
/// zero to `extent`: first raised to the margin, then lowered to the extent
/// less the margin.
pub open spec fn clamped(coordinate: int, extent: int) -> int {
    let raised = if coordinate <= PLAYER_MARGIN {
        PLAYER_MARGIN as int
    } else {
        coordinate
    };
    if raised >= extent - PLAYER_MARGIN {
        extent - PLAYER_MARGIN
    } else {
        raised
    }
}

/// In a window at least as wide as the player, the clamped coordinate keeps the
/// margin to both walls, wherever the coordinate was before.
pub proof fn lemma_clamped_keeps_margin(coordinate: int, extent: int)
    requires
        2 * PLAYER_MARGIN <= extent,
    ensures
        PLAYER_MARGIN <= clamped(coordinate, extent) <= extent - PLAYER_MARGIN,
{
}

/// Computes [`clamped`].
fn clamp(coordinate: i64, extent: i64) -> (confined: i64)
    requires
        0 <= extent,
    ensures
        confined == clamped(coordinate as int, extent as int),
{
    let raised = if coordinate <= PLAYER_MARGIN {
        PLAYER_MARGIN
    } else {
        coordinate
    };
    if raised >= extent - PLAYER_MARGIN {
        extent - PLAYER_MARGIN
    } else {
        raised
    }
}

/// A position of the player after confinement to the window.
pub open spec fn confined(position: Position, window: Window) -> Position {
    Position {
        x: clamped(position.x as int, window.right()) as i64,
        y: clamped(position.y as int, window.top()) as i64,
    }
}

/// The world after the player has been confined to the window. Without a
/// player nothing changes.
pub open spec fn player_confined(world: WorldView) -> WorldView {
    match world.player {
        Some(player) => WorldView {
            player: Some(Player { position: confined(player.position, world.window) }),
            ..world
        },
        None => world,
    }
}

/// Clamps the player's position to the window, each axis by itself.
pub fn confine_player(world: &mut World)
    ensures
        final(world)@ == player_confined(old(world)@),
        old(world)@.player is None ==> final(world)@ == old(world)@,
        final(world)@.player matches Some(player) ==> {
            &&& 2 * PLAYER_MARGIN <= old(world)@.window.right() ==> PLAYER_MARGIN
                <= player.position.x <= old(world)@.window.right() - PLAYER_MARGIN
            &&& 2 * PLAYER_MARGIN <= old(world)@.window.top() ==> PLAYER_MARGIN
                <= player.position.y <= old(world)@.window.top() - PLAYER_MARGIN
        },
{
    if let Some(player) = world.player() {
        let window = world.window();
        let x = clamp(player.position.x, window.right_edge());
        let y = clamp(player.position.y, window.top_edge());
        world.place_player(Player { position: Position { x, y } });
    }
}

/// The wall that an enemy bounces off.
#[derive(Clone, Copy, Debug, PartialEq, Eq)]
pub enum Wall {
    /// The left or the right wall: the horizontal component turns round.
    Side,
    /// The bottom or the top wall: the vertical component turns round.
    Floor,
}

/// Whether a coordinate of an enemy is past a wall of a window that reaches
/// from zero to `extent`. An enemy keeps `64 / 1.8` distance units to a wall,
/// which is 320 ninths; both sides are taken times nine.
pub open spec fn past_wall(coordinate: int, extent: int) -> bool {
    9 * coordinate < 320 * UNIT || 9 * coordinate > 9 * extent - 320 * UNIT
}

/// The wall that an enemy at `position` bounces off, if any. The side walls
/// are looked at first, and only one wall is handled at a time.
pub open spec fn wall_hit(position: Position, window: Window) -> Option<Wall> {
    if past_wall(position.x as int, window.right()) {
        Some(Wall::Side)
    } else if past_wall(position.y as int, window.top()) {
        Some(Wall::Floor)
    } else {
        None
    }
}

/// Computes [`past_wall`].
fn is_past_wall(coordinate: i64, extent: i64) -> (past: bool)
    requires
        0 <= extent,
    ensures
        past == past_wall(coordinate as int, extent as int),
{
    let scaled: i128 = 9 * (coordinate as i128);
    let margin: i128 = 320 * (UNIT as i128);
    scaled < margin || scaled > 9 * (extent as i128) - margin
}

/// Computes [`wall_hit`].
pub fn find_wall(position: Position, window: Window) -> (wall: Option<Wall>)
    ensures
        wall == wall_hit(position, window),
{
    if is_past_wall(position.x, window.right_edge()) {
        Some(Wall::Side)
    } else if is_past_wall(position.y, window.top_edge()) {
        Some(Wall::Floor)
    } else {
        None
    }
}

/// A direction after a bounce off a wall.
pub open spec fn reflected(heading: Heading, wall: Wall) -> Heading {
    match wall {
        Wall::Side => heading.flip_x(),
        Wall::Floor => heading.flip_y(),
    }
}

/// A position pushed eight distance units along a direction, each coordinate
/// held at the ends of the coordinate range.
pub open spec fn nudged(position: Position, heading: Heading) -> Position {
    Position {
        x: saturate(position.x + NUDGE * heading.dx) as i64,
        y: saturate(position.y + NUDGE * heading.dy) as i64,
    }
}

/// An enemy after confinement: where it is past a wall, its direction turns
/// round on that axis and it is pushed along the new direction; elsewhere it is
/// left as it is.
pub open spec fn enemy_confined(enemy: EnemyView, window: Window) -> EnemyView {
    match wall_hit(enemy.position, window) {
        Some(wall) => {
            let heading = reflected(enemy.heading, wall);
            EnemyView { position: nudged(enemy.position, heading), heading }
        },
        None => enemy,
    }
}

/// The world after every enemy has been confined.
pub open spec fn enemies_confined(world: WorldView) -> WorldView {
    WorldView {
        enemies: world.enemies.map_values(
            |enemy: EnemyView| enemy_confined(enemy, world.window),
        ),
        ..world
    }
}

/// The cues of a confinement: one impact sound for each enemy that is past a
/// wall, in the order of the slots.
pub open spec fn bounce_cues(enemies: Seq<EnemyView>, window: Window) -> Seq<Cue>
    decreases enemies.len(),
{
    if enemies.len() == 0 {
        Seq::empty()
    } else {
        bounce_cues(enemies.drop_last(), window) + (if wall_hit(enemies.last().position, window)
            is Some {
            seq![Cue::Sound(SoundKind::Impact)]
        } else {
            Seq::empty()
        })
    }
}

/// A bounce changes the sign of one component, so the length of the direction
/// stays what it was.
pub proof fn lemma_reflected_keeps_length(heading: Heading, wall: Wall)
    ensures
        reflected(heading, wall).length_squared() == heading.length_squared(),
        reflected(heading, wall).is_unit() == heading.is_unit(),
        reflected(reflected(heading, wall), wall) == heading,
{
    assert((-heading.dx) * (-heading.dx) == heading.dx * heading.dx) by (nonlinear_arith);
    assert((-heading.dy) * (-heading.dy) == heading.dy * heading.dy) by (nonlinear_arith);
}

/// A direction after a run of bounces, first to last.
pub open spec fn reflected_all(heading: Heading, walls: Seq<Wall>) -> Heading
    decreases walls.len(),
{
    if walls.len() == 0 {
        heading
    } else {
        reflected(reflected_all(heading, walls.drop_last()), walls.last())
    }
}

/// Whatever walls an enemy bounces off, and in whatever order, the length of
/// its direction stays what it was.
pub proof fn lemma_bounces_keep_length(heading: Heading, walls: Seq<Wall>)
    ensures
        reflected_all(heading, walls).length_squared() == heading.length_squared(),
        reflected_all(heading, walls).is_unit() == heading.is_unit(),
    decreases walls.len(),
{
    if walls.len() > 0 {
        lemma_bounces_keep_length(heading, walls.drop_last());
        lemma_reflected_keeps_length(reflected_all(heading, walls.drop_last()), walls.last());
    }
}

/// Confinement leaves the length of an enemy's direction as it was.
pub proof fn lemma_enemy_confined_keeps_length(enemy: EnemyView, window: Window)
    ensures
        enemy_confined(enemy, window).heading.length_squared() == enemy.heading.length_squared(),
{
    match wall_hit(enemy.position, window) {
        Some(wall) => {
            lemma_reflected_keeps_length(enemy.heading, wall);
        },
        None => {},
    }
}

/// Computes [`enemy_confined`] and says whether the enemy bounced.
pub fn confine_one(enemy: Enemy, window: Window) -> (outcome: (Enemy, bool))
    ensures
        outcome.0@ == enemy_confined(enemy@, window),
        outcome.1 == (wall_hit(enemy.position, window) is Some),
{
    match find_wall(enemy.position, window) {
        Some(wall) => {
            let direction = match wall {
                Wall::Side => enemy.direction.flip_x(),
                Wall::Floor => enemy.direction.flip_y(),
            };
            let position = Position {
                x: shift(enemy.position.x, NUDGE * direction.dx()),
                y: shift(enemy.position.y, NUDGE * direction.dy()),
            };
            (Enemy { position, direction }, true)
        },
        None => (enemy, false),
    }
}

/// Turns every enemy that is past a wall round and pushes it along its new
/// direction, and asks for one impact sound for each of them.
pub fn confine_enemy(world: &mut World, rng: &mut StdRng) -> (effects: Vec<Effect>)
    ensures
        final(world)@ == enemies_confined(old(world)@),
        cues(effects@) == bounce_cues(old(world)@.enemies, old(world)@.window),
        forall|i: int|
            0 <= i < old(world)@.enemies.len() ==> (#[trigger] final(world)@.enemies[i]).heading.length_squared()
                == old(world)@.enemies[i].heading.length_squared(),
{
    let ghost before = world@;
    let window = world.window();
    let count = world.enemy_count();
    let mut effects: Vec<Effect> = Vec::new();
    let mut index: usize = 0;
    assert(before.enemies.take(0) =~= Seq::empty());
    assert(cues(effects@) =~= Seq::empty());
    while index < count
        invariant
            index <= count,
            count == before.enemies.len(),
            window == before.window,
            world@.enemies.len() == count,
            world@.window == before.window,
            world@.player == before.player,
            world@.stars == before.stars,
            forall|i: int|
                0 <= i < index ==> world@.enemies[i] == enemy_confined(before.enemies[i], window),
            forall|i: int| index <= i < count ==> world@.enemies[i] == before.enemies[i],
            cues(effects@) == bounce_cues(before.enemies.take(index as int), window),
        decreases count - index,
    {
        let enemy = world.enemy(index).unwrap();
        let (turned, bounced) = confine_one(enemy, window);
        world.replace_enemy(index, turned);
        proof {
            assert(before.enemies.take(index + 1).drop_last() =~= before.enemies.take(
                index as int,
            ));
            assert(before.enemies.take(index + 1).last() == before.enemies[index as int]);
        }
        if bounced {
            let sound = pick_sound(SoundKind::Impact, rng);
            proof {
                lemma_cues_push(effects@, Effect::PlaySound(sound));
            }
            effects.push(Effect::PlaySound(sound));
            assert(cues(effects@) =~= bounce_cues(before.enemies.take(index + 1), window));
        } else {
            assert(cues(effects@) =~= bounce_cues(before.enemies.take(index + 1), window));
        }
        index = index + 1;
    }
    assert(before.enemies.take(index as int) =~= before.enemies);
    assert(world@.enemies =~= enemies_confined(before).enemies);
    assert forall|i: int| 0 <= i < before.enemies.len() implies (#[trigger] world@.enemies[i]).heading.length_squared()
        == before.enemies[i].heading.length_squared() by {
        lemma_enemy_confined_keeps_length(before.enemies[i], window);
    }
    effects
}

} // verus!
