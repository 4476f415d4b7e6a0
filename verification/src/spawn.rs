//! The spawner: what a session starts with.

use vstd::prelude::*;
use rand::rngs::StdRng;
use crate::fixed::UNIT;
use crate::geometry::{lemma_normalized_is_unit, normalize, normalized, Direction, Heading, Position};
use crate::random::draw_between;
use crate::world::{Enemy, Player, Star, Window, World, WorldView};

verus! {

/// How far a spawned star or enemy stays from the left, bottom and right walls:
/// the entity size, in steps.
pub const SPAWN_MARGIN: i64 = 64_000_000;

/// Why nothing can be spawned in a window.
#[derive(Clone, Copy, Debug, PartialEq, Eq)]
pub enum SpawnError {
    /// The window leaves no room between the margins from left to right.
    TooNarrow,
    /// The window is wide enough, but its lower third leaves no room above
    /// the margin.
    TooShort,
}

/// The horizontal end of the spawn area: the entity size short of the right
/// wall.
pub open spec fn spawn_right(window: Window) -> int {
    window.right() - SPAWN_MARGIN
}

/// The vertical end of the spawn area: a third of the height that is left
/// above the entity size, rounded down.
pub open spec fn spawn_top(window: Window) -> int {
    (window.top() - SPAWN_MARGIN) / 3
}

/// Whether stars and enemies can be spawned in a window, and if not, why.
pub open spec fn spawn_check(window: Window) -> Result<(), SpawnError> {
    if spawn_right(window) <= SPAWN_MARGIN {
        Err(SpawnError::TooNarrow)
    } else if spawn_top(window) <= SPAWN_MARGIN {
        Err(SpawnError::TooShort)
    } else {
        Ok(())
    }
}

/// Whether a position lies where stars and enemies are spawned: from the
/// margin up to, and not including, the ends of the spawn area.
pub open spec fn in_spawn_area(position: Position, window: Window) -> bool {
    &&& SPAWN_MARGIN <= position.x < spawn_right(window)
    &&& SPAWN_MARGIN <= position.y < spawn_top(window)
}

/// The ends of the spawn area, or the reason why there is none. This is the
/// test to make before anything is spawned in a window.
pub fn spawn_area(window: Window) -> (ends: Result<(i64, i64), SpawnError>)
    ensures
        ends is Ok <==> spawn_check(window) is Ok,
        ends matches Ok(area) ==> area.0 == spawn_right(window) && area.1 == spawn_top(window),
        ends matches Err(error) ==> spawn_check(window) == Err::<(), SpawnError>(error),
{
    let right = window.right_edge() - SPAWN_MARGIN;
    if right <= SPAWN_MARGIN {
        return Err(SpawnError::TooNarrow);
    }
    let room = window.top_edge() - SPAWN_MARGIN;
    if room < 0 {
        return Err(SpawnError::TooShort);
    }
    let top = room / 3;
    if top <= SPAWN_MARGIN {
        return Err(SpawnError::TooShort);
    }
    Ok((right, top))
}

/// The ends of the spawn area of a window that has one.
fn spawn_ends(window: Window) -> (ends: (i64, i64))
    requires
        spawn_check(window) is Ok,
    ensures
        ends.0 == spawn_right(window),
        ends.1 == spawn_top(window),
        SPAWN_MARGIN < ends.0,
        SPAWN_MARGIN < ends.1,
{
    (window.right_edge() - SPAWN_MARGIN, (window.top_edge() - SPAWN_MARGIN) / 3)
}

/// The middle of the window.
pub open spec fn center(window: Window) -> Position {
    Position { x: (window.right() / 2) as i64, y: (window.top() / 2) as i64 }
}

/// Where the camera goes: the middle of the window.
pub fn spawn_cam(window: Window) -> (camera: Position)
    ensures
        camera == center(window),
{
    Position { x: window.right_edge() / 2, y: window.top_edge() / 2 }
}

/// Puts the player in the middle of the window.
pub fn spawn_player(world: &mut World)
    ensures
        final(world)@ == (WorldView {
            player: Some(Player { position: center(old(world)@.window) }),
            ..old(world)@
        }),
{
    let position = spawn_cam(world.window());
    world.place_player(Player { position });
}

/// Draws a position in the spawn area.
fn draw_position(right: i64, top: i64, rng: &mut StdRng) -> (position: Position)
    requires
        SPAWN_MARGIN < right,
        SPAWN_MARGIN < top,
    ensures
        SPAWN_MARGIN <= position.x < right,
        SPAWN_MARGIN <= position.y < top,
{
    let x = draw_between(rng, SPAWN_MARGIN, right);
    let y = draw_between(rng, SPAWN_MARGIN, top);
    Position { x, y }
}

/// What was added to the star slots by a spawn: one or two stars, each in the
/// spawn area, after the slots that were there.
pub open spec fn stars_spawned(
    before: Seq<Option<Star>>,
    after: Seq<Option<Star>>,
    window: Window,
) -> bool {
    &&& before.len() + 1 <= after.len() <= before.len() + 2
    &&& after.take(before.len() as int) == before
    &&& forall|i: int|
        before.len() <= i < after.len() ==> (#[trigger] after[i] matches Some(star)
            && in_spawn_area(star.position, window))
}

/// Adds one or two stars at random positions of the spawn area. The window
/// must have a spawn area, which [`spawn_area`] tells; how many stars come, and
/// where, is up to the generator.
pub fn spawn_stars(world: &mut World, rng: &mut StdRng)
    requires
        spawn_check(old(world)@.window) is Ok,
    ensures
        final(world)@.window == old(world)@.window,
        final(world)@.player == old(world)@.player,
        final(world)@.enemies == old(world)@.enemies,
        stars_spawned(old(world)@.stars, final(world)@.stars, old(world)@.window),
{
    let ghost before = world@;
    let window = world.window();
    let (right, top) = spawn_ends(window);
    let count = draw_between(rng, 1, 3);
    let mut made: i64 = 0;
    assert(world@.stars.take(before.stars.len() as int) =~= before.stars);
    while made < count
        invariant
            0 <= made <= count,
            1 <= count < 3,
            right == spawn_right(window),
            top == spawn_top(window),
            SPAWN_MARGIN < right,
            SPAWN_MARGIN < top,
            window == before.window,
            world@.window == before.window,
            world@.player == before.player,
            world@.enemies == before.enemies,
            world@.stars.len() == before.stars.len() + made,
            world@.stars.take(before.stars.len() as int) == before.stars,
            forall|i: int|
                before.stars.len() <= i < world@.stars.len() ==> (
                #[trigger] world@.stars[i] matches Some(star) && in_spawn_area(
                    star.position,
                    window,
                )),
        decreases count - made,
    {
        let ghost earlier = world@.stars;
        let position = draw_position(right, top, rng);
        world.add_star(Star { position });
        assert(world@.stars.take(before.stars.len() as int) =~= earlier.take(
            before.stars.len() as int,
        ));
        made = made + 1;
    }
}

/// The direction that two draws between zero and one give an enemy: the vector
/// of the two scaled to unit length. Where both draws are zero there is no
/// such vector, and the enemy heads right.
pub open spec fn drawn_heading(across: int, along: int) -> Heading {
    if across == 0 && along == 0 {
        Heading { dx: UNIT as int, dy: 0 }
    } else {
        normalized(across, along)
    }
}

/// Whatever is drawn, the enemy's direction has unit length.
pub proof fn lemma_drawn_heading_is_unit(across: int, along: int)
    ensures
        drawn_heading(across, along).is_unit(),
        across >= 0 ==> drawn_heading(across, along).dx >= 0,
        along >= 0 ==> drawn_heading(across, along).dy >= 0,
{
    if across == 0 && along == 0 {
        assert(999_999 * 999_999 <= 1_000_000 * 1_000_000 + 0 * 0 <= 1_000_001 * 1_000_001) by (nonlinear_arith);
        assert((Heading { dx: 1_000_000, dy: 0 }).is_unit());
    } else {
        lemma_normalized_is_unit(across, along);
    }
}

/// Computes [`drawn_heading`].
pub fn direction_from_draws(across: i32, along: i32) -> (direction: Direction)
    ensures
        direction@ == drawn_heading(across as int, along as int),
        direction@.is_unit(),
{
    proof {
        lemma_drawn_heading_is_unit(across as int, along as int);
    }
    match normalize(across, along) {
        Some(direction) => direction,
        None => Direction::new(UNIT, 0).unwrap(),
    }
}

/// Draws an enemy's direction: two numbers from zero up to, and not including,
/// one on the fixed-point scale, made a direction.
fn draw_direction(rng: &mut StdRng) -> (direction: Direction)
    ensures
        direction@.is_unit(),
        direction@.dx >= 0,
        direction@.dy >= 0,
{
    let across = draw_between(rng, 0, UNIT);
    let along = draw_between(rng, 0, UNIT);
    proof {
        lemma_drawn_heading_is_unit(across as int, along as int);
    }
    direction_from_draws(across as i32, along as i32)
}

/// What was added to the enemies by a spawn: one or two enemies, each in the
/// spawn area and with a direction of unit length that points right and up,
/// after the enemies that were there.
pub open spec fn enemies_spawned(
    before: Seq<crate::world::EnemyView>,
    after: Seq<crate::world::EnemyView>,
    window: Window,
) -> bool {
    &&& before.len() + 1 <= after.len() <= before.len() + 2
    &&& after.take(before.len() as int) == before
    &&& forall|i: int|
        before.len() <= i < after.len() ==> {
            &&& in_spawn_area((#[trigger] after[i]).position, window)
            &&& after[i].heading.is_unit()
            &&& after[i].heading.dx >= 0
            &&& after[i].heading.dy >= 0
        }
}

/// Adds one or two enemies at random positions of the spawn area, each with a
/// random direction. The window must have a spawn area, which [`spawn_area`]
/// tells; how many enemies come, where, and where they head is up to the
/// generator.
pub fn spawn_enemies(world: &mut World, rng: &mut StdRng)
    requires
        spawn_check(old(world)@.window) is Ok,
    ensures
        final(world)@.window == old(world)@.window,
        final(world)@.player == old(world)@.player,
        final(world)@.stars == old(world)@.stars,
        enemies_spawned(old(world)@.enemies, final(world)@.enemies, old(world)@.window),
{
    let ghost before = world@;
    let window = world.window();
    let (right, top) = spawn_ends(window);
    let count = draw_between(rng, 1, 3);
    let mut made: i64 = 0;
    assert(world@.enemies.take(before.enemies.len() as int) =~= before.enemies);
    while made < count
        invariant
            0 <= made <= count,
            1 <= count < 3,
            right == spawn_right(window),
            top == spawn_top(window),
            SPAWN_MARGIN < right,
            SPAWN_MARGIN < top,
            window == before.window,
            world@.window == before.window,
            world@.player == before.player,
            world@.stars == before.stars,
            world@.enemies.len() == before.enemies.len() + made,
            world@.enemies.take(before.enemies.len() as int) == before.enemies,
            forall|i: int|
                before.enemies.len() <= i < world@.enemies.len() ==> {
                    &&& in_spawn_area((#[trigger] world@.enemies[i]).position, window)
                    &&& world@.enemies[i].heading.is_unit()
                    &&& world@.enemies[i].heading.dx >= 0
                    &&& world@.enemies[i].heading.dy >= 0
                },
        decreases count - made,
    {
        let ghost earlier = world@.enemies;
        let position = draw_position(right, top, rng);
        let direction = draw_direction(rng);
        world.add_enemy(Enemy { position, direction });
        assert(world@.enemies.take(before.enemies.len() as int) =~= earlier.take(
            before.enemies.len() as int,
        ));
        made = made + 1;
    }
}

/// What a session starts with: the player in the middle of the window, one or
/// two stars and one or two enemies.
pub open spec fn is_fresh(world: WorldView, window: Window) -> bool {
    &&& world.window == window
    &&& world.player == Some(Player { position: center(window) })
    &&& stars_spawned(Seq::empty(), world.stars, window)
    &&& enemies_spawned(Seq::empty(), world.enemies, window)
}

/// Starts a session in a window: spawns the player, the enemies and the stars.
/// The window must have a spawn area, which [`spawn_area`] tells.
pub fn start_session(window: Window, rng: &mut StdRng) -> (world: World)
    requires
        spawn_check(window) is Ok,
    ensures
        is_fresh(world@, window),
{
    let mut world = World::new(window);
    spawn_player(&mut world);
    spawn_enemies(&mut world, rng);
    spawn_stars(&mut world, rng);
    world
}

} // verus!
