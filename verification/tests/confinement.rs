use ball_game::confine::{confine_enemy, confine_one, confine_player, find_wall, Wall};
use ball_game::effect::Effect;
use ball_game::fixed::UNIT;
use ball_game::geometry::{Direction, Position};
use ball_game::sound::SoundKind;
use ball_game::world::{Enemy, Player, Window, World};
use rand::rngs::StdRng;
use rand::SeedableRng;

const FIELD: Window = Window { width: 800_000_000, height: 600_000_000 };

fn confined_player(window: Window, x: i64, y: i64) -> Position {
    let mut world = World::new(window);
    world.place_player(Player { position: Position { x, y } });
    confine_player(&mut world);
    world.player().unwrap().position
}

fn enemy_at(x: i64, y: i64, dx: i64, dy: i64) -> Enemy {
    Enemy { position: Position { x, y }, direction: Direction::new(dx, dy).unwrap() }
}

#[test]
fn player_is_clamped_to_half_its_size_from_the_walls() {
    assert_eq!(confined_player(FIELD, 0, 0), Position { x: 32 * UNIT, y: 32 * UNIT });
    assert_eq!(
        confined_player(FIELD, 900 * UNIT, 700 * UNIT),
        Position { x: 768 * UNIT, y: 568 * UNIT }
    );
    assert_eq!(confined_player(FIELD, -5, 300 * UNIT), Position { x: 32 * UNIT, y: 300 * UNIT });
    assert_eq!(confined_player(FIELD, 400 * UNIT, 601 * UNIT), Position { x: 400 * UNIT, y: 568 * UNIT });
}

#[test]
fn player_inside_the_margins_is_left_alone() {
    assert_eq!(confined_player(FIELD, 400 * UNIT, 300 * UNIT), Position { x: 400 * UNIT, y: 300 * UNIT });
    assert_eq!(confined_player(FIELD, 32 * UNIT + 1, 568 * UNIT - 1), Position { x: 32 * UNIT + 1, y: 568 * UNIT - 1 });
    assert_eq!(confined_player(FIELD, 32 * UNIT, 568 * UNIT), Position { x: 32 * UNIT, y: 568 * UNIT });
}

#[test]
fn confined_player_keeps_the_margin_from_anywhere() {
    let coordinates = [i64::MIN, -1, 0, 31 * UNIT, 32 * UNIT, 33 * UNIT, 400 * UNIT, 767 * UNIT, 768 * UNIT, 769 * UNIT, i64::MAX];
    for &x in coordinates.iter() {
        for &y in coordinates.iter() {
            let position = confined_player(FIELD, x, y);
            assert!(32 * UNIT <= position.x && position.x <= 768 * UNIT);
            assert!(32 * UNIT <= position.y && position.y <= 568 * UNIT);
        }
    }
}

#[test]
fn window_as_wide_as_the_player_leaves_one_place() {
    let window = Window { width: 64_000_000, height: 64_000_000 };
    assert_eq!(confined_player(window, 0, 900 * UNIT), Position { x: 32 * UNIT, y: 32 * UNIT });
}

#[test]
fn window_narrower_than_the_player_puts_it_at_the_far_margin() {
    let window = Window { width: 40_000_000, height: 0 };
    assert_eq!(confined_player(window, 0, 0), Position { x: 8 * UNIT, y: -32 * UNIT });
    assert_eq!(confined_player(window, 500 * UNIT, 500 * UNIT), Position { x: 8 * UNIT, y: -32 * UNIT });
}

#[test]
fn confine_player_without_player_changes_nothing() {
    let mut world = World::new(FIELD);
    world.add_enemy(enemy_at(0, 0, UNIT, 0));
    confine_player(&mut world);
    assert_eq!(world.player(), None);
    assert_eq!(world.enemy(0), Some(enemy_at(0, 0, UNIT, 0)));
}

#[test]
fn enemy_margin_is_sixty_four_over_one_point_eight() {
    // 64 / 1.8 = 35.5555...: the last step below it and the first above.
    assert_eq!(find_wall(Position { x: 35_555_555, y: 300 * UNIT }, FIELD), Some(Wall::Side));
    assert_eq!(find_wall(Position { x: 35_555_556, y: 300 * UNIT }, FIELD), None);
    assert_eq!(find_wall(Position { x: 764_444_444, y: 300 * UNIT }, FIELD), None);
    assert_eq!(find_wall(Position { x: 764_444_445, y: 300 * UNIT }, FIELD), Some(Wall::Side));
    assert_eq!(find_wall(Position { x: 400 * UNIT, y: 35_555_555 }, FIELD), Some(Wall::Floor));
    assert_eq!(find_wall(Position { x: 400 * UNIT, y: 35_555_556 }, FIELD), None);
    assert_eq!(find_wall(Position { x: 400 * UNIT, y: 564_444_444 }, FIELD), None);
    assert_eq!(find_wall(Position { x: 400 * UNIT, y: 564_444_445 }, FIELD), Some(Wall::Floor));
}

#[test]
fn side_walls_are_looked_at_first() {
    assert_eq!(find_wall(Position { x: 0, y: 0 }, FIELD), Some(Wall::Side));
    assert_eq!(find_wall(Position { x: 900 * UNIT, y: 900 * UNIT }, FIELD), Some(Wall::Side));
    assert_eq!(find_wall(Position { x: i64::MIN, y: i64::MAX }, FIELD), Some(Wall::Side));
    assert_eq!(find_wall(Position { x: 400 * UNIT, y: i64::MAX }, FIELD), Some(Wall::Floor));
}

#[test]
fn enemy_left_of_the_margin_turns_round_and_is_nudged() {
    let mut world = World::new(FIELD);
    world.add_enemy(enemy_at(30 * UNIT, 300 * UNIT, 600_000, 800_000));
    let mut rng = StdRng::seed_from_u64(1);
    let effects = confine_enemy(&mut world, &mut rng);
    let enemy = world.enemy(0).unwrap();
    assert_eq!((enemy.direction.dx(), enemy.direction.dy()), (-600_000, 800_000));
    assert_eq!(enemy.position, Position { x: 30 * UNIT - 4_800_000, y: 300 * UNIT + 6_400_000 });
    assert_eq!(effects.len(), 1);
    match effects[0] {
        Effect::PlaySound(sound) => assert_eq!(sound.kind(), SoundKind::Impact),
        other => panic!("no sound: {:?}", other),
    }
}

#[test]
fn enemy_moving_left_past_the_margin_is_pushed_back_in() {
    let (enemy, bounced) = confine_one(enemy_at(30 * UNIT, 300 * UNIT, -UNIT, 0), FIELD);
    assert!(bounced);
    assert_eq!((enemy.direction.dx(), enemy.direction.dy()), (UNIT, 0));
    assert_eq!(enemy.position, Position { x: 38 * UNIT, y: 300 * UNIT });
}

#[test]
fn enemy_above_the_margin_turns_round_vertically() {
    let (enemy, bounced) = confine_one(enemy_at(400 * UNIT, 590 * UNIT, 600_000, 800_000), FIELD);
    assert!(bounced);
    assert_eq!((enemy.direction.dx(), enemy.direction.dy()), (600_000, -800_000));
    assert_eq!(enemy.position, Position { x: 400 * UNIT + 4_800_000, y: 590 * UNIT - 6_400_000 });
}

#[test]
fn enemy_in_a_corner_bounces_off_the_side_only() {
    let (enemy, bounced) = confine_one(enemy_at(10 * UNIT, 10 * UNIT, -600_000, -800_000), FIELD);
    assert!(bounced);
    assert_eq!((enemy.direction.dx(), enemy.direction.dy()), (600_000, -800_000));
    assert_eq!(enemy.position, Position { x: 10 * UNIT + 4_800_000, y: 10 * UNIT - 6_400_000 });
}

#[test]
fn enemy_inside_the_margins_is_left_alone() {
    let before = enemy_at(400 * UNIT, 300 * UNIT, 600_000, 800_000);
    let (enemy, bounced) = confine_one(before, FIELD);
    assert!(!bounced);
    assert_eq!(enemy, before);
    let mut world = World::new(FIELD);
    world.add_enemy(before);
    let mut rng = StdRng::seed_from_u64(2);
    let effects = confine_enemy(&mut world, &mut rng);
    assert!(effects.is_empty());
    assert_eq!(world.enemy(0), Some(before));
}

#[test]
fn nudge_saturates_at_the_end_of_the_coordinate_range() {
    let (enemy, bounced) = confine_one(enemy_at(i64::MAX - 3, i64::MIN + 3, -600_000, 800_000), FIELD);
    assert!(bounced);
    assert_eq!((enemy.direction.dx(), enemy.direction.dy()), (600_000, 800_000));
    assert_eq!(enemy.position, Position { x: i64::MAX, y: i64::MIN + 3 + 6_400_000 });
}

#[test]
fn one_impact_for_each_enemy_that_bounces() {
    let mut world = World::new(FIELD);
    world.add_enemy(enemy_at(10 * UNIT, 300 * UNIT, -UNIT, 0));
    world.add_enemy(enemy_at(400 * UNIT, 300 * UNIT, UNIT, 0));
    world.add_enemy(enemy_at(400 * UNIT, 599 * UNIT, 0, UNIT));
    world.place_player(Player { position: Position { x: 1, y: 2 } });
    let mut rng = StdRng::seed_from_u64(3);
    let effects = confine_enemy(&mut world, &mut rng);
    assert_eq!(effects.len(), 2);
    for effect in effects.iter() {
        match effect {
            Effect::PlaySound(sound) => assert_eq!(sound.kind(), SoundKind::Impact),
            other => panic!("no sound: {:?}", other),
        }
    }
    assert_eq!(world.enemy(0), Some(enemy_at(18 * UNIT, 300 * UNIT, UNIT, 0)));
    assert_eq!(world.enemy(1), Some(enemy_at(400 * UNIT, 300 * UNIT, UNIT, 0)));
    assert_eq!(world.enemy(2), Some(enemy_at(400 * UNIT, 591 * UNIT, 0, -UNIT)));
    assert_eq!(world.player().unwrap().position, Position { x: 1, y: 2 });
}

#[test]
fn bounces_keep_the_length_of_the_direction() {
    let mut world = World::new(Window { width: 100_000_000, height: 100_000_000 });
    let start = Direction::new(707_107, 707_107).unwrap();
    let length = start.dx() * start.dx() + start.dy() * start.dy();
    world.add_enemy(Enemy { position: Position { x: 0, y: 0 }, direction: start });
    let mut rng = StdRng::seed_from_u64(4);
    let mut bounces = 0;
    for _ in 0..200 {
        ball_game::movement::enemy_movement(&mut world, 40_000);
        bounces += confine_enemy(&mut world, &mut rng).len();
        let direction = world.enemy(0).unwrap().direction;
        assert_eq!(direction.dx().abs(), 707_107);
        assert_eq!(direction.dy().abs(), 707_107);
        assert_eq!(direction.dx() * direction.dx() + direction.dy() * direction.dy(), length);
    }
    assert!(bounces > 0);
}
