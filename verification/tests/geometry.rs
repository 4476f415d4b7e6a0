use ball_game::fixed::{distance_travelled, shift, UNIT};
use ball_game::geometry::{integer_sqrt, normalize, Direction, Position};

fn length_squared_of(direction: &Direction) -> i64 {
    direction.dx() * direction.dx() + direction.dy() * direction.dy()
}

#[test]
fn integer_sqrt_rounds_down() {
    assert_eq!(integer_sqrt(0), 0);
    assert_eq!(integer_sqrt(1), 1);
    assert_eq!(integer_sqrt(2), 1);
    assert_eq!(integer_sqrt(3), 1);
    assert_eq!(integer_sqrt(4), 2);
    assert_eq!(integer_sqrt(99), 9);
    assert_eq!(integer_sqrt(100), 10);
    assert_eq!(integer_sqrt(1_000_000_000_000), 1_000_000);
    assert_eq!(integer_sqrt(999_999_999_999), 999_999);
    assert_eq!(integer_sqrt(500_000_000_000), 707_106);
}

#[test]
fn integer_sqrt_of_the_largest_number() {
    assert_eq!(integer_sqrt(u64::MAX), 4_294_967_295);
    assert_eq!(integer_sqrt(4_294_967_295 * 4_294_967_295), 4_294_967_295);
    assert_eq!(integer_sqrt(4_294_967_295 * 4_294_967_295 - 1), 4_294_967_294);
}

#[test]
fn normalize_of_zero_is_nothing() {
    assert_eq!(normalize(0, 0), None);
}

#[test]
fn normalize_along_an_axis() {
    let right = normalize(7, 0).unwrap();
    assert_eq!((right.dx(), right.dy()), (UNIT, 0));
    let down = normalize(0, -3).unwrap();
    assert_eq!((down.dx(), down.dy()), (0, -UNIT));
}

#[test]
fn normalize_three_four_five() {
    let direction = normalize(3, 4).unwrap();
    assert_eq!((direction.dx(), direction.dy()), (600_000, 800_000));
    let mirrored = normalize(-3, 4).unwrap();
    assert_eq!((mirrored.dx(), mirrored.dy()), (-600_000, 800_000));
}

#[test]
fn normalize_diagonal_rounds_to_nearest() {
    let direction = normalize(1, 1).unwrap();
    assert_eq!((direction.dx(), direction.dy()), (707_107, 707_107));
    let opposite = normalize(-1, -1).unwrap();
    assert_eq!((opposite.dx(), opposite.dy()), (-707_107, -707_107));
}

#[test]
fn normalize_extreme_components() {
    let direction = normalize(i32::MIN, i32::MAX).unwrap();
    assert_eq!((direction.dx(), direction.dy()), (-707_107, 707_107));
    let steep = normalize(1, i32::MAX).unwrap();
    assert_eq!((steep.dx(), steep.dy()), (0, UNIT));
    let flat = normalize(i32::MIN, -1).unwrap();
    assert_eq!((flat.dx(), flat.dy()), (-UNIT, 0));
}

#[test]
fn rounding_keeps_the_length_within_one_step() {
    // The worst cases of rounding toward zero: equal components, where each
    // falls short by most of a step.
    for draw in [1, 2, 3, 500_000, 999_999, i32::MAX] {
        let direction = normalize(draw, draw).unwrap();
        assert_eq!((direction.dx(), direction.dy()), (707_107, 707_107));
        let length = length_squared_of(&direction);
        assert!((UNIT - 1) * (UNIT - 1) <= length && length <= (UNIT + 1) * (UNIT + 1));
    }
}

#[test]
fn normalize_rounds_each_component_to_the_nearest_step() {
    // 1 / sqrt(5) = 0.4472135954..., 2 / sqrt(5) = 0.8944271909...
    let direction = normalize(1, 2).unwrap();
    assert_eq!((direction.dx(), direction.dy()), (447_214, 894_427));
    // 1 / sqrt(10) = 0.3162277660..., 3 / sqrt(10) = 0.9486832980...
    let other = normalize(-1, 3).unwrap();
    assert_eq!((other.dx(), other.dy()), (-316_228, 948_683));
}

#[test]
fn normalized_vectors_have_unit_length() {
    let low = (UNIT - 1) * (UNIT - 1);
    let high = (UNIT + 1) * (UNIT + 1);
    for x in -12..=12 {
        for y in -12..=12 {
            match normalize(x * 37, y * 101) {
                Some(direction) => {
                    let length = length_squared_of(&direction);
                    assert!(low <= length && length <= high, "({}, {})", x, y);
                }
                None => assert!(x == 0 && y == 0),
            }
        }
    }
}

#[test]
fn direction_new_takes_unit_vectors_only() {
    assert!(Direction::new(UNIT, 0).is_some());
    assert!(Direction::new(0, -UNIT).is_some());
    assert!(Direction::new(600_000, 800_000).is_some());
    assert!(Direction::new(707_107, 707_107).is_some());
    assert!(Direction::new(707_106, 707_106).is_none());
    assert!(Direction::new(UNIT - 1, 0).is_some());
    assert!(Direction::new(UNIT - 2, 0).is_none());
    assert!(Direction::new(0, UNIT + 1).is_some());
    assert!(Direction::new(0, UNIT + 2).is_none());
    assert!(Direction::new(-UNIT - 1, 0).is_some());
    assert!(Direction::new(-UNIT - 2, 0).is_none());
    assert!(Direction::new(0, 0).is_none());
    assert!(Direction::new(UNIT, UNIT).is_none());
    assert!(Direction::new(i64::MIN, 0).is_none());
    assert!(Direction::new(0, i64::MAX).is_none());
}

#[test]
fn direction_new_keeps_the_components() {
    let direction = Direction::new(-800_000, 600_000).unwrap();
    assert_eq!(direction.dx(), -800_000);
    assert_eq!(direction.dy(), 600_000);
}

#[test]
fn flips_change_one_sign() {
    let direction = Direction::new(600_000, 800_000).unwrap();
    let side = direction.flip_x();
    assert_eq!((side.dx(), side.dy()), (-600_000, 800_000));
    let floor = direction.flip_y();
    assert_eq!((floor.dx(), floor.dy()), (600_000, -800_000));
    assert_eq!(side.flip_x(), direction);
    assert_eq!(floor.flip_y(), direction);
}

#[test]
fn reach_is_the_entity_size() {
    let origin = Position { x: 0, y: 0 };
    assert!(origin.reaches(&Position { x: 64 * UNIT, y: 0 }));
    assert!(!origin.reaches(&Position { x: 64 * UNIT + 1, y: 0 }));
    assert!(origin.reaches(&Position { x: 0, y: -64 * UNIT }));
    assert!(!origin.reaches(&Position { x: 0, y: -64 * UNIT - 1 }));
    // 38.4 and 51.2 are the legs of a right triangle with hypotenuse 64.
    assert!(origin.reaches(&Position { x: 38_400_000, y: 51_200_000 }));
    assert!(!origin.reaches(&Position { x: 38_400_001, y: 51_200_000 }));
    assert!(origin.reaches(&origin));
}

#[test]
fn reach_is_symmetric_and_survives_far_points() {
    let a = Position { x: i64::MIN, y: i64::MAX };
    let b = Position { x: i64::MAX, y: i64::MIN };
    assert!(!a.reaches(&b));
    assert!(!b.reaches(&a));
    assert!(a.reaches(&a));
    let c = Position { x: i64::MAX - 10, y: i64::MIN + 10 };
    assert!(b.reaches(&c));
    assert!(c.reaches(&b));
}

#[test]
fn shift_adds_and_saturates() {
    assert_eq!(shift(5, 7), 12);
    assert_eq!(shift(5, -7), -2);
    assert_eq!(shift(i64::MAX - 1, 5), i64::MAX);
    assert_eq!(shift(i64::MIN + 1, -5), i64::MIN);
    assert_eq!(shift(i64::MAX, i64::MIN), -1);
}

#[test]
fn distance_travelled_is_speed_times_time() {
    // One second at full speed: 500 distance units.
    assert_eq!(distance_travelled(UNIT, 1_000_000), 500 * UNIT);
    assert_eq!(distance_travelled(-UNIT, 1_000_000), -500 * UNIT);
    // One frame at sixty frames a second.
    assert_eq!(distance_travelled(UNIT, 16_667), 8_333_500);
    assert_eq!(distance_travelled(707_106, 16_667), 5_892_667);
    assert_eq!(distance_travelled(-707_106, 16_667), -5_892_667);
    assert_eq!(distance_travelled(0, 16_667), 0);
    assert_eq!(distance_travelled(UNIT, 0), 0);
}

#[test]
fn distance_travelled_rounds_toward_zero() {
    // 3 * 500 * 1 / 1_000_000 is less than one step.
    assert_eq!(distance_travelled(3, 1), 0);
    assert_eq!(distance_travelled(-3, 1), 0);
    assert_eq!(distance_travelled(1_999, 1), 0);
    assert_eq!(distance_travelled(2_000, 1), 1);
    assert_eq!(distance_travelled(-2_000, 1), -1);
    assert_eq!(distance_travelled(UNIT, u32::MAX), 2_147_483_647_500);
    assert_eq!(distance_travelled(UNIT + 1, u32::MAX), 2_147_485_794_983);
    assert_eq!(distance_travelled(-UNIT - 1, u32::MAX), -2_147_485_794_983);
}
