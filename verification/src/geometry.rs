//! Points, headings, unit directions and the distance test.

use vstd::prelude::*;
use vstd::arithmetic::div_mod::{lemma_div_by_multiple, lemma_div_is_ordered, lemma_div_pos_is_pos, lemma_fundamental_div_mod, lemma_mod_pos_bound};
use crate::fixed::{REACH, UNIT};

verus! {

/// A point of the plane, in fixed-point steps.
#[derive(Clone, Copy, Debug, PartialEq, Eq)]
pub struct Position {
    pub x: i64,
    pub y: i64,
}

/// A vector of the plane as the contracts see it: two unbounded components on
/// the fixed-point scale.
pub struct Heading {
    pub dx: int,
    pub dy: int,
}

impl Heading {
    /// The square of the vector's length.
    pub open spec fn length_squared(self) -> int {
        self.dx * self.dx + self.dy * self.dy
    }

    pub open spec fn is_zero(self) -> bool {
        self.dx == 0 && self.dy == 0
    }

    /// Unit length on the fixed-point scale: the length lies between
    /// `UNIT - 1` and `UNIT + 1`, that is within one step of 1. Whole
    /// components seldom hit the length `UNIT` itself.
    pub open spec fn is_unit(self) -> bool {
        (UNIT - 1) * (UNIT - 1) <= self.length_squared() <= (UNIT + 1) * (UNIT + 1)
    }

    /// The vector mirrored at the vertical axis.
    pub open spec fn flip_x(self) -> Heading {
        Heading { dx: -self.dx, dy: self.dy }
    }

    /// The vector mirrored at the horizontal axis.
    pub open spec fn flip_y(self) -> Heading {
        Heading { dx: self.dx, dy: -self.dy }
    }
}

/// Whether two entities centred at `a` and `b` touch: their Euclidean distance
/// is at most the entity size.
pub open spec fn within_reach(a: Position, b: Position) -> bool {
    (a.x - b.x) * (a.x - b.x) + (a.y - b.y) * (a.y - b.y) <= REACH * REACH
}

impl Position {
    /// Decides [`within_reach`] for this point and another.
    pub fn reaches(&self, other: &Position) -> (touching: bool)
        ensures
            touching == within_reach(*self, *other),
    {
        let dx: i128 = self.x as i128 - other.x as i128;
        let dy: i128 = self.y as i128 - other.y as i128;
        let reach: i128 = REACH as i128;
        if dx > reach || dx < -reach {
            assert(dx * dx > REACH * REACH) by (nonlinear_arith)
                requires
                    dx > REACH || dx < -REACH,
                    REACH > 0,
            ;
            assert(dy * dy >= 0) by (nonlinear_arith);
            return false;
        }
        if dy > reach || dy < -reach {
            assert(dy * dy > REACH * REACH) by (nonlinear_arith)
                requires
                    dy > REACH || dy < -REACH,
                    REACH > 0,
            ;
            assert(dx * dx >= 0) by (nonlinear_arith);
            return false;
        }
        assert(0 <= dx * dx <= REACH * REACH) by (nonlinear_arith)
            requires
                -REACH <= dx <= REACH,
        ;
        assert(0 <= dy * dy <= REACH * REACH) by (nonlinear_arith)
            requires
                -REACH <= dy <= REACH,
        ;
        dx * dx + dy * dy <= reach * reach
    }
}

/// `root` is the integer square root of `n`, rounded down.
pub open spec fn is_floor_sqrt(n: int, root: int) -> bool {
    0 <= root && root * root <= n < (root + 1) * (root + 1)
}

/// The integer square root of `n`, rounded down.
pub open spec fn floor_sqrt(n: int) -> int {
    choose|root: int| is_floor_sqrt(n, root)
}

/// A number has at most one rounded-down square root, so any witness is it.
pub proof fn lemma_floor_sqrt_unique(n: int, root: int)
    requires
        is_floor_sqrt(n, root),
    ensures
        floor_sqrt(n) == root,
{
    let other = floor_sqrt(n);
    assert(is_floor_sqrt(n, other));
    assert(other == root) by (nonlinear_arith)
        requires
            0 <= root,
            root * root <= n < (root + 1) * (root + 1),
            0 <= other,
            other * other <= n < (other + 1) * (other + 1),
    ;
}

/// Computes [`floor_sqrt`] by bisection.
pub fn integer_sqrt(n: u64) -> (root: u64)
    ensures
        root == floor_sqrt(n as int),
        is_floor_sqrt(n as int, root as int),
{
    let mut low: u64 = 0;
    let mut high: u64 = 4_294_967_296;
    while high - low > 1
        invariant
            low < high <= 4_294_967_296,
            low * low <= n < high * high,
        decreases high - low,
    {
        let middle: u64 = low + (high - low) / 2;
        assert(middle * middle <= 4_294_967_295 * 4_294_967_295) by (nonlinear_arith)
            requires
                0 <= middle <= 4_294_967_295,
        ;
        if middle * middle <= n {
            low = middle;
        } else {
            high = middle;
        }
    }
    proof {
        lemma_floor_sqrt_unique(n as int, low as int);
    }
    low
}

/// Every number from zero up has a rounded-down square root.
pub proof fn lemma_floor_sqrt_exists(n: int)
    requires
        0 <= n,
    ensures
        is_floor_sqrt(n, floor_sqrt(n)),
    decreases n,
{
    if n == 0 {
        assert(is_floor_sqrt(0, 0));
    } else {
        lemma_floor_sqrt_exists(n - 1);
        let below = floor_sqrt(n - 1);
        let above = below + 1;
        if above * above <= n {
            assert((above + 1) * (above + 1) > n) by (nonlinear_arith)
                requires
                    0 <= below,
                    above == below + 1,
                    n - 1 < above * above,
            ;
            assert(is_floor_sqrt(n, above));
        } else {
            assert(is_floor_sqrt(n, below));
        }
    }
}

/// One component of the unit vector along `(a, b)`, where `a` is the component
/// asked for and `b` the other one: `UNIT * a / sqrt(a * a + b * b)`, rounded
/// to the nearest step, and away from zero where it lies halfway. Twice the
/// size is the square root of four times its square; that root is rounded
/// down, and half of it is rounded to the nearest whole.
pub open spec fn unit_component(a: int, b: int) -> int {
    let doubled = floor_sqrt((4 * (a * a * UNIT * UNIT)) / (a * a + b * b));
    let size = (doubled + 1) / 2;
    if a >= 0 {
        size
    } else {
        -size
    }
}

/// The vector `(x, y)` scaled to unit length, or the zero vector where `(x, y)`
/// is the zero vector.
pub open spec fn normalized(x: int, y: int) -> Heading {
    if x == 0 && y == 0 {
        Heading { dx: 0, dy: 0 }
    } else {
        Heading { dx: unit_component(x, y), dy: unit_component(y, x) }
    }
}

/// Scaling a vector other than zero to unit length gives a vector of unit
/// length, and the components keep their signs.
pub proof fn lemma_normalized_is_unit(x: int, y: int)
    requires
        x != 0 || y != 0,
    ensures
        normalized(x, y).is_unit(),
        x >= 0 ==> 0 <= normalized(x, y).dx <= UNIT,
        x < 0 ==> -UNIT <= normalized(x, y).dx <= 0,
        y >= 0 ==> 0 <= normalized(x, y).dy <= UNIT,
        y < 0 ==> -UNIT <= normalized(x, y).dy <= 0,
{
    let scale: int = 4_000_000_000_000;
    let d = x * x + y * y;
    let nx = 4 * (x * x * UNIT * UNIT);
    let ny = 4 * (y * y * UNIT * UNIT);
    assert(d > 0 && nx >= 0 && ny >= 0 && nx + ny == d * scale) by (nonlinear_arith)
        requires
            x != 0 || y != 0,
            d == x * x + y * y,
            nx == 4 * (x * x * 1_000_000 * 1_000_000),
            ny == 4 * (y * y * 1_000_000 * 1_000_000),
            scale == 4_000_000_000_000,
    ;
    let qx = nx / d;
    let qy = ny / d;
    let mx = nx % d;
    let my = ny % d;
    lemma_fundamental_div_mod(nx, d);
    lemma_fundamental_div_mod(ny, d);
    lemma_mod_pos_bound(nx, d);
    lemma_mod_pos_bound(ny, d);
    lemma_div_pos_is_pos(nx, d);
    lemma_div_pos_is_pos(ny, d);
    assert(scale - 1 <= qx + qy <= scale) by (nonlinear_arith)
        requires
            d > 0,
            nx == d * qx + mx,
            ny == d * qy + my,
            0 <= mx < d,
            0 <= my < d,
            nx + ny == d * scale,
    ;
    lemma_floor_sqrt_exists(qx);
    lemma_floor_sqrt_exists(qy);
    // Twice the sizes, rounded down, and the sizes themselves.
    let rx = floor_sqrt(qx);
    let ry = floor_sqrt(qy);
    let cx = (rx + 1) / 2;
    let cy = (ry + 1) / 2;
    assert(rx + ry <= 3_000_000 && rx <= 2_000_000 && ry <= 2_000_000) by (nonlinear_arith)
        requires
            0 <= rx,
            0 <= ry,
            rx * rx + ry * ry <= 4_000_000_000_000,
    ;
    assert((rx + 1) * (rx + 1) == rx * rx + 2 * rx + 1) by (nonlinear_arith);
    assert((ry + 1) * (ry + 1) == ry * ry + 2 * ry + 1) by (nonlinear_arith);
    assert(rx * rx <= (2 * cx) * (2 * cx) <= (rx + 1) * (rx + 1)) by (nonlinear_arith)
        requires
            0 <= rx <= 2 * cx <= rx + 1,
    ;
    assert(ry * ry <= (2 * cy) * (2 * cy) <= (ry + 1) * (ry + 1)) by (nonlinear_arith)
        requires
            0 <= ry <= 2 * cy <= ry + 1,
    ;
    assert((2 * cx) * (2 * cx) == 4 * (cx * cx)) by (nonlinear_arith);
    assert((2 * cy) * (2 * cy) == 4 * (cy * cy)) by (nonlinear_arith);
    assert((-cx) * (-cx) == cx * cx) by (nonlinear_arith);
    assert((-cy) * (-cy) == cy * cy) by (nonlinear_arith);
    assert(unit_component(x, y) == cx || unit_component(x, y) == -cx);
    assert(unit_component(y, x) == cy || unit_component(y, x) == -cy);
    assert(999_999 * 999_999 == 999_998_000_001 && 1_000_001 * 1_000_001 == 1_000_002_000_001)
        by (nonlinear_arith);
}

/// A direction of unit length, with components on the fixed-point scale.
#[derive(Clone, Copy, Debug, PartialEq, Eq)]
pub struct Direction {
    dx: i64,
    dy: i64,
}

impl View for Direction {
    type V = Heading;

    closed spec fn view(&self) -> Heading {
        Heading { dx: self.dx as int, dy: self.dy as int }
    }
}

/// A vector of unit length has no component more than a step beyond `UNIT`.
pub proof fn lemma_unit_components_bounded(heading: Heading)
    requires
        heading.is_unit(),
    ensures
        -(UNIT + 1) <= heading.dx <= UNIT + 1,
        -(UNIT + 1) <= heading.dy <= UNIT + 1,
{
    let dx = heading.dx;
    let dy = heading.dy;
    assert(-1_000_001 <= dx <= 1_000_001 && -1_000_001 <= dy <= 1_000_001) by (nonlinear_arith)
        requires
            dx * dx + dy * dy <= 1_000_001 * 1_000_001,
    ;
}

impl Direction {
    #[verifier::type_invariant]
    spec fn unit_length(self) -> bool {
        self@.is_unit()
    }

    /// The direction with the given components, if they make a unit vector.
    pub fn new(dx: i64, dy: i64) -> (direction: Option<Direction>)
        ensures
            direction is Some <==> (Heading { dx: dx as int, dy: dy as int }).is_unit(),
            direction matches Some(d) ==> d@ == (Heading { dx: dx as int, dy: dy as int }),
    {
        if dx > UNIT + 1 || dx < -(UNIT + 1) || dy > UNIT + 1 || dy < -(UNIT + 1) {
            proof {
                if (Heading { dx: dx as int, dy: dy as int }).is_unit() {
                    lemma_unit_components_bounded(Heading { dx: dx as int, dy: dy as int });
                }
            }
            return None;
        }
        assert(0 <= dx * dx <= 1_000_002_000_001) by (nonlinear_arith)
            requires
                -1_000_001 <= dx <= 1_000_001,
        ;
        assert(0 <= dy * dy <= 1_000_002_000_001) by (nonlinear_arith)
            requires
                -1_000_001 <= dy <= 1_000_001,
        ;
        assert(999_999 * 999_999 == 999_998_000_001 && 1_000_001 * 1_000_001 == 1_000_002_000_001)
            by (nonlinear_arith);
        let length_squared: i64 = dx * dx + dy * dy;
        if 999_998_000_001 <= length_squared && length_squared <= 1_000_002_000_001 {
            Some(Direction { dx, dy })
        } else {
            None
        }
    }

    /// The horizontal component; it lies within a step of `-UNIT` to `UNIT`.
    pub fn dx(&self) -> (component: i64)
        ensures
            component == self@.dx,
            self@.is_unit(),
            -(UNIT + 1) <= component <= UNIT + 1,
    {
        proof {
            use_type_invariant(self);
            lemma_unit_components_bounded(self@);
        }
        self.dx
    }

    /// The vertical component; it lies within a step of `-UNIT` to `UNIT`.
    pub fn dy(&self) -> (component: i64)
        ensures
            component == self@.dy,
            self@.is_unit(),
            -(UNIT + 1) <= component <= UNIT + 1,
    {
        proof {
            use_type_invariant(self);
            lemma_unit_components_bounded(self@);
        }
        self.dy
    }

    /// The direction mirrored at the vertical axis: the sign of the horizontal
    /// component changes, and nothing else.
    pub fn flip_x(&self) -> (mirrored: Direction)
        ensures
            mirrored@ == self@.flip_x(),
    {
        proof {
            use_type_invariant(self);
            lemma_unit_components_bounded(self@);
            assert((-self@.dx) * (-self@.dx) == self@.dx * self@.dx) by (nonlinear_arith);
        }
        Direction { dx: -self.dx, dy: self.dy }
    }

    /// The direction mirrored at the horizontal axis: the sign of the vertical
    /// component changes, and nothing else.
    pub fn flip_y(&self) -> (mirrored: Direction)
        ensures
            mirrored@ == self@.flip_y(),
    {
        proof {
            use_type_invariant(self);
            lemma_unit_components_bounded(self@);
            assert((-self@.dy) * (-self@.dy) == self@.dy * self@.dy) by (nonlinear_arith);
        }
        Direction { dx: self.dx, dy: -self.dy }
    }
}

/// The size of a number, as an unsigned one.
fn magnitude(value: i32) -> (size: u64)
    ensures
        size == (if value >= 0 { value as int } else { -(value as int) }),
        size <= 2_147_483_648,
{
    let wide: i64 = value as i64;
    if wide >= 0 {
        wide as u64
    } else {
        (-wide) as u64
    }
}

/// The size of [`unit_component`] for a component whose square is `square`,
/// in a vector whose squared length is `total`.
fn unit_magnitude(square: u64, total: u64) -> (size: u64)
    requires
        square <= total,
        0 < total,
        square <= 4_611_686_018_427_387_904,
    ensures
        size == (floor_sqrt((4 * (square * UNIT * UNIT)) / (total as int)) + 1) / 2,
        size <= UNIT,
{
    let scale: u128 = 4_000_000_000_000;
    assert(square * scale <= 4_611_686_018_427_387_904 * 4_000_000_000_000) by (nonlinear_arith)
        requires
            0 <= square <= 4_611_686_018_427_387_904,
            scale == 4_000_000_000_000,
    ;
    let scaled: u128 = (square as u128) * scale;
    assert(scaled == 4 * (square * UNIT * UNIT)) by (nonlinear_arith)
        requires
            scaled == square * scale,
            scale == 4_000_000_000_000,
            UNIT == 1_000_000,
    ;
    let quotient: u128 = scaled / (total as u128);
    proof {
        assert(scaled <= scale * total) by (nonlinear_arith)
            requires
                scaled == square * scale,
                square <= total,
                0 <= scale,
        ;
        lemma_div_is_ordered(scaled as int, scale * total, total as int);
        lemma_div_by_multiple(scale as int, total as int);
        lemma_div_pos_is_pos(scaled as int, total as int);
    }
    let doubled = integer_sqrt(quotient as u64);
    assert(doubled <= 2_000_000) by (nonlinear_arith)
        requires
            0 <= doubled,
            doubled * doubled <= quotient,
            quotient <= 4_000_000_000_000,
    ;
    (doubled + 1) / 2
}

/// Scales the vector `(x, y)` to unit length. There is no direction along the
/// zero vector.
pub fn normalize(x: i32, y: i32) -> (direction: Option<Direction>)
    ensures
        direction is None <==> (x == 0 && y == 0),
        direction matches Some(d) ==> d@ == normalized(x as int, y as int),
{
    if x == 0 && y == 0 {
        return None;
    }
    let across = magnitude(x);
    let along = magnitude(y);
    assert(across * across == x * x && across * across <= 4_611_686_018_427_387_904) by (nonlinear_arith)
        requires
            across == x || across == -x,
            across <= 2_147_483_648,
    ;
    assert(along * along == y * y && along * along <= 4_611_686_018_427_387_904) by (nonlinear_arith)
        requires
            along == y || along == -y,
            along <= 2_147_483_648,
    ;
    let across_squared: u64 = across * across;
    let along_squared: u64 = along * along;
    assert(across_squared + along_squared > 0) by (nonlinear_arith)
        requires
            x != 0 || y != 0,
            across_squared == x * x,
            along_squared == y * y,
    ;
    let total: u64 = across_squared + along_squared;
    let width = unit_magnitude(across_squared, total);
    let height = unit_magnitude(along_squared, total);
    proof {
        lemma_normalized_is_unit(x as int, y as int);
    }
    let dx: i64 = if x >= 0 {
        width as i64
    } else {
        -(width as i64)
    };
    let dy: i64 = if y >= 0 {
        height as i64
    } else {
        -(height as i64)
    };
    Some(Direction { dx, dy })
}

} // verus!
