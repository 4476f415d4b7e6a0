//! The entity store: the window, the player, the stars and the enemies.
//!
//! The player has one slot. A star keeps the slot it was created in, and the
//! slot is emptied when the star is consumed, so that a slot's number names
//! one star for good. Enemies are never removed.

use vstd::prelude::*;
use crate::geometry::{Direction, Heading, Position};

verus! {

/// The bounds of the playing field, in fixed-point steps. They are fixed when
/// the session starts.
#[derive(Clone, Copy, Debug, PartialEq, Eq)]
pub struct Window {
    pub width: u64,
    pub height: u64,
}

impl Window {
    /// The coordinate of the right edge. The left edge is at zero, and a
    /// window wider than the coordinate range ends where the range ends.
    pub open spec fn right(&self) -> int {
        if self.width > i64::MAX {
            i64::MAX as int
        } else {
            self.width as int
        }
    }

    /// The coordinate of the top edge. The bottom edge is at zero, and a
    /// window higher than the coordinate range ends where the range ends.
    pub open spec fn top(&self) -> int {
        if self.height > i64::MAX {
            i64::MAX as int
        } else {
            self.height as int
        }
    }

    /// Computes [`Window::right`].
    pub fn right_edge(&self) -> (steps: i64)
        ensures
            steps == self.right(),
    {
        if self.width > i64::MAX as u64 {
            i64::MAX
        } else {
            self.width as i64
        }
    }

    /// Computes [`Window::top`].
    pub fn top_edge(&self) -> (steps: i64)
        ensures
            steps == self.top(),
    {
        if self.height > i64::MAX as u64 {
            i64::MAX
        } else {
            self.height as i64
        }
    }
}

/// The entity that the keys steer.
#[derive(Clone, Copy, Debug, PartialEq, Eq)]
pub struct Player {
    pub position: Position,
}

/// An entity that the player collects.
#[derive(Clone, Copy, Debug, PartialEq, Eq)]
pub struct Star {
    pub position: Position,
}

/// An entity that roams the window along its direction and ends the player on
/// contact.
#[derive(Clone, Copy, Debug, PartialEq, Eq)]
pub struct Enemy {
    pub position: Position,
    pub direction: Direction,
}

/// An enemy as the contracts see it.
pub struct EnemyView {
    pub position: Position,
    pub heading: Heading,
}

impl View for Enemy {
    type V = EnemyView;

    open spec fn view(&self) -> EnemyView {
        EnemyView { position: self.position, heading: self.direction@ }
    }
}

/// The name of an entity: the player, or a star or an enemy by the number of
/// its slot.
#[derive(Clone, Copy, Debug, PartialEq, Eq)]
pub enum Entity {
    Player,
    Star(usize),
    Enemy(usize),
}

/// The number of stars that are still there.
pub open spec fn live_stars(stars: Seq<Option<Star>>) -> nat
    decreases stars.len(),
{
    if stars.len() == 0 {
        0
    } else {
        live_stars(stars.drop_last()) + if stars.last() is Some {
            1nat
        } else {
            0nat
        }
    }
}

/// Where no slot gained a star, the number of stars did not grow.
pub proof fn lemma_live_stars_do_not_grow(before: Seq<Option<Star>>, after: Seq<Option<Star>>)
    requires
        before.len() == after.len(),
        forall|i: int| 0 <= i < after.len() && after[i] is Some ==> before[i] is Some,
    ensures
        live_stars(after) <= live_stars(before),
    decreases before.len(),
{
    if before.len() > 0 {
        lemma_live_stars_do_not_grow(before.drop_last(), after.drop_last());
    }
}

/// The state of the simulation as the contracts see it.
pub struct WorldView {
    pub window: Window,
    /// The player, while there is one.
    pub player: Option<Player>,
    /// The star slots; an empty slot is a star that was consumed.
    pub stars: Seq<Option<Star>>,
    pub enemies: Seq<EnemyView>,
}

/// The state of the simulation.
pub struct World {
    window: Window,
    player: Option<Player>,
    stars: Vec<Option<Star>>,
    enemies: Vec<Enemy>,
}

impl View for World {
    type V = WorldView;

    closed spec fn view(&self) -> WorldView {
        WorldView {
            window: self.window,
            player: self.player,
            stars: self.stars@,
            enemies: Seq::new(self.enemies@.len(), |i: int| self.enemies@[i]@),
        }
    }
}

impl World {
    /// A world with the given bounds and nothing in it.
    pub fn new(window: Window) -> (world: World)
        ensures
            world@ == (WorldView {
                window,
                player: None,
                stars: Seq::empty(),
                enemies: Seq::empty(),
            }),
    {
        let world = World { window, player: None, stars: Vec::new(), enemies: Vec::new() };
        assert(world@.enemies =~= Seq::empty());
        assert(world@.stars =~= Seq::empty());
        world
    }

    pub fn window(&self) -> (window: Window)
        ensures
            window == self@.window,
    {
        self.window
    }

    /// The player, while there is one.
    pub fn player(&self) -> (player: Option<Player>)
        ensures
            player == self@.player,
    {
        self.player
    }

    /// Puts the player into its slot, in place of any player that was there.
    pub fn place_player(&mut self, player: Player)
        ensures
            final(self)@ == (WorldView { player: Some(player), ..old(self)@ }),
    {
        self.player = Some(player);
        assert(self@.enemies =~= old(self)@.enemies);
    }

    /// Empties the player's slot.
    pub fn remove_player(&mut self)
        ensures
            final(self)@ == (WorldView { player: None, ..old(self)@ }),
    {
        self.player = None;
        assert(self@.enemies =~= old(self)@.enemies);
    }

    /// The number of star slots, consumed stars included.
    pub fn star_slots(&self) -> (slots: usize)
        ensures
            slots == self@.stars.len(),
    {
        self.stars.len()
    }

    /// The star in a slot; none where the star was consumed or the slot does
    /// not exist.
    pub fn star(&self, index: usize) -> (star: Option<Star>)
        ensures
            star == (if index < self@.stars.len() {
                self@.stars[index as int]
            } else {
                None
            }),
    {
        if index < self.stars.len() {
            self.stars[index]
        } else {
            None
        }
    }

    /// The number of stars that are still there.
    pub fn star_count(&self) -> (count: usize)
        ensures
            count == live_stars(self@.stars),
    {
        let mut count: usize = 0;
        let mut index: usize = 0;
        while index < self.stars.len()
            invariant
                index <= self.stars@.len(),
                count == live_stars(self.stars@.take(index as int)),
                count <= index,
            decreases self.stars@.len() - index,
        {
            assert(self.stars@.take(index + 1).drop_last() =~= self.stars@.take(index as int));
            if self.stars[index].is_some() {
                count = count + 1;
            }
            index = index + 1;
        }
        assert(self.stars@.take(index as int) =~= self.stars@);
        count
    }

    /// Adds a star in a new slot and gives the slot's number.
    pub fn add_star(&mut self, star: Star) -> (index: usize)
        ensures
            index == old(self)@.stars.len(),
            final(self)@ == (WorldView {
                stars: old(self)@.stars.push(Some(star)),
                ..old(self)@
            }),
    {
        let index = self.stars.len();
        self.stars.push(Some(star));
        assert(self@.enemies =~= old(self)@.enemies);
        index
    }

    /// Empties a star's slot. A slot that does not exist is left alone.
    pub fn remove_star(&mut self, index: usize)
        ensures
            index < old(self)@.stars.len() ==> final(self)@ == (WorldView {
                stars: old(self)@.stars.update(index as int, None),
                ..old(self)@
            }),
            index >= old(self)@.stars.len() ==> final(self)@ == old(self)@,
    {
        if index < self.stars.len() {
            self.stars.set(index, None);
        }
        assert(self@.enemies =~= old(self)@.enemies);
    }

    /// The number of enemies.
    pub fn enemy_count(&self) -> (count: usize)
        ensures
            count == self@.enemies.len(),
    {
        self.enemies.len()
    }

    /// The enemy in a slot; none where the slot does not exist.
    pub fn enemy(&self, index: usize) -> (enemy: Option<Enemy>)
        ensures
            index < self@.enemies.len() ==> enemy is Some && enemy->0@ == self@.enemies[index as int],
            index >= self@.enemies.len() ==> enemy is None,
    {
        if index < self.enemies.len() {
            Some(self.enemies[index])
        } else {
            None
        }
    }

    /// Adds an enemy in a new slot and gives the slot's number.
    pub fn add_enemy(&mut self, enemy: Enemy) -> (index: usize)
        ensures
            index == old(self)@.enemies.len(),
            final(self)@ == (WorldView {
                enemies: old(self)@.enemies.push(enemy@),
                ..old(self)@
            }),
    {
        let index = self.enemies.len();
        self.enemies.push(enemy);
        assert(self@.enemies =~= old(self)@.enemies.push(enemy@));
        index
    }

    /// Puts an enemy in place of the one in a slot. A slot that does not exist
    /// is left alone.
    pub fn replace_enemy(&mut self, index: usize, enemy: Enemy)
        ensures
            index < old(self)@.enemies.len() ==> final(self)@ == (WorldView {
                enemies: old(self)@.enemies.update(index as int, enemy@),
                ..old(self)@
            }),
            index >= old(self)@.enemies.len() ==> final(self)@ == old(self)@,
    {
        if index < self.enemies.len() {
            self.enemies.set(index, enemy);
            assert(self@.enemies =~= old(self)@.enemies.update(index as int, enemy@));
        } else {
            assert(self@.enemies =~= old(self)@.enemies);
        }
    }
}

} // verus!
