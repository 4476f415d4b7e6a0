//! A roster of people and what they carry, and the rule that picks the people
//! whose inventory is reported.

use vstd::prelude::*;

verus! {

/// Someone on the roster.
pub struct Person {
    /// Hit points; a person with none left is dead.
    pub hp: u8,
    pub name: String,
}

/// What a person carries.
pub struct Inventory {
    /// The number of items.
    pub count: u32,
}

impl Person {
    pub open spec fn spec_is_alive(&self) -> bool {
        self.hp > 0
    }

    /// Whether the person has hit points left.
    #[verifier::when_used_as_spec(spec_is_alive)]
    pub fn is_alive(&self) -> (alive: bool)
        ensures
            alive == self.spec_is_alive(),
    {
        self.hp > 0
    }
}

/// The places on the roster of the people who are alive, in order.
pub open spec fn living(roster: Seq<(Person, Inventory)>) -> Seq<usize>
    decreases roster.len(),
{
    if roster.len() == 0 {
        Seq::empty()
    } else {
        living(roster.drop_last()) + (if roster.last().0.is_alive() {
            seq![(roster.len() - 1) as usize]
        } else {
            Seq::empty()
        })
    }
}

/// Computes [`living`]: the places of the people whose inventory is reported.
pub fn living_places(roster: &Vec<(Person, Inventory)>) -> (places: Vec<usize>)
    ensures
        places@ == living(roster@),
{
    let mut places: Vec<usize> = Vec::new();
    let mut index: usize = 0;
    assert(roster@.take(0) =~= Seq::empty());
    while index < roster.len()
        invariant
            index <= roster@.len(),
            places@ == living(roster@.take(index as int)),
        decreases roster@.len() - index,
    {
        proof {
            assert(roster@.take(index + 1).drop_last() =~= roster@.take(index as int));
            assert(roster@.take(index + 1).last() == roster@[index as int]);
        }
        if roster[index].0.is_alive() {
            places.push(index);
        }
        assert(places@ =~= living(roster@.take(index + 1)));
        index = index + 1;
    }
    assert(roster@.take(index as int) =~= roster@);
    places
}

} // verus!
