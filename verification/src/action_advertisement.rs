//! Advertisements: what a world object offers to the people around it.

use vstd::prelude::*;

verus! {

/// One promise of an advertisement: a need key and a signed magnitude.
///
/// A positive magnitude raises the named need, a negative one depletes it and
/// zero has no effect. The same pair describes the effect of a running
/// action, where the magnitude is a rate in thousandths per second.
#[derive(Debug)]
pub struct ActionAdvertisementStat {
    /// String key of the need this entry speaks of.
    pub key: String,
    /// Higher means more desirable; may be negative for discouragement.
    pub value: i32,
}

impl Clone for ActionAdvertisementStat {
    fn clone(&self) -> (copy: Self)
        ensures
            copy == *self,
    {
        ActionAdvertisementStat { key: self.key.clone(), value: self.value }
    }
}

/// Describes an action a person can perform on a world object.
#[derive(Debug)]
pub struct ActionAdvertisement {
    /// Index, in the world's furniture registry, of the object that offers
    /// the action.
    pub source_node: usize,
    /// String key of the action.
    pub action_key: String,
    /// The needs this action appeals to.
    pub stats: Vec<ActionAdvertisementStat>,
    /// How many people take part.
    pub required_people: usize,
}

/// Copies a list of stats element by element.
pub fn clone_stats(stats: &Vec<ActionAdvertisementStat>) -> (copy: Vec<ActionAdvertisementStat>)
    ensures
        copy@ == stats@,
{
    let mut copy: Vec<ActionAdvertisementStat> = Vec::new();
    let mut i: usize = 0;
    while i < stats.len()
        invariant
            i <= stats.len(),
            copy@ == stats@.take(i as int),
        decreases stats.len() - i,
    {
        copy.push(stats[i].clone());
        assert(stats@.take(i + 1) == stats@.take(i as int).push(stats@[i as int]));
        i += 1;
    }
    assert(stats@.take(stats.len() as int) == stats@);
    copy
}

impl Clone for ActionAdvertisement {
    fn clone(&self) -> (copy: Self)
        ensures
            copy.source_node == self.source_node,
            copy.action_key == self.action_key,
            copy.stats@ == self.stats@,
            copy.required_people == self.required_people,
    {
        ActionAdvertisement {
            source_node: self.source_node,
            action_key: self.action_key.clone(),
            stats: clone_stats(&self.stats),
            required_people: self.required_people,
        }
    }
}

} // verus!
