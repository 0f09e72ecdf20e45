//! World objects that advertise actions and can be reserved.

use vstd::prelude::*;
use crate::action_advertisement::ActionAdvertisement;
use crate::vector::Vector3;

verus! {

/// A world object. At most one person holds it reserved at a time.
#[derive(Debug)]
pub struct Furniture {
    /// The actions this object offers.
    pub actions: Vec<ActionAdvertisement>,
    /// The person that holds the object reserved, if any.
    pub reserved_by: Option<u128>,
    /// Where the object stands.
    pub position: Vector3,
}

impl Furniture {
    /// Whether somebody holds this object reserved.
    pub open spec fn reserved(&self) -> bool {
        self.reserved_by is Some
    }

    #[verifier::when_used_as_spec(reserved)]
    pub fn is_reserved(&self) -> (reserved: bool)
        ensures
            reserved == self.reserved(),
    {
        self.reserved_by.is_some()
    }

    /// A new, unreserved object at `position` offering `actions`.
    pub fn new(position: Vector3, actions: Vec<ActionAdvertisement>) -> (furniture: Self)
        ensures
            furniture == (Furniture { actions, reserved_by: None, position }),
    {
        Furniture { actions, reserved_by: None, position }
    }

    /// List of actions that a person can perform on this object.
    pub fn available_actions(&self) -> (actions: &Vec<ActionAdvertisement>)
        ensures
            *actions == self.actions,
    {
        &self.actions
    }

    pub fn available_actions_mut(&mut self) -> (actions: &mut Vec<ActionAdvertisement>)
        ensures
            *actions == old(self).actions,
            *final(self) == (Furniture { actions: *final(actions), ..*old(self) }),
    {
        &mut self.actions
    }

    /// Where the object stands.
    pub fn position(&self) -> (position: Vector3)
        ensures
            position == self.position,
    {
        self.position
    }

    /// Hands the object to `person`, whoever held it before.
    pub fn reserve(&mut self, person: u128)
        ensures
            *final(self) == (Furniture { reserved_by: Some(person), ..*old(self) }),
    {
        self.reserved_by = Some(person)
    }

    /// Frees the object.
    pub fn unreserve(&mut self)
        ensures
            *final(self) == (Furniture { reserved_by: None, ..*old(self) }),
    {
        self.reserved_by = None
    }
}

} // verus!
