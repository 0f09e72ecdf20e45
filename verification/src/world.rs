//! The registry of people and objects.

use vstd::prelude::*;
use rand::rngs::StdRng;
use std::collections::HashMap;
use crate::action::Action;
use crate::action_advertisement::ActionAdvertisement;
use crate::furniture::Furniture;
use crate::person::{Cue, Fault, Person};

verus! {

/// The people and the objects of a lot.
pub struct World {
    people: HashMap<u128, Person>,
    furniture: Vec<Furniture>,
}

/// What a world holds: its people by identifier, and its objects in the
/// order in which they were added.
pub struct WorldView {
    pub people: Map<u128, Person>,
    pub furniture: Seq<Furniture>,
}

impl View for World {
    type V = WorldView;

    closed spec fn view(&self) -> WorldView {
        WorldView { people: self.people@, furniture: self.furniture@ }
    }
}

/// Whether two advertisements offer the same: the same action with the same
/// stats for the same number of people.
pub open spec fn offers_same(a: ActionAdvertisement, b: ActionAdvertisement) -> bool {
    &&& a.action_key == b.action_key
    &&& a.stats@ == b.stats@
    &&& a.required_people == b.required_people
}

/// Whether `list` is the catalog of `furniture`: what the objects offer, object
/// by object in the order of the registry, each entry naming the index of
/// the object it comes from as its source.
pub open spec fn is_catalog(list: Seq<ActionAdvertisement>, furniture: Seq<Furniture>) -> bool
    decreases furniture.len(),
{
    if furniture.len() == 0 {
        list.len() == 0
    } else {
        let offered = furniture.last().actions@;
        let split = list.len() - offered.len();
        &&& split >= 0
        &&& is_catalog(list.take(split), furniture.drop_last())
        &&& forall|k: int|
            0 <= k < offered.len() ==> (#[trigger] list[split + k]).source_node == furniture.len()
                - 1 && offers_same(list[split + k], offered[k])
    }
}

impl WorldView {
    /// Whether every person is registered under its own identifier.
    pub open spec fn wf(self) -> bool {
        forall|id: u128| self.people.contains_key(id) ==> (#[trigger] self.people[id]).uuid == id
    }

    /// The person registered as `id`, if any.
    pub open spec fn person(self, id: u128) -> Option<Person> {
        if self.people.contains_key(id) {
            Some(self.people[id])
        } else {
            None
        }
    }

    /// This world without the person registered as `id`.
    pub open spec fn without(self, id: u128) -> WorldView {
        WorldView { people: self.people.remove(id), ..self }
    }

    /// This world with object `object` reserved by `by`. An index that names
    /// no object changes nothing.
    pub open spec fn reserved(self, object: usize, by: u128) -> WorldView {
        if object < self.furniture.len() {
            WorldView {
                furniture: self.furniture.update(
                    object as int,
                    Furniture { reserved_by: Some(by), ..self.furniture[object as int] },
                ),
                ..self
            }
        } else {
            self
        }
    }

    /// This world with object `object` free.
    pub open spec fn released(self, object: usize) -> WorldView {
        if object < self.furniture.len() {
            WorldView {
                furniture: self.furniture.update(
                    object as int,
                    Furniture { reserved_by: None, ..self.furniture[object as int] },
                ),
                ..self
            }
        } else {
            self
        }
    }

    /// This world with the task of person `id` ended, if that person is
    /// registered and its task is `task`.
    pub open spec fn with_task_ended(self, id: u128, task: u128) -> WorldView {
        if self.people.contains_key(id) {
            WorldView { people: self.people.insert(id, self.people[id].with_task_ended(task)), ..self }
        } else {
            self
        }
    }

    /// Whether `after` is this world with `action` added to the end of the
    /// queue of person `id`, and nothing else changed. Where nobody is
    /// registered as `id`, nothing at all has changed.
    pub open spec fn queued(self, id: u128, action: Action, after: WorldView) -> bool {
        if self.people.contains_key(id) {
            let before = self.people[id];
            &&& after.furniture == self.furniture
            &&& after.people.dom() == self.people.dom()
            &&& forall|other: u128|
                other != id && self.people.contains_key(other) ==> #[trigger] after.people[other]
                    == self.people[other]
            &&& after.people[id].action_queue@ == before.action_queue@.push(action)
            &&& after.people[id].uuid == before.uuid
            &&& after.people[id].needs == before.needs
            &&& after.people[id].brain == before.brain
            &&& after.people[id].possible_actions == before.possible_actions
            &&& after.people[id].task == before.task
            &&& after.people[id].position == before.position
        } else {
            after == self
        }
    }
}

impl World {
    /// An empty world.
    pub fn new() -> (world: World)
        ensures
            world@.people == Map::<u128, Person>::empty(),
            world@.furniture == Seq::<Furniture>::empty(),
            world@.wf(),
    {
        World { people: HashMap::new(), furniture: Vec::new() }
    }

    /// Looks a person up by identifier.
    pub fn get_person(&self, uuid: &u128) -> (person: Option<&Person>)
        ensures
            match person {
                Some(found) => self@.person(*uuid) == Some(*found),
                None => self@.person(*uuid) is None,
            },
    {
        broadcast use vstd::std_specs::hash::group_hash_axioms;


        self.people.get(uuid)
    }

    /// All registered people.
    pub fn people(&self) -> (people: &HashMap<u128, Person>)
        ensures
            people@ == self@.people,
    {
        &self.people
    }

    /// All objects, in the order in which they were added.
    pub fn furniture(&self) -> (furniture: &Vec<Furniture>)
        ensures
            furniture@ == self@.furniture,
    {
        &self.furniture
    }

    /// The catalog of everything the objects of this world advertise.
    pub fn advertisements(&self) -> (catalog: Vec<ActionAdvertisement>)
        ensures
            is_catalog(catalog@, self@.furniture),
    {
        let mut catalog: Vec<ActionAdvertisement> = Vec::new();
        let mut i: usize = 0;
        assert(self.furniture@.take(0).len() == 0);
        while i < self.furniture.len()
            invariant
                i <= self.furniture.len(),
                is_catalog(catalog@, self.furniture@.take(i as int)),
            decreases self.furniture.len() - i,
        {
            let offered = &self.furniture[i].actions;
            let ghost base = catalog@;
            let mut j: usize = 0;
            while j < offered.len()
                invariant
                    j <= offered.len(),
                    i < self.furniture.len(),
                    *offered == self.furniture@[i as int].actions,
                    catalog@.len() == base.len() + j,
                    catalog@.take(base.len() as int) == base,
                    forall|k: int|
                        0 <= k < j ==> (#[trigger] catalog@[base.len() + k]).source_node == i
                            && offers_same(catalog@[base.len() + k], offered@[k]),
                decreases offered.len() - j,
            {
                let mut advert = offered[j].clone();
                advert.source_node = i;
                let ghost before = catalog@;
                catalog.push(advert);
                assert(catalog@.take(base.len() as int) == before.take(base.len() as int));
                assert forall|k: int| 0 <= k < j + 1 implies (#[trigger] catalog@[base.len()
                    + k]).source_node == i && offers_same(catalog@[base.len() + k], offered@[k]) by {
                    if k < j {
                        assert(catalog@[base.len() + k] == before[base.len() + k]);
                    }
                }
                j += 1;
            }
            proof {
                let upto = self.furniture@.take(i + 1);
                assert(upto.drop_last() == self.furniture@.take(i as int));
                assert(upto.last() == self.furniture@[i as int]);
            }
            i += 1;
        }
        assert(self.furniture@.take(self.furniture.len() as int) == self.furniture@);
        catalog
    }

    /// Registers a person under its identifier, in place of whoever was
    /// registered under it before.
    pub fn add_person(&mut self, person: Person)
        ensures
            final(self)@ == (WorldView {
                people: old(self)@.people.insert(person.uuid, person),
                ..old(self)@
            }),
            old(self)@.wf() ==> final(self)@.wf(),
    {
        broadcast use vstd::std_specs::hash::group_hash_axioms;

        self.people.insert(person.uuid, person);
    }

    /// Adds an object and returns the index that names it from now on.
    pub fn add_furniture(&mut self, furniture: Furniture) -> (index: usize)
        ensures
            index == old(self)@.furniture.len(),
            final(self)@ == (WorldView {
                furniture: old(self)@.furniture.push(furniture),
                ..old(self)@
            }),
    {
        let index = self.furniture.len();
        self.furniture.push(furniture);
        index
    }

    /// Reserves an object for a person.
    pub fn reserve(&mut self, object: usize, person: u128)
        ensures
            final(self)@ == old(self)@.reserved(object, person),
    {
        if object < self.furniture.len() {
            self.furniture[object].reserve(person);
        }
    }

    /// Frees an object.
    pub fn unreserve(&mut self, object: usize)
        ensures
            final(self)@ == old(self)@.released(object),
    {
        if object < self.furniture.len() {
            self.furniture[object].unreserve();
        }
    }

    /// Ends the task of a person, if it is the task `task`.
    pub fn end_task_uuid(&mut self, person: u128, task: u128)
        ensures
            final(self)@ == old(self)@.with_task_ended(person, task),
            old(self)@.wf() ==> final(self)@.wf(),
    {
        broadcast use vstd::std_specs::hash::group_hash_axioms;

        match self.people.remove(&person) {
            Some(mut found) => {
                found.end_task_uuid(task);
                self.people.insert(person, found);
                assert(self.people@ =~= old(self).people@.insert(
                    person,
                    old(self).people@[person].with_task_ended(task),
                ));
            },
            None => {
                assert(self.people@ == old(self).people@);
            },
        }
    }

    /// Advances the person registered as `id` by one tick of `delta`
    /// milliseconds, in the world of everybody else.
    pub fn process_person(&mut self, id: u128, delta: u32, rng: &mut StdRng) -> (outcome: Result<
        Cue,
        Fault,
    >)
        ensures
            match old(self)@.person(id) {
                Some(person) => {
                    &&& final(self)@.people.contains_key(id)
                    &&& person.processed(
                        delta as int,
                        old(self)@.without(id),
                        final(self)@.people[id],
                        final(self)@.without(id),
                        outcome,
                    )
                },
                None => outcome == Err::<Cue, Fault>(Fault::NoSuchPerson) && final(self)@ == old(
                    self,
                )@,
            },
            old(self)@.wf() ==> final(self)@.wf(),
    {
        broadcast use vstd::std_specs::hash::group_hash_axioms;

        match self.people.remove(&id) {
            Some(mut person) => {
                let ghost rest = self@;
                assert(rest == old(self)@.without(id));
                let outcome = person.process(delta, self, rng);
                let ghost after = self@;
                assert(!after.people.contains_key(id) && (rest.wf() ==> after.wf())) by {
                    if old(self)@.people[id].task.state == crate::person::TaskState::Done {
                        let cleared = old(self)@.people[id].cleaned_up(rest);
                        assert(cleared.people.dom() =~= rest.people.dom());
                        assert(rest.wf() ==> cleared.wf());
                    }
                }
                self.people.insert(id, person);
                assert(self@.without(id).people =~= after.people);
                outcome
            },
            None => {
                assert(self.people@ == old(self).people@);
                Err(Fault::NoSuchPerson)
            },
        }
    }

    /// Hands a person an action to take up when it next needs a task.
    pub fn queue_action(&mut self, person: u128, action: Action)
        ensures
            old(self)@.queued(person, action, final(self)@),
            old(self)@.wf() ==> final(self)@.wf(),
    {
        broadcast use vstd::std_specs::hash::group_hash_axioms;

        match self.people.remove(&person) {
            Some(mut found) => {
                found.queue_action(action);
                self.people.insert(person, found);
                assert(self.people@.dom() == old(self).people@.dom());
            },
            None => {
                assert(self.people@ == old(self).people@);
            },
        }
    }
}

} // verus!
