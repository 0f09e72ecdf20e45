//! A person and the task it is busy with.

use vstd::prelude::*;
use rand::rngs::StdRng;
use std::collections::VecDeque;
use crate::action::{effect_rate, is_known_action, Action};
use crate::action_advertisement::ActionAdvertisement;
use crate::entropy::{fresh_uuid, is_fresh_uuid};
use crate::furniture::Furniture;
use crate::person_ai::PersonAi;
use crate::person_needs::{lemma_levels_stay_in_range, stat_total, Need, PersonNeeds};
use crate::vector::{Vector3, UNIT};
use crate::world::{is_catalog, World, WorldView};

verus! {

/// How long an action is performed, in milliseconds.
pub const TASK_DURATION: u32 = 8_000;

/// The stages of a task.
#[derive(Debug, Clone, Copy, PartialEq, Eq, Structural)]
pub enum TaskState {
    Init,
    Moving,
    Waiting,
    InProgress,
    Done,
}

/// An action in flight.
#[derive(Debug)]
pub struct Task {
    /// Identifier of the task. Both halves of a pair activity carry the
    /// same one.
    pub uuid: u128,
    pub state: TaskState,
    pub action: Action,
    /// Where the action takes place, if anywhere.
    pub target_position: Option<Vector3>,
    /// Remaining time of performance, in milliseconds.
    pub time_left: u32,
}

/// Where the object that an action refers to stands, if it refers to one
/// that exists.
pub open spec fn position_of(furniture: Seq<Furniture>, object: Option<usize>) -> Option<Vector3> {
    match object {
        Some(index) => if index < furniture.len() {
            Some(furniture[index as int].position)
        } else {
            None
        },
        None => None,
    }
}

impl Task {
    /// Whether this is a task as it starts out for `action`.
    pub open spec fn starts(self, action: Action, furniture: Seq<Furniture>) -> bool {
        &&& self.action == action
        &&& self.state == TaskState::Init
        &&& self.time_left == TASK_DURATION
        &&& self.target_position == position_of(furniture, action.object)
        &&& action.master_uuid matches Some(master) ==> self.uuid == master
    }

    /// Starts a task for `action`. The mirrored half of a pair activity
    /// takes over the identifier of the initiator's task; any other task
    /// gets a fresh one.
    pub fn new(action: Action, furniture: &Vec<Furniture>) -> (task: Self)
        ensures
            task.starts(action, furniture@),
            action.master_uuid is None ==> is_fresh_uuid(task.uuid),
    {
        let target_position = match action.object {
            Some(index) => if index < furniture.len() {
                Some(furniture[index].position())
            } else {
                None
            },
            None => None,
        };
        let uuid = match action.master_uuid {
            Some(master) => master,
            None => fresh_uuid(),
        };
        Task { uuid, state: TaskState::Init, action, target_position, time_left: TASK_DURATION }
    }

    pub fn uuid(&self) -> (uuid: u128)
        ensures
            uuid == self.uuid,
    {
        self.uuid
    }

    pub fn action(&self) -> (action: &Action)
        ensures
            *action == self.action,
    {
        &self.action
    }

    pub fn state(&self) -> (state: TaskState)
        ensures
            state == self.state,
    {
        self.state
    }

    pub fn time_left(&self) -> (time_left: u32)
        ensures
            time_left == self.time_left,
    {
        self.time_left
    }
}

/// What the presentation layer should show after a tick.
#[derive(Debug, Clone, Copy, PartialEq, Eq, Structural)]
pub enum Cue {
    /// Nothing new.
    Nothing,
    /// The person has walked and faces the given point.
    LookAt(Vector3),
    /// The person has fallen asleep.
    SleepStarted,
    /// The person and its partner have begun to dance.
    PairStarted,
    /// The task has ended and the next one has been taken up.
    TaskEnded,
}

/// A broken rule of the simulation. The person concerned is left as it was
/// and faults again on its next tick.
#[derive(Debug, Clone, Copy, PartialEq, Eq, Structural)]
pub enum Fault {
    /// The partner has ended the shared task while this person was still
    /// waiting for it to begin.
    PartnerEndedEarly,
    /// The task's action key names nothing that can be performed.
    UnknownAction,
    /// Nobody is registered under the identifier.
    NoSuchPerson,
}

/// The step aside that the second of a pair takes, so that the two do not
/// stand on one spot: one unit to the right.
pub open spec fn side_step() -> Vector3 {
    Vector3 { x: UNIT, y: 0, z: 0 }
}

/// The person that a lookup has found, if it has found one.
pub open spec fn known(found: Option<&Person>) -> Option<Person> {
    match found {
        Some(person) => Some(*person),
        None => None,
    }
}

/// A simulated person.
#[derive(Debug)]
pub struct Person {
    pub uuid: u128,
    pub needs: PersonNeeds,
    pub brain: PersonAi,
    /// Keys of the actions this person is capable of.
    pub possible_actions: Vec<String>,
    pub task: Task,
    /// Actions handed over by partners, to be taken up before any other.
    pub action_queue: VecDeque<Action>,
    pub position: Vector3,
}

impl Person {
    /// This person with its task ended, if the task is `task`.
    pub open spec fn with_task_ended(self, task: u128) -> Person {
        if self.task.uuid == task {
            Person { task: Task { state: TaskState::Done, ..self.task }, ..self }
        } else {
            self
        }
    }

    /// This person after `delta` milliseconds of decay of its needs.
    pub open spec fn aged(self, delta: int) -> Person {
        Person { needs: self.needs.decayed(delta), ..self }
    }

    /// This person with its task in another state.
    pub open spec fn in_state(self, state: TaskState) -> Person {
        Person { task: Task { state, ..self.task }, ..self }
    }

    /// Where this person has to go for its task: to the target, or, for the
    /// second of a pair, one step beside it.
    pub open spec fn destination(self) -> Option<Vector3> {
        match self.task.target_position {
            Some(target) => Some(
                if self.task.action.primary() {
                    target
                } else {
                    target.shifted(side_step())
                },
            ),
            None => None,
        }
    }

    /// This person after a tick of `delta` milliseconds in state `Moving`:
    /// with nowhere to go it waits; close to its destination it steps onto
    /// it and waits; else it walks one thousandth per millisecond.
    pub open spec fn walked(self, delta: int) -> Person {
        match self.destination() {
            None => self.in_state(TaskState::Waiting),
            Some(destination) => if self.position.is_near(destination) {
                Person { position: destination, ..self.in_state(TaskState::Waiting) }
            } else {
                Person { position: self.position.stepped_toward(destination, delta), ..self }
            },
        }
    }

    /// What a tick in state `Moving` shows.
    pub open spec fn walk_cue(self) -> Cue {
        match self.destination() {
            None => Cue::Nothing,
            Some(destination) => if self.position.is_near(destination) {
                Cue::Nothing
            } else {
                Cue::LookAt(destination)
            },
        }
    }

    /// Whether `partner` is busy with its half of this person's task.
    pub open spec fn shares_task(self, partner: Option<Person>) -> bool {
        partner matches Some(other) && other.task.uuid == self.task.uuid
    }

    /// Whether this person, in state `Waiting`, may begin: alone at once,
    /// in a pair when the partner waits or performs its half.
    pub open spec fn may_begin(self, partner: Option<Person>) -> bool {
        self.task.action.partner_uuid is None || (self.shares_task(partner) && (
        partner->0.task.state == TaskState::Waiting || partner->0.task.state
            == TaskState::InProgress))
    }

    /// Whether the partner has ended the shared task while this person
    /// waits.
    pub open spec fn left_alone(self, partner: Option<Person>) -> bool {
        self.task.action.partner_uuid is Some && self.shares_task(partner)
            && partner->0.task.state == TaskState::Done
    }

    /// This person after a tick in state `Waiting`.
    pub open spec fn awaited(self, partner: Option<Person>) -> Person {
        if self.may_begin(partner) {
            self.in_state(TaskState::InProgress)
        } else {
            self
        }
    }

    /// What a tick in state `Waiting` shows.
    pub open spec fn await_outcome(self, partner: Option<Person>) -> Result<Cue, Fault> {
        if self.left_alone(partner) {
            Err(Fault::PartnerEndedEarly)
        } else if !self.may_begin(partner) {
            Ok(Cue::Nothing)
        } else if self.task.action.partner_uuid is None && self.task.action.key@ == "sleep"@ {
            Ok(Cue::SleepStarted)
        } else if self.task.action.partner_uuid is Some && self.task.action.key@
            == "do_the_mario"@ {
            Ok(Cue::PairStarted)
        } else {
            Ok(Cue::Nothing)
        }
    }

    /// Whether this person and its partner are still at the same thing: the
    /// partner's task has the same action key and names this person as its
    /// partner. A person on its own is always in step.
    pub open spec fn in_step(self, partner: Option<Person>) -> bool {
        self.task.action.partner_uuid is None || (partner matches Some(other)
            && other.task.action.key@ == self.task.action.key@ && other.task.action.partner_uuid
            == Some(self.uuid))
    }

    /// Whether a tick in state `InProgress` gets work done.
    pub open spec fn performs(self, partner: Option<Person>) -> bool {
        self.in_step(partner) && is_known_action(self.task.action.key@)
    }

    /// The time left after `delta` milliseconds of work.
    pub open spec fn time_left_after(self, delta: int) -> int {
        if self.task.time_left > delta {
            self.task.time_left - delta
        } else {
            0
        }
    }

    /// This person after a tick of `delta` milliseconds in state
    /// `InProgress`: out of step or with an unknown action nothing happens;
    /// else the action works on the needs at its rates, the time left
    /// shrinks, and the task is done when none is left.
    pub open spec fn performed(self, delta: int, partner: Option<Person>) -> Person {
        if self.performs(partner) {
            Person {
                needs: self.needs.moved(
                    |need: Need| effect_rate(self.task.action.key@, need) * delta,
                ),
                task: Task {
                    time_left: self.time_left_after(delta) as u32,
                    state: if self.time_left_after(delta) == 0 {
                        TaskState::Done
                    } else {
                        self.task.state
                    },
                    ..self.task
                },
                ..self
            }
        } else {
            self
        }
    }

    /// What a tick in state `InProgress` shows.
    pub open spec fn perform_outcome(self, partner: Option<Person>) -> Result<Cue, Fault> {
        if self.in_step(partner) && !is_known_action(self.task.action.key@) {
            Err(Fault::UnknownAction)
        } else {
            Ok(Cue::Nothing)
        }
    }

    /// This person after a tick of `delta` milliseconds in any state but
    /// `Done`, beside a partner as given: its needs decay, then it moves on
    /// in its task.
    pub open spec fn ticked(self, delta: int, partner: Option<Person>) -> Person {
        let aged = self.aged(delta);
        match self.task.state {
            TaskState::Init => aged.in_state(TaskState::Moving),
            TaskState::Moving => aged.walked(delta),
            TaskState::Waiting => aged.awaited(partner),
            TaskState::InProgress => aged.performed(delta, partner),
            TaskState::Done => aged,
        }
    }

    /// What a tick in any state but `Done` shows.
    pub open spec fn tick_outcome(self, partner: Option<Person>) -> Result<Cue, Fault> {
        match self.task.state {
            TaskState::Init => Ok(Cue::Nothing),
            TaskState::Moving => Ok(self.walk_cue()),
            TaskState::Waiting => self.await_outcome(partner),
            TaskState::InProgress => self.perform_outcome(partner),
            TaskState::Done => Ok(Cue::TaskEnded),
        }
    }

    /// The partner of this person's task, as `world` knows it.
    pub open spec fn partner_in(self, world: WorldView) -> Option<Person> {
        match self.task.action.partner_uuid {
            Some(id) => world.person(id),
            None => None,
        }
    }

    /// The world once this person has cleaned up after its task: the
    /// task's object is free again, and the partner's half of the task is
    /// ended too.
    pub open spec fn cleaned_up(self, world: WorldView) -> WorldView {
        let freed = match self.task.action.object {
            Some(object) => world.released(object),
            None => world,
        };
        match self.task.action.partner_uuid {
            Some(partner) => freed.with_task_ended(partner, self.task.uuid),
            None => freed,
        }
    }

    /// Whether `task` is a task this person may take up next in `world`,
    /// leaving `queue` of its queue: the action at the head of the queue if
    /// there is one, else an action that its brain may decide on.
    pub open spec fn may_take_up(self, world: WorldView, task: Task, queue: Seq<Action>) -> bool {
        &&& task.starts(task.action, world.furniture)
        &&& if self.action_queue@.len() > 0 {
            &&& task.action == self.action_queue@[0]
            &&& queue == self.action_queue@.drop_first()
        } else {
            &&& queue == self.action_queue@
            &&& exists|catalog: Seq<ActionAdvertisement>|
                is_catalog(catalog, world.furniture) && #[trigger] self.brain.may_decide(
                    self.needs,
                    catalog,
                    world.furniture,
                    world.people.dom(),
                    self.possible_actions@,
                    task.action,
                )
        }
    }

    /// Whether starting `task` invites a partner: the person initiates it
    /// and it names somebody to do it with.
    pub open spec fn invites(task: Task) -> bool {
        task.action.primary() && task.action.partner_uuid is Some
    }

    /// Whether `next` and `after` are this person and `world` once the
    /// person has taken up its next task. The person keeps its identity,
    /// needs, abilities and place; its brain remembers the new action; a
    /// partner that the task invites finds the mirrored action at the end
    /// of its queue; and the task's object is reserved for the person.
    pub open spec fn taken_up(self, world: WorldView, next: Person, after: WorldView) -> bool {
        let task = next.task;
        let invited = WorldView { people: after.people, furniture: world.furniture };
        &&& next.uuid == self.uuid
        &&& next.needs == self.needs
        &&& next.possible_actions == self.possible_actions
        &&& next.position == self.position
        &&& next.brain.person_uuid == self.brain.person_uuid
        &&& next.brain.last_action == task.action.key
        &&& self.may_take_up(world, task, next.action_queue@)
        &&& if Self::invites(task) {
            world.queued(
                task.action.partner_uuid->0,
                task.action.mirrored(self.uuid, task.uuid),
                invited,
            )
        } else {
            invited == world
        }
        &&& after == match task.action.object {
            Some(object) => invited.reserved(object, self.uuid),
            None => invited,
        }
    }

    /// Whether `next`, `after` and `outcome` are what one tick of `delta`
    /// milliseconds makes of this person and of `world`, and what it shows.
    /// In any state but `Done` the person moves on in its task and the world
    /// stays as it is. In state `Done` the person cleans up and takes up
    /// its next task.
    pub open spec fn processed(
        self,
        delta: int,
        world: WorldView,
        next: Person,
        after: WorldView,
        outcome: Result<Cue, Fault>,
    ) -> bool {
        if self.task.state == TaskState::Done {
            &&& outcome == Ok::<Cue, Fault>(Cue::TaskEnded)
            &&& self.aged(delta).taken_up(self.cleaned_up(world), next, after)
        } else {
            &&& next == self.ticked(delta, self.partner_in(world))
            &&& outcome == self.tick_outcome(self.partner_in(world))
            &&& after == world
        }
    }

    /// Pairing: a person that takes up a task which invites a partner
    /// leaves exactly one action more in the partner's queue, at its end.
    /// That action names the person as partner, is not the initiator's
    /// copy and carries the identifier of the person's task. Nobody else's
    /// queue changes.
    pub proof fn lemma_pairing(self, world: WorldView, next: Person, after: WorldView)
        requires
            self.taken_up(world, next, after),
            Self::invites(next.task),
            world.people.contains_key(next.task.action.partner_uuid->0),
        ensures
            ({
                let partner = next.task.action.partner_uuid->0;
                let mirrored = next.task.action.mirrored(self.uuid, next.task.uuid);
                &&& after.people.contains_key(partner)
                &&& after.people[partner].action_queue@ == world.people[partner].action_queue@.push(
                    mirrored,
                )
                &&& after.people[partner].task == world.people[partner].task
                &&& mirrored.key == next.task.action.key
                &&& mirrored.object == next.task.action.object
                &&& mirrored.partner_uuid == Some(self.uuid)
                &&& !mirrored.primary()
                &&& mirrored.master_uuid == Some(next.task.uuid)
                &&& forall|other: u128|
                    other != partner && world.people.contains_key(other)
                        ==> #[trigger] after.people[other] == world.people[other]
            }),
    {
    }

    /// A person that finds an action in its queue takes it up before any
    /// other, and with the mirrored half of a pair activity it takes over
    /// the identifier of the initiator's task.
    pub proof fn lemma_queue_first(self, world: WorldView, next: Person, after: WorldView)
        requires
            self.taken_up(world, next, after),
            self.action_queue@.len() > 0,
        ensures
            next.task.action == self.action_queue@[0],
            next.action_queue@ == self.action_queue@.drop_first(),
            self.action_queue@[0].master_uuid matches Some(master) ==> next.task.uuid == master,
            next.task.state == TaskState::Init,
    {
    }

    /// A pair ends together: when a person whose task is done cleans up,
    /// the partner's half of the task is done too, whatever the person takes
    /// up next, so that the partner cleans up on its own next tick.
    pub proof fn lemma_pair_ends_together(
        self,
        delta: int,
        world: WorldView,
        next: Person,
        after: WorldView,
        outcome: Result<Cue, Fault>,
    )
        requires
            self.task.state == TaskState::Done,
            self.processed(delta, world, next, after, outcome),
            self.task.action.partner_uuid is Some,
            world.people.contains_key(self.task.action.partner_uuid->0),
            world.people[self.task.action.partner_uuid->0].task.uuid == self.task.uuid,
        ensures
            after.people.contains_key(self.task.action.partner_uuid->0),
            after.people[self.task.action.partner_uuid->0].task.state == TaskState::Done,
    {
        let partner = self.task.action.partner_uuid->0;
        let cleared = self.cleaned_up(world);
        assert(cleared.people.contains_key(partner));
        assert(cleared.people[partner].task.state == TaskState::Done);
    }

    /// Reservation: the object of the task that a person takes up is
    /// reserved for that person, and every other object is as the world had
    /// it before.
    pub proof fn lemma_reserves_target(self, world: WorldView, next: Person, after: WorldView)
        requires
            self.taken_up(world, next, after),
        ensures
            after.furniture.len() == world.furniture.len(),
            forall|index: int|
                0 <= index < world.furniture.len() && next.task.action.object != Some(
                    index as usize,
                ) ==> #[trigger] after.furniture[index] == world.furniture[index],
            next.task.action.object matches Some(object) ==> (object < world.furniture.len()
                ==> after.furniture[object as int].reserved_by == Some(self.uuid)),
    {
    }

    /// Whatever a tick does, the needs are in range after it.
    pub proof fn lemma_needs_in_range(
        self,
        delta: int,
        world: WorldView,
        next: Person,
        after: WorldView,
        outcome: Result<Cue, Fault>,
    )
        requires
            self.processed(delta, world, next, after, outcome),
        ensures
            next.needs.in_range(),
    {
        lemma_levels_stay_in_range(self.needs, |need: Need| -need.decay(delta));
        let aged = self.aged(delta);
        lemma_levels_stay_in_range(
            aged.needs,
            |need: Need| effect_rate(self.task.action.key@, need) * delta,
        );
    }

    /// Whether these are the abilities a person is born with.
    pub open spec fn is_capable(possible_actions: Seq<String>) -> bool {
        &&& possible_actions.len() == 6
        &&& possible_actions[0]@ == "make_food"@
        &&& possible_actions[1]@ == "toilet"@
        &&& possible_actions[2]@ == "sit"@
        &&& possible_actions[3]@ == "sleep"@
        &&& possible_actions[4]@ == "wash_hands"@
        &&& possible_actions[5]@ == "idle"@
    }

    /// A new person with a fresh identifier: every need satisfied, idle,
    /// with nothing queued, at the origin.
    pub fn new() -> (person: Person)
        ensures
            is_fresh_uuid(person.uuid),
            person.brain.person_uuid == person.uuid,
            person.brain.last_action@ == Seq::<char>::empty(),
            person.needs == PersonNeeds::full(),
            Self::is_capable(person.possible_actions@),
            person.task.action.is_idle(),
            person.task.state == TaskState::Init,
            person.task.time_left == TASK_DURATION,
            person.task.target_position is None,
            person.action_queue@ == Seq::<Action>::empty(),
            person.position == (Vector3 { x: 0, y: 0, z: 0 }),
    {
        let uuid = fresh_uuid();
        let mut possible_actions: Vec<String> = Vec::new();
        possible_actions.push("make_food".to_owned());
        possible_actions.push("toilet".to_owned());
        possible_actions.push("sit".to_owned());
        possible_actions.push("sleep".to_owned());
        possible_actions.push("wash_hands".to_owned());
        possible_actions.push("idle".to_owned());
        let nothing: Vec<Furniture> = Vec::new();
        Person {
            uuid,
            needs: PersonNeeds::default(),
            brain: PersonAi::new(uuid),
            possible_actions,
            task: Task::new(Action::idle(), &nothing),
            action_queue: VecDeque::new(),
            position: Vector3::new(0, 0, 0),
        }
    }

    pub fn uuid(&self) -> (uuid: u128)
        ensures
            uuid == self.uuid,
    {
        self.uuid
    }

    pub fn needs(&self) -> (needs: &PersonNeeds)
        ensures
            *needs == self.needs,
    {
        &self.needs
    }

    pub fn needs_mut(&mut self) -> (needs: &mut PersonNeeds)
        ensures
            *needs == old(self).needs,
            *final(self) == (Person { needs: *final(needs), ..*old(self) }),
    {
        &mut self.needs
    }

    pub fn task(&self) -> (task: &Task)
        ensures
            *task == self.task,
    {
        &self.task
    }

    pub fn position(&self) -> (position: Vector3)
        ensures
            position == self.position,
    {
        self.position
    }

    pub fn set_position(&mut self, position: Vector3)
        ensures
            *final(self) == (Person { position, ..*old(self) }),
    {
        self.position = position;
    }

    /// Hands this person an action to take up when it next needs a task.
    pub fn queue_action(&mut self, action: Action)
        ensures
            final(self).action_queue@ == old(self).action_queue@.push(action),
            final(self).uuid == old(self).uuid,
            final(self).needs == old(self).needs,
            final(self).brain == old(self).brain,
            final(self).possible_actions == old(self).possible_actions,
            final(self).task == old(self).task,
            final(self).position == old(self).position,
    {
        self.action_queue.push_back(action);
    }

    /// One tick in state `Moving`.
    pub fn walk(&mut self, delta: u32) -> (cue: Cue)
        ensures
            *final(self) == old(self).walked(delta as int),
            cue == old(self).walk_cue(),
    {
        let Some(target) = self.task.target_position else {
            self.task.state = TaskState::Waiting;
            return Cue::Nothing;
        };
        let destination = if self.task.action.is_primary() {
            target
        } else {
            target.offset_by(Vector3::new(UNIT, 0, 0))
        };
        if self.position.near(destination) {
            self.position = destination;
            self.task.state = TaskState::Waiting;
            return Cue::Nothing;
        }
        self.position = self.position.step_toward(destination, delta);
        Cue::LookAt(destination)
    }

    /// One tick in state `Waiting`, beside `partner` as the registry knows
    /// it.
    pub fn wait(&mut self, partner: Option<&Person>) -> (outcome: Result<Cue, Fault>)
        ensures
            *final(self) == old(self).awaited(known(partner)),
            outcome == old(self).await_outcome(known(partner)),
    {
        match self.task.action.partner_uuid {
            Some(_) => {
                if let Some(other) = partner {
                    if other.task.uuid != self.task.uuid {
                        return Ok(Cue::Nothing);
                    }
                    match other.task.state {
                        TaskState::Init | TaskState::Moving => Ok(Cue::Nothing),
                        TaskState::Waiting | TaskState::InProgress => {
                            self.task.state = TaskState::InProgress;
                            if self.task.action.key.as_str().eq("do_the_mario") {
                                Ok(Cue::PairStarted)
                            } else {
                                Ok(Cue::Nothing)
                            }
                        },
                        TaskState::Done => Err(Fault::PartnerEndedEarly),
                    }
                } else {
                    Ok(Cue::Nothing)
                }
            },
            None => {
                self.task.state = TaskState::InProgress;
                if self.task.action.key.as_str().eq("sleep") {
                    Ok(Cue::SleepStarted)
                } else {
                    Ok(Cue::Nothing)
                }
            },
        }
    }

    /// One tick of `delta` milliseconds in state `InProgress`, beside
    /// `partner` as the registry knows it.
    pub fn perform(&mut self, delta: u32, partner: Option<&Person>) -> (outcome: Result<Cue, Fault>)
        ensures
            *final(self) == old(self).performed(
                delta as int,
                known(partner),
            ),
            outcome == old(self).perform_outcome(known(partner)),
    {
        if self.task.action.partner_uuid.is_some() {
            let Some(other) = partner else {
                return Ok(Cue::Nothing);
            };
            if !(other.task.action.key == self.task.action.key) {
                return Ok(Cue::Nothing);
            }
            if other.task.action.partner_uuid != Some(self.uuid) {
                return Ok(Cue::Nothing);
            }
        }
        let Some(rates) = self.task.action.effects() else {
            return Err(Fault::UnknownAction);
        };
        self.needs.apply(&rates, delta);
        proof {
            let key = self.task.action.key@;
            assert(stat_total(rates@, Need::Bladder) == effect_rate(key, Need::Bladder));
            assert(stat_total(rates@, Need::Comfort) == effect_rate(key, Need::Comfort));
            assert(stat_total(rates@, Need::Environment) == effect_rate(key, Need::Environment));
            assert(stat_total(rates@, Need::Fun) == effect_rate(key, Need::Fun));
            assert(stat_total(rates@, Need::Hunger) == effect_rate(key, Need::Hunger));
            assert(stat_total(rates@, Need::Hygiene) == effect_rate(key, Need::Hygiene));
            assert(stat_total(rates@, Need::Sleep) == effect_rate(key, Need::Sleep));
            assert(stat_total(rates@, Need::Social) == effect_rate(key, Need::Social));
            assert(self.needs == old(self).needs.moved(
                |need: Need| effect_rate(key, need) * delta as int,
            ));
        }
        self.task.time_left = if self.task.time_left > delta {
            self.task.time_left - delta
        } else {
            0
        };
        if self.task.time_left == 0 {
            self.end_task();
        }
        Ok(Cue::Nothing)
    }

    /// Finds the next task: the action at the head of the queue, or else
    /// what the brain decides on. Where the task invites a partner, the
    /// partner gets the mirrored action queued.
    pub fn find_new_task(&mut self, world: &mut World, rng: &mut StdRng) -> (task: Task)
        ensures
            old(self).may_take_up(old(world)@, task, final(self).action_queue@),
            final(self).uuid == old(self).uuid,
            final(self).needs == old(self).needs,
            final(self).brain == old(self).brain,
            final(self).possible_actions == old(self).possible_actions,
            final(self).task == old(self).task,
            final(self).position == old(self).position,
            if Self::invites(task) {
                old(world)@.queued(
                    task.action.partner_uuid->0,
                    task.action.mirrored(old(self).uuid, task.uuid),
                    final(world)@,
                )
            } else {
                final(world)@ == old(world)@
            },
    {
        let action = match self.action_queue.pop_front() {
            Some(action) => action,
            None => {
                let catalog = world.advertisements();
                self.brain.decide_action(
                    &self.needs,
                    &catalog,
                    world.furniture(),
                    world.people(),
                    &self.possible_actions,
                    rng,
                )
            },
        };
        let task = Task::new(action, world.furniture());
        // Send a secondary copy to the partner of a group activity.
        if task.action.is_primary() {
            if let Some(partner) = task.action.partner_uuid {
                let secondary = task.action.mirror(self.uuid, task.uuid);
                world.queue_action(partner, secondary);
            }
        }
        task
    }

    /// Takes up the next task: finds it, remembers its action and reserves
    /// its object.
    pub fn start_new_task(&mut self, world: &mut World, rng: &mut StdRng)
        ensures
            old(self).taken_up(old(world)@, *final(self), final(world)@),
    {
        let ghost before = world@;
        let task = self.find_new_task(world, rng);
        let ghost invited = world@;
        self.brain.last_action = task.action.key.clone();
        if let Some(object) = task.action.object {
            world.reserve(object, self.uuid);
        }
        self.task = task;
        proof {
            assert(invited == (WorldView { people: world@.people, furniture: before.furniture }));
        }
    }

    /// Advances this person by one tick of `delta` milliseconds, in a world
    /// that holds everybody else: the needs decay, then the person moves on
    /// in its task, and when the task is done it cleans up and takes up the
    /// next one.
    pub fn process(&mut self, delta: u32, world: &mut World, rng: &mut StdRng) -> (outcome: Result<
        Cue,
        Fault,
    >)
        ensures
            old(self).processed(
                delta as int,
                old(world)@,
                *final(self),
                final(world)@,
                outcome,
            ),
    {
        self.needs.update(delta);
        match self.task.state {
            TaskState::Init => {
                self.task.state = TaskState::Moving;
                Ok(Cue::Nothing)
            },
            TaskState::Moving => Ok(self.walk(delta)),
            TaskState::Waiting => {
                let partner = match self.task.action.partner_uuid {
                    Some(id) => world.get_person(&id),
                    None => None,
                };
                self.wait(partner)
            },
            TaskState::InProgress => {
                let partner = match self.task.action.partner_uuid {
                    Some(id) => world.get_person(&id),
                    None => None,
                };
                self.perform(delta, partner)
            },
            TaskState::Done => {
                // Clean up the old task.
                if let Some(object) = self.task.action.object {
                    world.unreserve(object);
                }
                if let Some(partner) = self.task.action.partner_uuid {
                    world.end_task_uuid(partner, self.task.uuid);
                }
                self.start_new_task(world, rng);
                Ok(Cue::TaskEnded)
            },
        }
    }

    /// Ends the current task.
    pub fn end_task(&mut self)
        ensures
            *final(self) == (Person {
                task: Task { state: TaskState::Done, ..old(self).task },
                ..*old(self)
            }),
    {
        self.task.state = TaskState::Done;
    }

    /// Ends the current task if it is the task `uuid`.
    pub fn end_task_uuid(&mut self, uuid: u128)
        ensures
            *final(self) == old(self).with_task_ended(uuid),
    {
        if self.task.uuid == uuid {
            self.task.state = TaskState::Done;
        }
    }
}

} // verus!
