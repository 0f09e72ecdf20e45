use person_sim::action::Action;
use person_sim::action_advertisement::{ActionAdvertisement, ActionAdvertisementStat};
use person_sim::furniture::Furniture;
use person_sim::person::{Cue, Fault, Person, TaskState};
use person_sim::vector::Vector3;
use person_sim::world::World;
use rand::rngs::StdRng;
use rand::SeedableRng;

fn stat(key: &str, value: i32) -> ActionAdvertisementStat {
    ActionAdvertisementStat { key: key.to_string(), value }
}

fn advert(key: &str, stats: Vec<ActionAdvertisementStat>, people: usize) -> ActionAdvertisement {
    ActionAdvertisement { source_node: 99, action_key: key.to_string(), stats, required_people: people }
}

fn person(id: u128) -> Person {
    let mut person = Person::new();
    person.uuid = id;
    person.brain.person_uuid = id;
    person
}

#[test]
fn empty_world() {
    let world = World::new();
    assert!(world.people().is_empty());
    assert!(world.furniture().is_empty());
    assert!(world.advertisements().is_empty());
    assert!(world.get_person(&1).is_none());
}

#[test]
fn people_are_registered_by_identifier() {
    let mut world = World::new();
    world.add_person(person(1));
    world.add_person(person(2));
    assert_eq!(world.people().len(), 2);
    assert_eq!(world.get_person(&1).unwrap().uuid(), 1);
    assert_eq!(world.get_person(&2).unwrap().uuid(), 2);
    assert!(world.get_person(&3).is_none());
    let mut again = person(1);
    again.set_position(Vector3::new(1, 1, 1));
    world.add_person(again);
    assert_eq!(world.people().len(), 2);
    assert_eq!(world.get_person(&1).unwrap().position(), Vector3::new(1, 1, 1));
}

#[test]
fn catalog_names_each_source_by_its_index() {
    let mut world = World::new();
    let stove = world.add_furniture(Furniture::new(
        Vector3::new(0, 0, 0),
        vec![advert("make_food", vec![stat("hunger", 10), stat("bladder", -2)], 1)],
    ));
    let lamp = world.add_furniture(Furniture::new(Vector3::new(1, 0, 0), Vec::new()));
    let floor = world.add_furniture(Furniture::new(
        Vector3::new(2, 0, 0),
        vec![
            advert("sleep", vec![stat("sleep", 10)], 1),
            advert("do_the_mario", vec![stat("social", 4), stat("fun", 4)], 2),
        ],
    ));
    assert_eq!((stove, lamp, floor), (0, 1, 2));
    let catalog = world.advertisements();
    assert_eq!(catalog.len(), 3);
    assert_eq!(catalog[0].source_node, 0);
    assert_eq!(catalog[0].action_key, "make_food");
    assert_eq!(catalog[0].stats.len(), 2);
    assert_eq!(catalog[0].stats[1].key, "bladder");
    assert_eq!(catalog[0].stats[1].value, -2);
    assert_eq!(catalog[0].required_people, 1);
    assert_eq!(catalog[1].source_node, 2);
    assert_eq!(catalog[1].action_key, "sleep");
    assert_eq!(catalog[2].source_node, 2);
    assert_eq!(catalog[2].action_key, "do_the_mario");
    assert_eq!(catalog[2].required_people, 2);
    assert_eq!(catalog[2].stats[0].key, "social");
}

#[test]
fn reservation_is_a_single_owner() {
    let mut world = World::new();
    let chair = world.add_furniture(Furniture::new(Vector3::new(0, 0, 0), Vec::new()));
    assert!(!world.furniture()[chair].is_reserved());
    world.reserve(chair, 1);
    assert!(world.furniture()[chair].is_reserved());
    assert_eq!(world.furniture()[chair].reserved_by, Some(1));
    world.reserve(chair, 2);
    assert_eq!(world.furniture()[chair].reserved_by, Some(2));
    world.unreserve(chair);
    assert!(!world.furniture()[chair].is_reserved());
    world.reserve(5, 1);
    world.unreserve(5);
    assert_eq!(world.furniture().len(), 1);
}

#[test]
fn furniture_offers_its_actions() {
    let mut chair = Furniture::new(
        Vector3::new(1, 2, 3),
        vec![advert("sit", vec![stat("comfort", 3)], 1)],
    );
    assert_eq!(chair.position(), Vector3::new(1, 2, 3));
    assert_eq!(chair.available_actions().len(), 1);
    chair.available_actions_mut().push(advert("sleep", Vec::new(), 1));
    assert_eq!(chair.available_actions().len(), 2);
    assert_eq!(chair.available_actions()[1].action_key, "sleep");
    let copy = chair.available_actions()[0].clone();
    assert_eq!(copy.action_key, "sit");
    assert_eq!(copy.source_node, 99);
    assert_eq!(copy.stats[0].value, 3);
    assert_eq!(copy.stats[0].clone().key, "comfort");
}

#[test]
fn queue_action_reaches_the_named_person_only() {
    let mut world = World::new();
    world.add_person(person(1));
    world.add_person(person(2));
    world.queue_action(2, Action::idle());
    world.queue_action(3, Action::idle());
    assert_eq!(world.get_person(&1).unwrap().action_queue.len(), 0);
    assert_eq!(world.get_person(&2).unwrap().action_queue.len(), 1);
    assert_eq!(world.people().len(), 2);
}

#[test]
fn end_task_uuid_needs_the_right_task() {
    let mut world = World::new();
    let mut one = person(1);
    one.task.uuid = 10;
    world.add_person(one);
    world.end_task_uuid(1, 11);
    assert_eq!(world.get_person(&1).unwrap().task().state(), TaskState::Init);
    world.end_task_uuid(2, 10);
    assert_eq!(world.get_person(&1).unwrap().task().state(), TaskState::Init);
    world.end_task_uuid(1, 10);
    assert_eq!(world.get_person(&1).unwrap().task().state(), TaskState::Done);
}

#[test]
fn processing_nobody_is_a_fault() {
    let mut world = World::new();
    world.add_person(person(1));
    let mut rng = StdRng::seed_from_u64(1);
    assert_eq!(world.process_person(2, 16, &mut rng), Err(Fault::NoSuchPerson));
    assert_eq!(world.people().len(), 1);
    assert_eq!(world.get_person(&1).unwrap().task().state(), TaskState::Init);
}

#[test]
fn idle_person_runs_through_all_states() {
    let mut world = World::new();
    world.add_person(person(1));
    let mut rng = StdRng::seed_from_u64(1);
    let state = |world: &World| world.get_person(&1).unwrap().task().state();
    assert_eq!(world.process_person(1, 1000, &mut rng), Ok(Cue::Nothing));
    assert_eq!(state(&world), TaskState::Moving);
    assert_eq!(world.process_person(1, 1000, &mut rng), Ok(Cue::Nothing));
    assert_eq!(state(&world), TaskState::Waiting);
    assert_eq!(world.process_person(1, 1000, &mut rng), Ok(Cue::Nothing));
    assert_eq!(state(&world), TaskState::InProgress);
    for _ in 0..7 {
        assert_eq!(world.process_person(1, 1000, &mut rng), Ok(Cue::Nothing));
        assert_eq!(state(&world), TaskState::InProgress);
    }
    assert_eq!(world.process_person(1, 1000, &mut rng), Ok(Cue::Nothing));
    assert_eq!(state(&world), TaskState::Done);
    assert_eq!(world.process_person(1, 1000, &mut rng), Ok(Cue::TaskEnded));
    assert_eq!(state(&world), TaskState::Init);
    assert_eq!(world.get_person(&1).unwrap().needs().hunger(), 880_000);
    assert_eq!(world.get_person(&1).unwrap().uuid(), 1);
}

fn dance_floor() -> (World, usize) {
    let mut world = World::new();
    let floor = world.add_furniture(Furniture::new(
        Vector3::new(0, 0, 0),
        vec![advert("do_the_mario", vec![stat("social", 4), stat("fun", 4)], 2)],
    ));
    let mut a = person(1);
    a.possible_actions.push("do_the_mario".to_string());
    a.task.state = TaskState::Done;
    world.add_person(a);
    world.add_person(person(2));
    (world, floor)
}

#[test]
fn initiator_queues_one_mirrored_action_onto_the_partner() {
    let (mut world, floor) = dance_floor();
    let mut rng = StdRng::seed_from_u64(5);
    assert_eq!(world.process_person(1, 16, &mut rng), Ok(Cue::TaskEnded));
    let a = world.get_person(&1).unwrap();
    assert_eq!(a.task().action().key, "do_the_mario");
    assert_eq!(a.task().action().partner_uuid, Some(2));
    assert!(a.task().action().is_primary());
    assert_eq!(a.task().action().object, Some(floor));
    assert!(a.action_queue.is_empty());
    let shared = a.task().uuid();
    let b = world.get_person(&2).unwrap();
    assert_eq!(b.action_queue.len(), 1);
    let mirrored = &b.action_queue[0];
    assert_eq!(mirrored.key, "do_the_mario");
    assert_eq!(mirrored.object, Some(floor));
    assert_eq!(mirrored.partner_uuid, Some(1));
    assert_eq!(mirrored.master_uuid, Some(shared));
    assert!(!mirrored.is_primary());
    assert_eq!(b.task().action().key, "idle");
    assert_eq!(world.furniture()[floor].reserved_by, Some(1));
}

#[test]
fn a_pair_begins_together_and_ends_together() {
    let (mut world, floor) = dance_floor();
    let mut rng = StdRng::seed_from_u64(5);
    world.process_person(1, 1000, &mut rng).unwrap();
    let shared = world.get_person(&1).unwrap().task().uuid();
    let both_dancing = |world: &World| {
        let a = world.get_person(&1).unwrap();
        let b = world.get_person(&2).unwrap();
        a.task().state() == TaskState::InProgress
            && b.task().state() == TaskState::InProgress
            && b.task().action().key == "do_the_mario"
    };
    let mut hearts = 0;
    let mut ticks = 0;
    while !both_dancing(&world) {
        for id in [1u128, 2] {
            if world.process_person(id, 1000, &mut rng) == Ok(Cue::PairStarted) {
                hearts += 1;
            }
        }
        ticks += 1;
        assert!(ticks < 40);
        // The initiator never begins before the partner has taken up its half.
        let a = world.get_person(&1).unwrap();
        let b = world.get_person(&2).unwrap();
        if a.task().state() == TaskState::InProgress {
            assert_eq!(b.task().uuid(), shared);
        }
    }
    assert_eq!(hearts, 2);
    let b = world.get_person(&2).unwrap();
    assert_eq!(b.task().uuid(), shared);
    assert_eq!(b.task().action().partner_uuid, Some(1));
    assert!(!b.task().action().is_primary());
    assert_eq!(b.position(), Vector3::new(1000, 0, 0));
    assert_eq!(world.get_person(&1).unwrap().position(), Vector3::new(0, 0, 0));
    assert_eq!(world.furniture()[floor].reserved_by, Some(2));

    // Both make progress while they are in step.
    let hygiene_before = world.get_person(&2).unwrap().needs().hygiene();
    let time_before = world.get_person(&2).unwrap().task().time_left();
    world.process_person(1, 1000, &mut rng).unwrap();
    world.process_person(2, 1000, &mut rng).unwrap();
    let b = world.get_person(&2).unwrap();
    assert_eq!(b.needs().hygiene(), hygiene_before - 10_000 - 100_000);
    assert_eq!(b.needs().fun(), 1_000_000);
    assert_eq!(b.task().time_left(), time_before - 1000);

    // Ending the initiator's task ends the partner's half on the same tick.
    world.end_task_uuid(1, shared);
    assert_eq!(world.get_person(&2).unwrap().task().state(), TaskState::InProgress);
    assert_eq!(world.process_person(1, 1000, &mut rng), Ok(Cue::TaskEnded));
    assert_eq!(world.get_person(&2).unwrap().task().state(), TaskState::Done);
    assert_eq!(world.get_person(&1).unwrap().task().state(), TaskState::Init);
    assert_eq!(world.process_person(2, 1000, &mut rng), Ok(Cue::TaskEnded));
    assert_eq!(world.get_person(&2).unwrap().task().state(), TaskState::Init);
}
