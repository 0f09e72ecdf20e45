use person_sim::action_advertisement::ActionAdvertisementStat;
use person_sim::person_needs::{clamp_to_level, sum_stats, Need, PersonNeeds, NEED_DECAY_RATE, NEED_MAX};
use person_sim::time::TimeScale;

fn stat(key: &str, value: i32) -> ActionAdvertisementStat {
    ActionAdvertisementStat { key: key.to_string(), value }
}

fn all_needs() -> Vec<Need> {
    vec![
        Need::Bladder,
        Need::Comfort,
        Need::Environment,
        Need::Fun,
        Need::Hunger,
        Need::Hygiene,
        Need::Sleep,
        Need::Social,
    ]
}

fn assert_in_range(needs: &PersonNeeds) {
    for need in all_needs() {
        assert!(needs.get(need) <= NEED_MAX);
    }
}

#[test]
fn default_needs_are_full() {
    let needs = PersonNeeds::default();
    for need in all_needs() {
        assert_eq!(needs.get(need), 1_000_000);
    }
}

#[test]
fn ten_seconds_of_decay() {
    let mut needs = PersonNeeds::default();
    needs.update(10_000);
    assert_eq!(needs.bladder(), 900_000);
    assert_eq!(needs.comfort(), 900_000);
    assert_eq!(needs.fun(), 900_000);
    assert_eq!(needs.hunger(), 900_000);
    assert_eq!(needs.hygiene(), 900_000);
    assert_eq!(needs.sleep(), 900_000);
    assert_eq!(needs.social(), 900_000);
    assert_eq!(needs.environment(), 1_000_000);
}

#[test]
fn decay_rate_is_one_hundredth_per_second() {
    assert_eq!(NEED_DECAY_RATE, 10);
    let mut needs = PersonNeeds::default();
    needs.update(1);
    assert_eq!(needs.hunger(), 999_990);
    needs.update(0);
    assert_eq!(needs.hunger(), 999_990);
}

#[test]
fn decay_stops_at_zero() {
    let mut needs = PersonNeeds::default();
    needs.update(100_000);
    assert_eq!(needs.hunger(), 0);
    assert_eq!(needs.environment(), 1_000_000);
    needs.update(u32::MAX);
    assert_eq!(needs.hunger(), 0);
    assert_eq!(needs.social(), 0);
    assert_eq!(needs.environment(), 1_000_000);
}

#[test]
fn update_brings_wild_levels_into_range() {
    let mut needs = PersonNeeds::default();
    needs.environment = u32::MAX;
    needs.sleep = 3_000_000;
    needs.update(0);
    assert_eq!(needs.environment(), 1_000_000);
    assert_eq!(needs.sleep(), 1_000_000);
    assert_in_range(&needs);
}

#[test]
fn needs_stay_in_range_under_any_sequence() {
    let mut needs = PersonNeeds::default();
    let effect = vec![
        stat("hunger", i32::MAX),
        stat("sleep", i32::MIN),
        stat("fun", 200),
        stat("bladder", -200),
        stat("nonsense", 5),
    ];
    let deltas: [u32; 8] = [0, 1, 16, 1000, 7, u32::MAX, 333, 100_000];
    for (round, delta) in deltas.iter().enumerate() {
        if round % 2 == 0 {
            needs.update(*delta);
        } else {
            needs.apply(&effect, *delta);
        }
        assert_in_range(&needs);
    }
    needs.apply(&effect, u32::MAX);
    assert_in_range(&needs);
    assert_eq!(needs.hunger(), 1_000_000);
    assert_eq!(needs.sleep(), 0);
}

#[test]
fn apply_adds_rate_times_time() {
    let mut needs = PersonNeeds::default();
    needs.set_sleep(100_000);
    needs.set_comfort(0);
    needs.apply(&vec![stat("sleep", 200), stat("comfort", 200)], 1000);
    assert_eq!(needs.sleep(), 300_000);
    assert_eq!(needs.comfort(), 200_000);
    assert_eq!(needs.hunger(), 1_000_000);
}

#[test]
fn apply_negative_rate_depletes() {
    let mut needs = PersonNeeds::default();
    needs.apply(&vec![stat("hygiene", -100)], 2500);
    assert_eq!(needs.hygiene(), 750_000);
    needs.apply(&vec![stat("hygiene", -100)], 10_000);
    assert_eq!(needs.hygiene(), 0);
}

#[test]
fn apply_ignores_unknown_keys() {
    let mut needs = PersonNeeds::default();
    needs.set_fun(500_000);
    needs.apply(&vec![stat("karma", 200), stat("Fun", 200), stat("", 200)], 1000);
    assert_eq!(needs.fun(), 500_000);
    for need in all_needs() {
        if need != Need::Fun {
            assert_eq!(needs.get(need), 1_000_000);
        }
    }
}

#[test]
fn apply_sums_before_it_clamps() {
    let mut needs = PersonNeeds::default();
    needs.set_social(500_000);
    // +2.0 and -1.8 over one second: +0.2 in all.
    needs.apply(&vec![stat("social", 2000), stat("social", -1800)], 1000);
    assert_eq!(needs.social(), 700_000);
}

#[test]
fn apply_with_zero_magnitude_or_empty_effect_changes_nothing() {
    let mut needs = PersonNeeds::default();
    needs.set_hunger(400_000);
    needs.apply(&vec![stat("hunger", 0)], 5000);
    assert_eq!(needs.hunger(), 400_000);
    needs.apply(&Vec::new(), 5000);
    assert_eq!(needs.hunger(), 400_000);
}

#[test]
fn setters_clamp_on_write() {
    let mut needs = PersonNeeds::default();
    needs.set_bladder(-5);
    assert_eq!(needs.bladder(), 0);
    needs.set_comfort(2_000_000);
    assert_eq!(needs.comfort(), 1_000_000);
    needs.set_environment(123_456);
    assert_eq!(needs.environment(), 123_456);
    needs.set_fun(i64::MIN);
    assert_eq!(needs.fun(), 0);
    needs.set_hunger(i64::MAX);
    assert_eq!(needs.hunger(), 1_000_000);
    needs.set_hygiene(1_000_000);
    assert_eq!(needs.hygiene(), 1_000_000);
    needs.set_sleep(0);
    assert_eq!(needs.sleep(), 0);
    needs.set_social(999_999);
    assert_eq!(needs.social(), 999_999);
}

#[test]
fn getters_read_their_own_need() {
    let needs = PersonNeeds {
        bladder: 1,
        comfort: 2,
        environment: 3,
        fun: 4,
        hunger: 5,
        hygiene: 6,
        sleep: 7,
        social: 8,
    };
    assert_eq!(needs.bladder(), 1);
    assert_eq!(needs.comfort(), 2);
    assert_eq!(needs.environment(), 3);
    assert_eq!(needs.fun(), 4);
    assert_eq!(needs.hunger(), 5);
    assert_eq!(needs.hygiene(), 6);
    assert_eq!(needs.sleep(), 7);
    assert_eq!(needs.social(), 8);
    assert_eq!(needs.get(Need::Bladder), 1);
    assert_eq!(needs.get(Need::Social), 8);
}

#[test]
fn need_keys_parse() {
    assert_eq!(Need::from_key("bladder"), Some(Need::Bladder));
    assert_eq!(Need::from_key("comfort"), Some(Need::Comfort));
    assert_eq!(Need::from_key("environment"), Some(Need::Environment));
    assert_eq!(Need::from_key("fun"), Some(Need::Fun));
    assert_eq!(Need::from_key("hunger"), Some(Need::Hunger));
    assert_eq!(Need::from_key("hygiene"), Some(Need::Hygiene));
    assert_eq!(Need::from_key("sleep"), Some(Need::Sleep));
    assert_eq!(Need::from_key("social"), Some(Need::Social));
    assert_eq!(Need::from_key("bladde"), None);
    assert_eq!(Need::from_key("Sleep"), None);
    assert_eq!(Need::from_key(""), None);
}

#[test]
fn clamp_to_level_clamps_both_ways() {
    assert_eq!(clamp_to_level(-1), 0);
    assert_eq!(clamp_to_level(0), 0);
    assert_eq!(clamp_to_level(1_000_000), 1_000_000);
    assert_eq!(clamp_to_level(1_000_001), 1_000_000);
    assert_eq!(clamp_to_level(i128::MAX), 1_000_000);
    assert_eq!(clamp_to_level(i128::MIN), 0);
    assert_eq!(clamp_to_level(42), 42);
}

#[test]
fn sum_stats_adds_per_need() {
    let stats = vec![stat("fun", 3), stat("sleep", 10), stat("fun", -7), stat("what", 100)];
    assert_eq!(sum_stats(&stats, Need::Fun), -4);
    assert_eq!(sum_stats(&stats, Need::Sleep), 10);
    assert_eq!(sum_stats(&stats, Need::Hunger), 0);
    assert_eq!(sum_stats(&Vec::new(), Need::Hunger), 0);
}

#[test]
fn time_scales() {
    assert_eq!(TimeScale::Regular.to_engine_time(), 1);
    assert_eq!(TimeScale::Fast.to_engine_time(), 5);
    assert_eq!(TimeScale::Superfast.to_engine_time(), 10);
}
