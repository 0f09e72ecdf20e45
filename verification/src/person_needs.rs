//! The needs of a person and how they change over time.

use vstd::prelude::*;
use crate::action_advertisement::ActionAdvertisementStat;

verus! {

/// The level of a fully satisfied need, in millionths.
pub const NEED_MAX: u32 = 1_000_000;

/// What every need but `environment` loses per millisecond, in millionths:
/// one hundredth of the full range per second.
pub const NEED_DECAY_RATE: u32 = 10;

/// The eight needs of a person.
#[derive(Debug, Clone, Copy, PartialEq, Eq, Structural)]
pub enum Need {
    Bladder,
    Comfort,
    Environment,
    Fun,
    Hunger,
    Hygiene,
    Sleep,
    Social,
}

/// The need that a string key names, if it names one.
pub open spec fn need_of_key(key: Seq<char>) -> Option<Need> {
    if key == "bladder"@ {
        Some(Need::Bladder)
    } else if key == "comfort"@ {
        Some(Need::Comfort)
    } else if key == "environment"@ {
        Some(Need::Environment)
    } else if key == "fun"@ {
        Some(Need::Fun)
    } else if key == "hunger"@ {
        Some(Need::Hunger)
    } else if key == "hygiene"@ {
        Some(Need::Hygiene)
    } else if key == "sleep"@ {
        Some(Need::Sleep)
    } else if key == "social"@ {
        Some(Need::Social)
    } else {
        None
    }
}

/// Each of the eight need keys names its own need.
pub proof fn lemma_need_keys()
    ensures
        need_of_key("bladder"@) == Some(Need::Bladder),
        need_of_key("comfort"@) == Some(Need::Comfort),
        need_of_key("environment"@) == Some(Need::Environment),
        need_of_key("fun"@) == Some(Need::Fun),
        need_of_key("hunger"@) == Some(Need::Hunger),
        need_of_key("hygiene"@) == Some(Need::Hygiene),
        need_of_key("sleep"@) == Some(Need::Sleep),
        need_of_key("social"@) == Some(Need::Social),
{
    reveal_strlit("bladder");
    reveal_strlit("comfort");
    reveal_strlit("environment");
    reveal_strlit("fun");
    reveal_strlit("hunger");
    reveal_strlit("hygiene");
    reveal_strlit("sleep");
    reveal_strlit("social");
    assert("bladder"@.len() == 7 && "comfort"@.len() == 7 && "environment"@.len() == 11);
    assert("fun"@.len() == 3 && "hunger"@.len() == 6 && "hygiene"@.len() == 7);
    assert("sleep"@.len() == 5 && "social"@.len() == 6);
    assert("bladder"@[0] != "comfort"@[0]);
    assert("bladder"@[0] != "hygiene"@[0]);
    assert("comfort"@[0] != "hygiene"@[0]);
    assert("hunger"@[0] != "social"@[0]);
}

/// A value brought into the range of a need level.
pub open spec fn clamp_level(value: int) -> int {
    if value < 0 {
        0
    } else if value > NEED_MAX {
        NEED_MAX as int
    } else {
        value
    }
}

/// What one stat contributes to `need`: its magnitude if its key names that
/// need, nothing otherwise.
pub open spec fn stat_amount(stat: ActionAdvertisementStat, need: Need) -> int {
    if need_of_key(stat.key@) == Some(need) {
        stat.value as int
    } else {
        0
    }
}

/// The sum of the magnitudes that `stats` holds for `need`.
pub open spec fn stat_total(stats: Seq<ActionAdvertisementStat>, need: Need) -> int
    decreases stats.len(),
{
    if stats.len() == 0 {
        0
    } else {
        stat_total(stats.drop_last(), need) + stat_amount(stats.last(), need)
    }
}

impl Need {
    /// What this need loses in `delta` milliseconds without any action:
    /// [`NEED_DECAY_RATE`] per millisecond, but `environment` nothing.
    pub open spec fn decay(self, delta: int) -> int {
        if self == Need::Environment {
            0
        } else {
            NEED_DECAY_RATE * delta
        }
    }

    /// Parses a need key; unknown keys give `None`.
    pub fn from_key(key: &str) -> (need: Option<Need>)
        ensures
            need == need_of_key(key@),
    {
        if key.eq("bladder") {
            Some(Need::Bladder)
        } else if key.eq("comfort") {
            Some(Need::Comfort)
        } else if key.eq("environment") {
            Some(Need::Environment)
        } else if key.eq("fun") {
            Some(Need::Fun)
        } else if key.eq("hunger") {
            Some(Need::Hunger)
        } else if key.eq("hygiene") {
            Some(Need::Hygiene)
        } else if key.eq("sleep") {
            Some(Need::Sleep)
        } else if key.eq("social") {
            Some(Need::Social)
        } else {
            None
        }
    }
}

/// Need levels of one person, each in millionths of the full range.
#[derive(Debug)]
pub struct PersonNeeds {
    pub bladder: u32,
    pub comfort: u32,
    pub environment: u32,
    pub fun: u32,
    pub hunger: u32,
    pub hygiene: u32,
    pub sleep: u32,
    pub social: u32,
}

/// Clamps a wide value into the range of a need level.
pub fn clamp_to_level(value: i128) -> (level: u32)
    ensures
        level == clamp_level(value as int),
        level <= NEED_MAX,
{
    if value < 0 {
        0
    } else if value > NEED_MAX as i128 {
        NEED_MAX
    } else {
        value as u32
    }
}

/// Sums the magnitudes that `stats` holds for `need`.
pub fn sum_stats(stats: &Vec<ActionAdvertisementStat>, need: Need) -> (total: i128)
    ensures
        total == stat_total(stats@, need),
        -0x8000_0000 * 0xffff_ffff_ffff_ffff <= total <= 0x7fff_ffff * 0xffff_ffff_ffff_ffff,
{
    let mut total: i128 = 0;
    let mut i: usize = 0;
    while i < stats.len()
        invariant
            i <= stats.len(),
            total == stat_total(stats@.take(i as int), need),
            -0x8000_0000 * i <= total <= 0x7fff_ffff * i,
        decreases stats.len() - i,
    {
        assert(stats@.take(i + 1).drop_last() == stats@.take(i as int));
        if Need::from_key(stats[i].key.as_str()) == Some(need) {
            total = total + stats[i].value as i128;
        }
        i += 1;
    }
    assert(stats@.take(stats.len() as int) == stats@);
    total
}

/// Appending a stat adds what it contributes.
pub proof fn lemma_stat_total_push(
    stats: Seq<ActionAdvertisementStat>,
    stat: ActionAdvertisementStat,
    need: Need,
)
    ensures
        stat_total(stats.push(stat), need) == stat_total(stats, need) + stat_amount(stat, need),
{
    assert(stats.push(stat).drop_last() == stats);
}

/// However the needs are shifted, every level stays between zero and
/// [`NEED_MAX`]. Decay and the effect of an action are such shifts, so the
/// levels are in range after every update and every application of an
/// effect, whatever the time passed and whatever the levels were before.
pub proof fn lemma_levels_stay_in_range(needs: PersonNeeds, shift: spec_fn(Need) -> int)
    ensures
        needs.moved(shift).in_range(),
        forall|need: Need| 0 <= #[trigger] needs.moved(shift).level(need) <= NEED_MAX,
{
}

impl Default for PersonNeeds {
    /// Every need starts out fully satisfied.
    fn default() -> (needs: Self)
        ensures
            needs == PersonNeeds::full(),
    {
        PersonNeeds {
            bladder: NEED_MAX,
            comfort: NEED_MAX,
            environment: NEED_MAX,
            fun: NEED_MAX,
            hunger: NEED_MAX,
            hygiene: NEED_MAX,
            sleep: NEED_MAX,
            social: NEED_MAX,
        }
    }
}

impl PersonNeeds {
    /// The needs of somebody who wants for nothing.
    pub open spec fn full() -> PersonNeeds {
        PersonNeeds {
            bladder: NEED_MAX,
            comfort: NEED_MAX,
            environment: NEED_MAX,
            fun: NEED_MAX,
            hunger: NEED_MAX,
            hygiene: NEED_MAX,
            sleep: NEED_MAX,
            social: NEED_MAX,
        }
    }

    /// The level of one need.
    pub open spec fn level(self, need: Need) -> int {
        match need {
            Need::Bladder => self.bladder as int,
            Need::Comfort => self.comfort as int,
            Need::Environment => self.environment as int,
            Need::Fun => self.fun as int,
            Need::Hunger => self.hunger as int,
            Need::Hygiene => self.hygiene as int,
            Need::Sleep => self.sleep as int,
            Need::Social => self.social as int,
        }
    }

    /// Every level lies between zero and [`NEED_MAX`].
    pub open spec fn in_range(self) -> bool {
        &&& self.bladder <= NEED_MAX
        &&& self.comfort <= NEED_MAX
        &&& self.environment <= NEED_MAX
        &&& self.fun <= NEED_MAX
        &&& self.hunger <= NEED_MAX
        &&& self.hygiene <= NEED_MAX
        &&& self.sleep <= NEED_MAX
        &&& self.social <= NEED_MAX
    }

    /// The levels after each need has changed by its shift, in millionths,
    /// and has then been clamped.
    pub open spec fn moved(self, shift: spec_fn(Need) -> int) -> PersonNeeds {
        PersonNeeds {
            bladder: clamp_level(self.bladder + shift(Need::Bladder)) as u32,
            comfort: clamp_level(self.comfort + shift(Need::Comfort)) as u32,
            environment: clamp_level(self.environment + shift(Need::Environment)) as u32,
            fun: clamp_level(self.fun + shift(Need::Fun)) as u32,
            hunger: clamp_level(self.hunger + shift(Need::Hunger)) as u32,
            hygiene: clamp_level(self.hygiene + shift(Need::Hygiene)) as u32,
            sleep: clamp_level(self.sleep + shift(Need::Sleep)) as u32,
            social: clamp_level(self.social + shift(Need::Social)) as u32,
        }
    }

    /// The levels after `delta` milliseconds without any action.
    pub open spec fn decayed(self, delta: int) -> PersonNeeds {
        self.moved(|need: Need| -need.decay(delta))
    }

    /// The levels after the rates in `effect` have acted for `delta`
    /// milliseconds: each need moves by the sum of its rates times `delta`
    /// and is then clamped.
    pub open spec fn affected(self, effect: Seq<ActionAdvertisementStat>, delta: int) -> PersonNeeds {
        self.moved(|need: Need| stat_total(effect, need) * delta)
    }

    /// Reads the level of `need`.
    pub fn get(&self, need: Need) -> (level: u32)
        ensures
            level == self.level(need),
    {
        match need {
            Need::Bladder => self.bladder,
            Need::Comfort => self.comfort,
            Need::Environment => self.environment,
            Need::Fun => self.fun,
            Need::Hunger => self.hunger,
            Need::Hygiene => self.hygiene,
            Need::Sleep => self.sleep,
            Need::Social => self.social,
        }
    }

    pub fn bladder(&self) -> (level: u32)
        ensures
            level == self.bladder,
    {
        self.bladder
    }

    pub fn comfort(&self) -> (level: u32)
        ensures
            level == self.comfort,
    {
        self.comfort
    }

    pub fn environment(&self) -> (level: u32)
        ensures
            level == self.environment,
    {
        self.environment
    }

    pub fn fun(&self) -> (level: u32)
        ensures
            level == self.fun,
    {
        self.fun
    }

    pub fn hunger(&self) -> (level: u32)
        ensures
            level == self.hunger,
    {
        self.hunger
    }

    pub fn hygiene(&self) -> (level: u32)
        ensures
            level == self.hygiene,
    {
        self.hygiene
    }

    pub fn sleep(&self) -> (level: u32)
        ensures
            level == self.sleep,
    {
        self.sleep
    }

    pub fn social(&self) -> (level: u32)
        ensures
            level == self.social,
    {
        self.social
    }

    pub fn set_bladder(&mut self, value: i64)
        ensures
            *final(self) == (PersonNeeds { bladder: clamp_level(value as int) as u32, ..*old(self) }),
            old(self).in_range() ==> final(self).in_range(),
    {
        self.bladder = clamp_to_level(value as i128);
    }

    pub fn set_comfort(&mut self, value: i64)
        ensures
            *final(self) == (PersonNeeds { comfort: clamp_level(value as int) as u32, ..*old(self) }),
            old(self).in_range() ==> final(self).in_range(),
    {
        self.comfort = clamp_to_level(value as i128);
    }

    pub fn set_environment(&mut self, value: i64)
        ensures
            *final(self) == (PersonNeeds {
                environment: clamp_level(value as int) as u32,
                ..*old(self)
            }),
            old(self).in_range() ==> final(self).in_range(),
    {
        self.environment = clamp_to_level(value as i128);
    }

    pub fn set_fun(&mut self, value: i64)
        ensures
            *final(self) == (PersonNeeds { fun: clamp_level(value as int) as u32, ..*old(self) }),
            old(self).in_range() ==> final(self).in_range(),
    {
        self.fun = clamp_to_level(value as i128);
    }

    pub fn set_hunger(&mut self, value: i64)
        ensures
            *final(self) == (PersonNeeds { hunger: clamp_level(value as int) as u32, ..*old(self) }),
            old(self).in_range() ==> final(self).in_range(),
    {
        self.hunger = clamp_to_level(value as i128);
    }

    pub fn set_hygiene(&mut self, value: i64)
        ensures
            *final(self) == (PersonNeeds { hygiene: clamp_level(value as int) as u32, ..*old(self) }),
            old(self).in_range() ==> final(self).in_range(),
    {
        self.hygiene = clamp_to_level(value as i128);
    }

    pub fn set_sleep(&mut self, value: i64)
        ensures
            *final(self) == (PersonNeeds { sleep: clamp_level(value as int) as u32, ..*old(self) }),
            old(self).in_range() ==> final(self).in_range(),
    {
        self.sleep = clamp_to_level(value as i128);
    }

    pub fn set_social(&mut self, value: i64)
        ensures
            *final(self) == (PersonNeeds { social: clamp_level(value as int) as u32, ..*old(self) }),
            old(self).in_range() ==> final(self).in_range(),
    {
        self.social = clamp_to_level(value as i128);
    }

    /// Lets `delta` milliseconds pass: every need but `environment` loses
    /// [`NEED_DECAY_RATE`] per millisecond, and every level is clamped.
    pub fn update(&mut self, delta: u32)
        ensures
            *final(self) == old(self).decayed(delta as int),
            final(self).in_range(),
    {
        let loss: i128 = NEED_DECAY_RATE as i128 * delta as i128;
        self.bladder = clamp_to_level(self.bladder as i128 - loss);
        self.comfort = clamp_to_level(self.comfort as i128 - loss);
        self.environment = clamp_to_level(self.environment as i128);
        self.fun = clamp_to_level(self.fun as i128 - loss);
        self.hunger = clamp_to_level(self.hunger as i128 - loss);
        self.hygiene = clamp_to_level(self.hygiene as i128 - loss);
        self.sleep = clamp_to_level(self.sleep as i128 - loss);
        self.social = clamp_to_level(self.social as i128 - loss);
    }

    /// Lets the rates in `effect` act for `delta` milliseconds. A stat whose
    /// key names no need is ignored.
    pub fn apply(&mut self, effect: &Vec<ActionAdvertisementStat>, delta: u32)
        ensures
            *final(self) == old(self).affected(effect@, delta as int),
            final(self).in_range(),
    {
        self.bladder = shifted(self.bladder, sum_stats(effect, Need::Bladder), delta);
        self.comfort = shifted(self.comfort, sum_stats(effect, Need::Comfort), delta);
        self.environment = shifted(self.environment, sum_stats(effect, Need::Environment), delta);
        self.fun = shifted(self.fun, sum_stats(effect, Need::Fun), delta);
        self.hunger = shifted(self.hunger, sum_stats(effect, Need::Hunger), delta);
        self.hygiene = shifted(self.hygiene, sum_stats(effect, Need::Hygiene), delta);
        self.sleep = shifted(self.sleep, sum_stats(effect, Need::Sleep), delta);
        self.social = shifted(self.social, sum_stats(effect, Need::Social), delta);
    }
}

/// One level moved by `rate * delta` and clamped.
fn shifted(level: u32, rate: i128, delta: u32) -> (moved: u32)
    requires
        -0x8000_0000 * 0xffff_ffff_ffff_ffff <= rate <= 0x7fff_ffff * 0xffff_ffff_ffff_ffff,
    ensures
        moved == clamp_level(level + rate * delta),
        moved <= NEED_MAX,
{
    assert(-0x8000_0000 * 0xffff_ffff_ffff_ffff * 0xffff_ffff <= rate * delta
        <= 0x7fff_ffff * 0xffff_ffff_ffff_ffff * 0xffff_ffff) by (nonlinear_arith)
        requires
            -0x8000_0000 * 0xffff_ffff_ffff_ffff <= rate <= 0x7fff_ffff * 0xffff_ffff_ffff_ffff,
            0 <= delta <= 0xffff_ffff,
    ;
    clamp_to_level(level as i128 + rate * delta as i128)
}

} // verus!
