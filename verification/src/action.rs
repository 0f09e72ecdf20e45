//! Actions: what a person intends to do, to what and with whom.

use vstd::prelude::*;
use vstd::string::StringExecFns;
use crate::action_advertisement::ActionAdvertisementStat;
use crate::person_needs::{lemma_need_keys, lemma_stat_total_push, need_of_key, stat_total, Need};

verus! {

/// A concrete intent of one person.
#[derive(Debug)]
pub struct Action {
    /// String key of the action.
    pub key: String,
    /// Index, in the world's furniture registry, of the object acted on.
    pub object: Option<usize>,
    /// Pair activity partner.
    pub partner_uuid: Option<u128>,
    /// For the mirrored half of a pair activity, the identifier of the
    /// initiator's task. `None` marks the initiator's own copy.
    pub master_uuid: Option<u128>,
}

impl Clone for Action {
    fn clone(&self) -> (copy: Self)
        ensures
            copy == *self,
    {
        Action {
            key: self.key.clone(),
            object: self.object,
            partner_uuid: self.partner_uuid,
            master_uuid: self.master_uuid,
        }
    }
}

/// The wording shown for an action key.
pub open spec fn present_tense(key: Seq<char>) -> Seq<char> {
    if key == "make_food"@ {
        "Making food"@
    } else if key == "toilet"@ {
        "Toiletting"@
    } else if key == "sit"@ {
        "Sitting"@
    } else if key == "sleep"@ {
        "Sleeping"@
    } else if key == "do_the_mario"@ {
        "Doing the Mario"@
    } else if key == "idle"@ {
        "Idling"@
    } else {
        "Unknown activity: `"@ + key + "`"@
    }
}

/// Whether `key` is the key of an action that can be performed.
pub open spec fn is_known_action(key: Seq<char>) -> bool {
    ||| key == "make_food"@
    ||| key == "toilet"@
    ||| key == "sit"@
    ||| key == "sleep"@
    ||| key == "do_the_mario"@
    ||| key == "wash_hands"@
    ||| key == "idle"@
}

/// The rate, in thousandths per second, at which performing the action `key`
/// changes `need`.
pub open spec fn effect_rate(key: Seq<char>, need: Need) -> int {
    if key == "make_food"@ {
        match need {
            Need::Hunger => 200,
            Need::Bladder => -200,
            _ => 0,
        }
    } else if key == "toilet"@ {
        match need {
            Need::Bladder => 200,
            _ => 0,
        }
    } else if key == "sit"@ {
        match need {
            Need::Comfort => 200,
            _ => 0,
        }
    } else if key == "sleep"@ {
        match need {
            Need::Sleep => 200,
            Need::Comfort => 200,
            _ => 0,
        }
    } else if key == "do_the_mario"@ {
        match need {
            Need::Fun => 200,
            Need::Social => 200,
            Need::Comfort => 200,
            Need::Hygiene => -100,
            _ => 0,
        }
    } else if key == "wash_hands"@ {
        match need {
            Need::Hygiene => 200,
            _ => 0,
        }
    } else {
        0
    }
}

/// Appends the rate `rate` for the need that `key` names.
fn add_effect(effects: &mut Vec<ActionAdvertisementStat>, key: &str, rate: i32)
    ensures
        forall|need: Need|
            #[trigger] stat_total(final(effects)@, need) == stat_total(old(effects)@, need) + (
            if need_of_key(key@) == Some(need) {
                rate as int
            } else {
                0
            }),
{
    let stat = ActionAdvertisementStat { key: key.to_owned(), value: rate };
    proof {
        assert forall|need: Need|
            #[trigger] stat_total(effects@.push(stat), need) == stat_total(effects@, need) + (
            if need_of_key(key@) == Some(need) {
                rate as int
            } else {
                0
            }) by {
            lemma_stat_total_push(effects@, stat, need);
        }
    }
    effects.push(stat);
}

impl Action {
    /// Whether this is the action of doing nothing: the key `idle`, no
    /// object and nobody else involved.
    pub open spec fn is_idle(self) -> bool {
        &&& self.key@ == "idle"@
        &&& self.object is None
        &&& self.partner_uuid is None
        &&& self.master_uuid is None
    }

    /// Whether this is the initiator's copy of the action.
    pub open spec fn primary(&self) -> bool {
        self.master_uuid is None
    }

    /// The copy of this action that the initiator `initiator`, running it as
    /// task `task_uuid`, hands to its partner.
    pub open spec fn mirrored(self, initiator: u128, task_uuid: u128) -> Action {
        Action { partner_uuid: Some(initiator), master_uuid: Some(task_uuid), ..self }
    }

    /// The action of doing nothing.
    pub fn idle() -> (action: Self)
        ensures
            action.is_idle(),
    {
        Action { key: "idle".to_owned(), object: None, partner_uuid: None, master_uuid: None }
    }

    #[verifier::when_used_as_spec(primary)]
    pub fn is_primary(&self) -> (primary: bool)
        ensures
            primary == self.primary(),
    {
        self.master_uuid.is_none()
    }

    /// Builds the copy of this action that is queued onto the partner.
    pub fn mirror(&self, initiator: u128, task_uuid: u128) -> (copy: Action)
        ensures
            copy == self.mirrored(initiator, task_uuid),
    {
        Action {
            key: self.key.clone(),
            object: self.object,
            partner_uuid: Some(initiator),
            master_uuid: Some(task_uuid),
        }
    }

    /// The rates at which performing this action changes the needs, as
    /// stats in thousandths per second; `None` for an action key that names
    /// nothing that can be performed.
    pub fn effects(&self) -> (effects: Option<Vec<ActionAdvertisementStat>>)
        ensures
            effects is Some <==> is_known_action(self.key@),
            effects matches Some(rates) ==> forall|need: Need|
                #[trigger] stat_total(rates@, need) == effect_rate(self.key@, need),
    {
        proof {
            lemma_need_keys();
        }
        let key = self.key.as_str();
        let mut rates: Vec<ActionAdvertisementStat> = Vec::new();
        assert(forall|need: Need| #[trigger] stat_total(rates@, need) == 0);
        if key.eq("make_food") {
            add_effect(&mut rates, "hunger", 200);
            add_effect(&mut rates, "bladder", -200);
        } else if key.eq("toilet") {
            add_effect(&mut rates, "bladder", 200);
        } else if key.eq("sit") {
            add_effect(&mut rates, "comfort", 200);
        } else if key.eq("sleep") {
            add_effect(&mut rates, "sleep", 200);
            add_effect(&mut rates, "comfort", 200);
        } else if key.eq("do_the_mario") {
            add_effect(&mut rates, "fun", 200);
            add_effect(&mut rates, "social", 200);
            add_effect(&mut rates, "comfort", 200);
            add_effect(&mut rates, "hygiene", -100);
        } else if key.eq("wash_hands") {
            add_effect(&mut rates, "hygiene", 200);
        } else if key.eq("idle") {
        } else {
            return None;
        }
        Some(rates)
    }

    /// The action in words, for display.
    pub fn to_present_tense(&self) -> (text: String)
        ensures
            text@ == present_tense(self.key@),
    {
        let key = self.key.as_str();
        if key.eq("make_food") {
            "Making food".to_owned()
        } else if key.eq("toilet") {
            "Toiletting".to_owned()
        } else if key.eq("sit") {
            "Sitting".to_owned()
        } else if key.eq("sleep") {
            "Sleeping".to_owned()
        } else if key.eq("do_the_mario") {
            "Doing the Mario".to_owned()
        } else if key.eq("idle") {
            "Idling".to_owned()
        } else {
            String::from_str("Unknown activity: `").concat(key).concat("`")
        }
    }
}

} // verus!
