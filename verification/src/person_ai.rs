//! The decision engine: scores the advertised actions against a person's
//! needs and picks the next one.

use vstd::prelude::*;
use vstd::multiset::Multiset;
use vstd::std_specs::iter::IteratorSpec;
use std::collections::HashMap;
use rand::rngs::StdRng;
use crate::action::Action;
use crate::action_advertisement::{ActionAdvertisement, ActionAdvertisementStat};
use crate::entropy::draw_upto;
use crate::furniture::Furniture;
use crate::person::Person;
use crate::person_needs::{need_of_key, Need, PersonNeeds};
use crate::text::{contains_key, lists_key};
use crate::vector::{div_toward_zero, divide_toward_zero};

verus! {

/// What a magnitude of one is worth, in thousandths, over a need level of one
/// millionth.
pub const SCORE_SCALE: i128 = 1_000_000_000;

/// What repeating the last action costs, in thousandths.
pub const REPEAT_PENALTY: i128 = 100_000;

/// The level a score divides by: a level of zero counts as the smallest
/// positive level.
pub open spec fn guarded_level(level: int) -> int {
    if level == 0 {
        1
    } else {
        level
    }
}

/// What one stat adds to a score: its magnitude over the current level of
/// the need it names, in thousandths, rounded toward zero. A stat that names
/// no need adds nothing.
pub open spec fn stat_score(stat: ActionAdvertisementStat, needs: PersonNeeds) -> int {
    match need_of_key(stat.key@) {
        Some(need) => div_toward_zero(
            stat.value * SCORE_SCALE,
            guarded_level(needs.level(need)),
        ),
        None => 0,
    }
}

/// The sum of what the stats add to a score.
pub open spec fn needs_score(stats: Seq<ActionAdvertisementStat>, needs: PersonNeeds) -> int
    decreases stats.len(),
{
    if stats.len() == 0 {
        0
    } else {
        needs_score(stats.drop_last(), needs) + stat_score(stats.last(), needs)
    }
}

/// An action proposed to a person, with its desirability.
#[derive(Debug)]
pub struct ScoredAction {
    pub action: Action,
    /// Desirability in thousandths.
    pub score: i128,
    /// Position of the advertisement in the catalog it was taken from.
    pub advert: usize,
}

/// Whether `a` ranks strictly below `b`: by score, and between equal scores
/// by position in the catalog.
pub open spec fn ranks_below(a: ScoredAction, b: ScoredAction) -> bool {
    a.score < b.score || (a.score == b.score && a.advert < b.advert)
}

/// Whether no entry ranks below an earlier one.
pub open spec fn is_ordered(list: Seq<ScoredAction>) -> bool {
    forall|k: int, l: int| 0 <= k < l < list.len() ==> !ranks_below(#[trigger] list[l], #[trigger] list[k])
}

/// Whether the key of `list[k]` occurs again later in the list.
pub open spec fn key_recurs(list: Seq<ScoredAction>, k: int) -> bool {
    exists|l: int| k < l < list.len() && (#[trigger] list[l]).action.key@ == list[k].action.key@
}

/// The list without every entry whose key occurs again later: of each key
/// the last entry stays, in its place.
pub open spec fn last_per_key(list: Seq<ScoredAction>) -> Seq<ScoredAction>
    decreases list.len(),
{
    if list.len() == 0 {
        list
    } else if key_recurs(list, 0) {
        last_per_key(list.drop_first())
    } else {
        seq![list[0]] + last_per_key(list.drop_first())
    }
}

/// How far below the best entry the lottery may reach among `count`
/// entries: it draws among the best three, or among all if there are fewer.
pub open spec fn lottery_reach(count: int) -> int {
    if count <= 1 {
        0
    } else if count == 2 {
        1
    } else {
        2
    }
}

/// Whether an advertisement can be taken up: its action is one the person is
/// capable of, its source object exists and is not reserved, and a partner is
/// at hand if it takes two.
pub open spec fn eligible(
    advert: ActionAdvertisement,
    furniture: Seq<Furniture>,
    possible_actions: Seq<String>,
    company: Option<u128>,
) -> bool {
    &&& lists_key(possible_actions, advert.action_key@)
    &&& advert.source_node < furniture.len()
    &&& !furniture[advert.source_node as int].reserved()
    &&& advert.required_people == 2 ==> company is Some
}

/// The action that taking up an advertisement amounts to.
pub open spec fn proposal(advert: ActionAdvertisement, company: Option<u128>) -> Action {
    Action {
        key: advert.action_key,
        object: Some(advert.source_node),
        partner_uuid: if advert.required_people == 2 {
            company
        } else {
            None
        },
        master_uuid: None,
    }
}

/// Inserting an element into a sequence adds it to the multiset of its
/// elements.
pub proof fn lemma_insert_to_multiset(list: Seq<ScoredAction>, at: int, entry: ScoredAction)
    requires
        0 <= at <= list.len(),
    ensures
        list.insert(at, entry).to_multiset() == list.to_multiset().insert(entry),
{
    broadcast use vstd::seq_lib::group_to_multiset_ensures;

    let longer = list.insert(at, entry);
    assert(longer.remove(at) == list);
    assert(longer[at] == entry);
    assert(longer.contains(entry));
    assert(longer.to_multiset().count(entry) > 0);
    assert(longer.to_multiset() =~= list.to_multiset().insert(entry));
}

/// Sorts the entries ascending by score; between equal scores the one taken
/// from the earlier advertisement comes first. The entries themselves are
/// kept, each as often as it occurred.
pub fn sort_by_score(actions: &mut Vec<ScoredAction>)
    ensures
        is_ordered(final(actions)@),
        final(actions)@.to_multiset() == old(actions)@.to_multiset(),
{
    broadcast use vstd::seq_lib::group_to_multiset_ensures;

    let mut sorted: Vec<ScoredAction> = Vec::new();
    while actions.len() > 0
        invariant
            is_ordered(sorted@),
            sorted@.to_multiset().add(actions@.to_multiset()) == old(actions)@.to_multiset(),
        decreases actions.len(),
    {
        let ghost before = actions@;
        let entry = actions.pop().unwrap();
        assert(before == actions@.push(entry));
        let mut at: usize = 0;
        while at < sorted.len() && !(entry.score < sorted[at].score || (entry.score
            == sorted[at].score && entry.advert < sorted[at].advert))
            invariant
                at <= sorted.len(),
                forall|k: int| 0 <= k < at ==> !ranks_below(entry, #[trigger] sorted@[k]),
            decreases sorted.len() - at,
        {
            at += 1;
        }
        proof {
            lemma_insert_to_multiset(sorted@, at as int, entry);
            let longer = sorted@.insert(at as int, entry);
            assert forall|k: int, l: int| 0 <= k < l < longer.len() implies !ranks_below(
                #[trigger] longer[l],
                #[trigger] longer[k],
            ) by {
                if l < at {
                    assert(longer[l] == sorted@[l] && longer[k] == sorted@[k]);
                } else if l == at {
                    assert(longer[k] == sorted@[k]);
                } else if k < at {
                    assert(longer[l] == sorted@[l - 1] && longer[k] == sorted@[k]);
                } else if k == at {
                    assert(longer[l] == sorted@[l - 1]);
                    assert(!ranks_below(sorted@[l - 1], sorted@[at as int]) || l - 1 == at);
                } else {
                    assert(longer[l] == sorted@[l - 1] && longer[k] == sorted@[k - 1]);
                }
            }
            vstd::seq_lib::to_multiset_build(actions@, entry);
            assert(before.to_multiset() == actions@.to_multiset().insert(entry));
            assert(longer.to_multiset().add(actions@.to_multiset()) =~= sorted@.to_multiset().add(
                before.to_multiset(),
            ));
        }
        sorted.insert(at, entry);
    }
    assert(actions@.to_multiset() =~= Multiset::empty());
    assert(sorted@.to_multiset().add(Multiset::empty()) =~= sorted@.to_multiset());
    *actions = sorted;
}

/// The keys of the entries that [`last_per_key`] keeps are those of the
/// list.
pub proof fn lemma_last_per_key_keys(list: Seq<ScoredAction>, key: Seq<char>)
    ensures
        (exists|k: int| 0 <= k < list.len() && (#[trigger] list[k]).action.key@ == key) <==> (
        exists|k: int|
            0 <= k < last_per_key(list).len() && (#[trigger] last_per_key(list)[k]).action.key@
                == key),
    decreases list.len(),
{
    let kept = last_per_key(list);
    if list.len() > 0 {
        let rest = list.drop_first();
        lemma_last_per_key_keys(rest, key);
        let kept_rest = last_per_key(rest);
        if exists|k: int| 0 <= k < list.len() && (#[trigger] list[k]).action.key@ == key {
            let k = choose|k: int| 0 <= k < list.len() && (#[trigger] list[k]).action.key@ == key;
            if k > 0 {
                assert(rest[k - 1] == list[k]);
            } else if key_recurs(list, 0) {
                let l = choose|l: int|
                    0 < l < list.len() && (#[trigger] list[l]).action.key@ == list[0].action.key@;
                assert(rest[l - 1] == list[l]);
            }
            if exists|k: int| 0 <= k < kept_rest.len() && (#[trigger] kept_rest[k]).action.key@ == key {
                let m = choose|k: int|
                    0 <= k < kept_rest.len() && (#[trigger] kept_rest[k]).action.key@ == key;
                if key_recurs(list, 0) {
                    assert(kept[m] == kept_rest[m]);
                } else {
                    assert(kept[m + 1] == kept_rest[m]);
                }
            } else {
                assert(kept[0] == list[0]);
            }
        }
        if exists|k: int| 0 <= k < kept.len() && (#[trigger] kept[k]).action.key@ == key {
            let m = choose|k: int| 0 <= k < kept.len() && (#[trigger] kept[k]).action.key@ == key;
            if key_recurs(list, 0) {
                assert(kept_rest[m] == kept[m]);
                let k = choose|k: int| 0 <= k < rest.len() && (#[trigger] rest[k]).action.key@ == key;
                assert(list[k + 1] == rest[k]);
            } else if m == 0 {
                assert(kept[0] == list[0]);
            } else {
                assert(kept_rest[m - 1] == kept[m]);
                let k = choose|k: int| 0 <= k < rest.len() && (#[trigger] rest[k]).action.key@ == key;
                assert(list[k + 1] == rest[k]);
            }
        }
    }
}

/// Only keeps the highest ranking action of each type: in a list sorted
/// ascending, the last entry of each key.
pub fn filter_action_dupes(actions: &mut Vec<ScoredAction>)
    ensures
        final(actions)@ == last_per_key(old(actions)@),
{
    let ghost full = actions@;
    let mut i: usize = actions.len();
    assert(full.skip(i as int) == Seq::<ScoredAction>::empty());
    assert(full.take(i as int) == full);
    while i > 0
        invariant
            i <= full.len(),
            actions@ == full.take(i as int) + last_per_key(full.skip(i as int)),
        decreases i,
    {
        i -= 1;
        let ghost tail = last_per_key(full.skip(i + 1));
        let ghost here = full.skip(i as int);
        assert(here.drop_first() == full.skip(i + 1));
        assert(here[0] == full[i as int]);
        assert(full.take(i + 1) == full.take(i as int).push(full[i as int]));
        assert(actions@[i as int] == full[i as int]);
        assert(actions@.len() == i + 1 + tail.len());
        // Does the key of entry `i` occur among the entries kept behind it?
        let mut j: usize = i + 1;
        let mut seen = false;
        while j < actions.len() && !seen
            invariant
                i < j <= actions@.len(),
                actions@.len() == i + 1 + tail.len(),
                actions@ == full.take(i + 1) + tail,
                actions@[i as int] == full[i as int],
                !seen ==> forall|l: int| 0 <= l < j - i - 1 ==> (#[trigger] tail[l]).action.key@
                    != full[i as int].action.key@,
                seen ==> exists|l: int| 0 <= l < tail.len() && (#[trigger] tail[l]).action.key@
                    == full[i as int].action.key@,
            decreases actions.len() - j + if seen { 0int } else { 1int },
        {
            assert(actions@[j as int] == tail[j - i - 1]);
            if actions[j].action.key == actions[i].action.key {
                seen = true;
            } else {
                j += 1;
            }
        }
        proof {
            lemma_last_per_key_keys(here.drop_first(), full[i as int].action.key@);
            if seen {
                let l = choose|l: int|
                    0 <= l < here.drop_first().len() && (#[trigger] here.drop_first()[l]).action.key@
                        == full[i as int].action.key@;
                assert(here[l + 1] == here.drop_first()[l]);
                assert(key_recurs(here, 0));
            } else {
                if key_recurs(here, 0) {
                    let l = choose|l: int|
                        0 < l < here.len() && (#[trigger] here[l]).action.key@ == here[0].action.key@;
                    assert(here.drop_first()[l - 1] == here[l]);
                    let m = choose|k: int|
                        0 <= k < tail.len() && (#[trigger] tail[k]).action.key@
                            == full[i as int].action.key@;
                    assert(false);
                }
            }
        }
        if seen {
            actions.remove(i);
            assert(actions@ == full.take(i as int) + last_per_key(here));
        } else {
            assert(actions@ == full.take(i as int) + last_per_key(here));
        }
    }
    assert(full.skip(0) == full);
    assert(full.take(0) + last_per_key(full) == last_per_key(full));
}

/// Whether `list[p]` is the last entry of its key.
pub open spec fn stays(list: Seq<ScoredAction>, p: int) -> bool {
    0 <= p < list.len() && !key_recurs(list, p)
}

/// Whether `entry` is, in `list`, the last entry of its key.
pub open spec fn holds_last(list: Seq<ScoredAction>, entry: ScoredAction) -> bool {
    exists|p: int| #[trigger] stays(list, p) && list[p] == entry
}

/// Whether every entry ranks strictly below all later ones.
pub open spec fn is_strictly_ordered(list: Seq<ScoredAction>) -> bool {
    forall|k: int, l: int|
        0 <= k < l < list.len() ==> ranks_below(#[trigger] list[k], #[trigger] list[l])
}

/// [`last_per_key`] keeps exactly the entries that are the last of their
/// key.
pub proof fn lemma_last_per_key_members(list: Seq<ScoredAction>)
    ensures
        forall|k: int|
            0 <= k < last_per_key(list).len() ==> holds_last(list, #[trigger] last_per_key(list)[k]),
        forall|p: int| #[trigger] stays(list, p) ==> last_per_key(list).contains(list[p]),
    decreases list.len(),
{
    let kept = last_per_key(list);
    if list.len() > 0 {
        let rest = list.drop_first();
        let kept_rest = last_per_key(rest);
        lemma_last_per_key_members(rest);
        assert forall|p: int| 0 <= p < rest.len() implies (stays(rest, p) <==> stays(list, p + 1)) by {
            if key_recurs(rest, p) {
                let l = choose|l: int|
                    p < l < rest.len() && (#[trigger] rest[l]).action.key@ == rest[p].action.key@;
                assert(list[l + 1] == rest[l]);
            }
            if key_recurs(list, p + 1) {
                let l = choose|l: int|
                    p + 1 < l < list.len() && (#[trigger] list[l]).action.key@ == list[p
                        + 1].action.key@;
                assert(rest[l - 1] == list[l]);
            }
        }
        assert forall|k: int| 0 <= k < kept.len() implies holds_last(list, #[trigger] kept[k]) by {
            if !key_recurs(list, 0) && k == 0 {
                assert(stays(list, 0) && list[0] == kept[0]);
            } else {
                let m = if key_recurs(list, 0) {
                    k
                } else {
                    k - 1
                };
                assert(kept[k] == kept_rest[m]);
                assert(holds_last(rest, kept_rest[m]));
                let p = choose|p: int| #[trigger] stays(rest, p) && rest[p] == kept_rest[m];
                assert(stays(list, p + 1) && list[p + 1] == kept[k]);
            }
        }
        assert forall|p: int| #[trigger] stays(list, p) implies kept.contains(list[p]) by {
            if p == 0 {
                assert(kept[0] == list[0]);
            } else {
                assert(stays(rest, p - 1));
                assert(kept_rest.contains(rest[p - 1]));
                let m = choose|m: int| 0 <= m < kept_rest.len() && kept_rest[m] == rest[p - 1];
                if key_recurs(list, 0) {
                    assert(kept[m] == kept_rest[m]);
                } else {
                    assert(kept[m + 1] == kept_rest[m]);
                }
            }
        }
    }
}

/// [`last_per_key`] keeps the order of a strictly ordered list.
pub proof fn lemma_last_per_key_order(list: Seq<ScoredAction>)
    requires
        is_strictly_ordered(list),
    ensures
        is_strictly_ordered(last_per_key(list)),
    decreases list.len(),
{
    let kept = last_per_key(list);
    if list.len() > 0 {
        let rest = list.drop_first();
        let kept_rest = last_per_key(rest);
        assert forall|k: int, l: int| 0 <= k < l < rest.len() implies ranks_below(
            #[trigger] rest[k],
            #[trigger] rest[l],
        ) by {
            assert(rest[k] == list[k + 1] && rest[l] == list[l + 1]);
        }
        lemma_last_per_key_order(rest);
        lemma_last_per_key_members(rest);
        if !key_recurs(list, 0) {
            assert forall|k: int, l: int| 0 <= k < l < kept.len() implies ranks_below(
                #[trigger] kept[k],
                #[trigger] kept[l],
            ) by {
                assert(kept[l] == kept_rest[l - 1]);
                if k == 0 {
                    assert(holds_last(rest, kept_rest[l - 1]));
                    let p = choose|p: int| #[trigger] stays(rest, p) && rest[p] == kept_rest[l - 1];
                    assert(rest[p] == list[p + 1]);
                    assert(kept[0] == list[0]);
                } else {
                    assert(kept[k] == kept_rest[k - 1]);
                }
            }
        }
    }
}

/// What a decision is made from: a brain and the needs it serves, the
/// catalog of advertised actions, the objects they refer to, the actions the
/// person is capable of, and the partner at hand.
pub struct Situation {
    pub brain: PersonAi,
    pub needs: PersonNeeds,
    pub adverts: Seq<ActionAdvertisement>,
    pub furniture: Seq<Furniture>,
    pub possible_actions: Seq<String>,
    pub company: Option<u128>,
}

impl Situation {
    /// Whether entry `i` of the catalog can be taken up.
    pub open spec fn offers(self, i: int) -> bool {
        0 <= i < self.adverts.len() && eligible(
            self.adverts[i],
            self.furniture,
            self.possible_actions,
            self.company,
        )
    }

    /// The score of entry `i` of the catalog.
    pub open spec fn score(self, i: int) -> int {
        self.brain.score(self.needs, self.adverts[i])
    }

    /// The action key of entry `i` of the catalog.
    pub open spec fn key(self, i: int) -> Seq<char> {
        self.adverts[i].action_key@
    }

    /// Whether entry `i` ranks above entry `j`: by score, and between equal
    /// scores the later one ranks higher.
    pub open spec fn outranks(self, i: int, j: int) -> bool {
        self.score(j) < self.score(i) || (self.score(j) == self.score(i) && j < i)
    }

    /// Whether entry `i` can be taken up and ranks above every other entry
    /// of the same action key that can.
    pub open spec fn is_champion(self, i: int) -> bool {
        &&& self.offers(i)
        &&& forall|j: int|
            #[trigger] self.offers(j) && j != i && self.key(j) == self.key(i) ==> self.outranks(
                i,
                j,
            )
    }

    /// Whether `entry` is what the catalog entry that it names amounts to.
    pub open spec fn describes(self, entry: ScoredAction) -> bool {
        &&& entry.advert < self.adverts.len()
        &&& entry.action == proposal(self.adverts[entry.advert as int], self.company)
        &&& entry.score == self.score(entry.advert as int)
    }

    /// Whether `list` holds, in catalog order, what the first `upto` catalog
    /// entries offer.
    pub open spec fn is_collection(self, list: Seq<ScoredAction>, upto: int) -> bool {
        &&& forall|k: int|
            0 <= k < list.len() ==> self.describes(#[trigger] list[k]) && self.offers(
                list[k].advert as int,
            ) && list[k].advert < upto
        &&& forall|k: int, l: int|
            0 <= k < l < list.len() ==> (#[trigger] list[k]).advert < (#[trigger] list[l]).advert
        &&& forall|i: int|
            #[trigger] self.offers(i) && i < upto ==> exists|k: int|
                0 <= k < list.len() && (#[trigger] list[k]).advert == i
    }

    /// Whether `ranked` is the ranking of this situation: of each action key
    /// on offer the champion, and these in ascending order.
    pub open spec fn is_ranking(self, ranked: Seq<ScoredAction>) -> bool {
        &&& forall|k: int|
            0 <= k < ranked.len() ==> self.describes(#[trigger] ranked[k]) && self.is_champion(
                ranked[k].advert as int,
            )
        &&& is_strictly_ordered(ranked)
        &&& forall|i: int|
            #[trigger] self.is_champion(i) ==> exists|k: int|
                0 <= k < ranked.len() && (#[trigger] ranked[k]).advert == i
    }

    /// Whether `action` is what a lottery draw of `draw` selects from
    /// `ranked`: the idle action where nothing is ranked.
    pub open spec fn decides(self, ranked: Seq<ScoredAction>, draw: int, action: Action) -> bool {
        if ranked.len() == 0 {
            action.is_idle()
        } else {
            action == ranked[picked_index(ranked.len() as int, draw)].action
        }
    }

    /// Whether `action` can come out of a decision in this situation: some
    /// lottery draw selects it from the ranking.
    pub open spec fn allows(self, action: Action) -> bool {
        exists|ranked: Seq<ScoredAction>, draw: int|
            self.is_ranking(ranked) && 0 <= draw && #[trigger] self.decides(ranked, draw, action)
    }

    /// An action that the situation allows is the idle action or what the
    /// champion of some action key amounts to.
    pub proof fn lemma_allowed_is_champion(self, action: Action)
        requires
            self.allows(action),
        ensures
            action.is_idle() || exists|i: int|
                #[trigger] self.is_champion(i) && action == proposal(self.adverts[i], self.company),
    {
        let (ranked, draw) = choose|ranked: Seq<ScoredAction>, draw: int|
            self.is_ranking(ranked) && 0 <= draw && #[trigger] self.decides(ranked, draw, action);
        if ranked.len() > 0 {
            let entry = ranked[picked_index(ranked.len() as int, draw)];
            assert(self.describes(entry));
            assert(self.is_champion(entry.advert as int));
        }
    }

    /// Where nothing is on offer, and so with an empty catalog, the
    /// decision is to idle.
    pub proof fn lemma_nothing_on_offer_idles(self, action: Action)
        requires
            self.allows(action),
            forall|i: int| !self.offers(i),
        ensures
            action.is_idle(),
    {
        self.lemma_allowed_is_champion(action);
    }

    /// The action of an object that is reserved is never decided on: what
    /// is decided on refers to an object that exists and is free.
    pub proof fn lemma_reserved_never_chosen(self, action: Action)
        requires
            self.allows(action),
        ensures
            action.object matches Some(object) ==> object < self.furniture.len()
                && !self.furniture[object as int].reserved(),
            forall|i: int|
                0 <= i < self.adverts.len() && self.adverts[i].source_node < self.furniture.len()
                    && self.furniture[self.adverts[i].source_node as int].reserved()
                    ==> action != proposal(#[trigger] self.adverts[i], self.company),
    {
        self.lemma_allowed_is_champion(action);
    }

    /// Of two entries on offer with the same action key, the one with the
    /// lower score is never the one decided on: what is decided on is the
    /// idle action or comes from another entry, which ranks above every
    /// entry of its key.
    pub proof fn lemma_lower_duplicate_never_chosen(self, action: Action, higher: int, lower: int)
        requires
            self.allows(action),
            self.offers(higher),
            self.offers(lower),
            self.key(higher) == self.key(lower),
            self.score(lower) < self.score(higher),
        ensures
            action.is_idle() || exists|i: int|
                #[trigger] self.is_champion(i) && i != lower && action == proposal(
                    self.adverts[i],
                    self.company,
                ),
    {
        self.lemma_allowed_is_champion(action);
        if !action.is_idle() {
            let i = choose|i: int|
                #[trigger] self.is_champion(i) && action == proposal(self.adverts[i], self.company);
            if i == lower {
                assert(self.offers(higher) && higher != lower && self.key(higher) == self.key(lower));
                assert(self.outranks(lower, higher));
            }
        }
    }

    /// The entry among the first `upto` of the catalog that is on offer
    /// with action key `key` and ranks above all others such, if there is
    /// one.
    pub open spec fn best_of_key(self, key: Seq<char>, upto: int) -> Option<int>
        decreases upto,
    {
        if upto <= 0 {
            None
        } else {
            let i = upto - 1;
            match self.best_of_key(key, i) {
                Some(best) => if self.offers(i) && self.key(i) == key && self.outranks(i, best) {
                    Some(i)
                } else {
                    Some(best)
                },
                None => if self.offers(i) && self.key(i) == key {
                    Some(i)
                } else {
                    None
                },
            }
        }
    }

    /// [`Situation::best_of_key`] finds the entry that ranks above all
    /// others of its key, wherever the key is on offer.
    pub proof fn lemma_best_of_key(self, key: Seq<char>, upto: int)
        requires
            0 <= upto <= self.adverts.len(),
        ensures
            match self.best_of_key(key, upto) {
                Some(best) => {
                    &&& 0 <= best < upto
                    &&& self.offers(best)
                    &&& self.key(best) == key
                    &&& forall|j: int|
                        0 <= j < upto && #[trigger] self.offers(j) && j != best && self.key(j)
                            == key ==> self.outranks(best, j)
                },
                None => forall|j: int| 0 <= j < upto && #[trigger] self.offers(j) ==> self.key(j) != key,
            },
        decreases upto,
    {
        if upto > 0 {
            self.lemma_best_of_key(key, upto - 1);
        }
    }

    /// Every action key on offer has a champion, which scores at least as
    /// high as any entry of the key.
    pub proof fn lemma_champion_exists(self, i: int) -> (champion: int)
        requires
            self.offers(i),
        ensures
            self.is_champion(champion),
            self.key(champion) == self.key(i),
            self.score(champion) >= self.score(i),
    {
        self.lemma_best_of_key(self.key(i), self.adverts.len() as int);
        let champion = self.best_of_key(self.key(i), self.adverts.len() as int)->0;
        assert(self.offers(i));
        champion
    }

    /// A ranking holds each action key once.
    pub proof fn lemma_ranking_keys_differ(self, ranked: Seq<ScoredAction>, k: int, l: int)
        requires
            self.is_ranking(ranked),
            0 <= k < ranked.len(),
            0 <= l < ranked.len(),
            k != l,
        ensures
            ranked[k].action.key@ != ranked[l].action.key@,
    {
        let i = ranked[k].advert as int;
        let j = ranked[l].advert as int;
        assert(self.describes(ranked[k]) && self.describes(ranked[l]));
        assert(self.is_champion(i) && self.is_champion(j));
        if k < l {
            assert(ranks_below(ranked[k], ranked[l]));
        } else {
            assert(ranks_below(ranked[l], ranked[k]));
        }
        if ranked[k].action.key@ == ranked[l].action.key@ {
            assert(self.offers(j) && self.offers(i));
            assert(self.outranks(i, j));
            assert(self.outranks(j, i));
        }
    }

    /// Two rankings of one situation name the same catalog entries in their
    /// first `upto` places, as far as the first ranking reaches.
    pub proof fn lemma_rankings_agree_upto(
        self,
        first: Seq<ScoredAction>,
        second: Seq<ScoredAction>,
        upto: int,
    )
        requires
            self.is_ranking(first),
            self.is_ranking(second),
            0 <= upto,
        ensures
            forall|k: int|
                0 <= k < upto && k < first.len() ==> k < second.len() && (#[trigger] first[k]).advert
                    == second[k].advert,
        decreases upto,
    {
        if upto > 0 {
            self.lemma_rankings_agree_upto(first, second, upto - 1);
            let k = upto - 1;
            if k < first.len() {
                let a = first[k].advert as int;
                assert(self.describes(first[k]) && self.is_champion(a));
                let p = choose|p: int| 0 <= p < second.len() && (#[trigger] second[p]).advert == a;
                assert(self.describes(second[p]));
                if p < k {
                    assert(first[p].advert == second[p].advert);
                    assert(ranks_below(first[p], first[k]));
                    assert(self.describes(first[p]));
                }
                assert(p >= k);
                let b = second[k].advert as int;
                assert(self.describes(second[k]) && self.is_champion(b));
                let q = choose|q: int| 0 <= q < first.len() && (#[trigger] first[q]).advert == b;
                assert(self.describes(first[q]));
                if q < k {
                    assert(first[q].advert == second[q].advert);
                    assert(ranks_below(second[q], second[k]));
                    assert(self.describes(second[q]));
                }
                assert(q >= k);
                if p > k && q > k {
                    assert(ranks_below(second[k], second[p]));
                    assert(ranks_below(first[k], first[q]));
                }
            }
        }
    }

    /// A situation has one ranking: two rankings of it have the same
    /// entries in the same places.
    pub proof fn lemma_ranking_unique(self, first: Seq<ScoredAction>, second: Seq<ScoredAction>)
        requires
            self.is_ranking(first),
            self.is_ranking(second),
        ensures
            first.len() == second.len(),
            forall|k: int|
                0 <= k < first.len() ==> (#[trigger] first[k]).advert == second[k].advert
                    && first[k].score == second[k].score && first[k].action == second[k].action,
    {
        self.lemma_rankings_agree_upto(first, second, first.len() as int);
        self.lemma_rankings_agree_upto(second, first, second.len() as int);
        if first.len() > 0 {
            assert(first[first.len() - 1].advert == second[first.len() - 1].advert);
        }
        if second.len() > 0 {
            assert(second[second.len() - 1].advert == first[second.len() - 1].advert);
        }
        assert forall|k: int| 0 <= k < first.len() implies (#[trigger] first[k]).advert
            == second[k].advert && first[k].score == second[k].score && first[k].action
            == second[k].action by {
            assert(self.describes(first[k]) && self.describes(second[k]));
        }
    }

    /// Repeating the last action costs [`REPEAT_PENALTY`] of its score, and
    /// no other action costs anything.
    pub proof fn lemma_repeat_costs(self, i: int)
        ensures
            self.key(i) == self.brain.last_action@ ==> self.score(i) == needs_score(
                self.adverts[i].stats@,
                self.needs,
            ) - REPEAT_PENALTY,
            self.key(i) != self.brain.last_action@ ==> self.score(i) == needs_score(
                self.adverts[i].stats@,
                self.needs,
            ),
    {
    }

    /// The last action is never ranked best while another action is on
    /// offer whose score by needs is not 100 or more below its own: the
    /// best entry of the ranking, which a lottery draw of zero selects, has
    /// another key.
    pub proof fn lemma_repeat_never_best(self, ranked: Seq<ScoredAction>, other: int)
        requires
            self.is_ranking(ranked),
            self.offers(other),
            self.key(other) != self.brain.last_action@,
            forall|j: int|
                #[trigger] self.offers(j) && self.key(j) == self.brain.last_action@ ==> needs_score(
                    self.adverts[j].stats@,
                    self.needs,
                ) - REPEAT_PENALTY < needs_score(self.adverts[other].stats@, self.needs),
        ensures
            ranked.len() > 0,
            ranked.last().action.key@ != self.brain.last_action@,
    {
        let champion = self.lemma_champion_exists(other);
        let at = choose|k: int| 0 <= k < ranked.len() && (#[trigger] ranked[k]).advert == champion;
        let best = ranked.last();
        assert(self.describes(best) && self.describes(ranked[at]));
        if best.action.key@ == self.brain.last_action@ {
            let j = best.advert as int;
            assert(self.is_champion(j));
            assert(self.offers(j));
            assert(self.score(j) < self.score(champion));
            if at < ranked.len() - 1 {
                assert(ranks_below(ranked[at], ranked[ranked.len() - 1]));
            }
        }
    }

    /// The last action is never decided on while three other actions are
    /// on offer, each of another key, none with a score by needs that is
    /// 100 or more below its own. The lottery draws among the best three,
    /// and the penalty keeps the last action out of them.
    pub proof fn lemma_repeat_never_chosen(self, action: Action, a: int, b: int, c: int)
        requires
            self.allows(action),
            self.offers(a),
            self.offers(b),
            self.offers(c),
            self.key(a) != self.key(b),
            self.key(a) != self.key(c),
            self.key(b) != self.key(c),
            self.key(a) != self.brain.last_action@,
            self.key(b) != self.brain.last_action@,
            self.key(c) != self.brain.last_action@,
            forall|j: int|
                #[trigger] self.offers(j) && self.key(j) == self.brain.last_action@ ==> {
                    let penalized = needs_score(self.adverts[j].stats@, self.needs)
                        - REPEAT_PENALTY;
                    &&& penalized < needs_score(self.adverts[a].stats@, self.needs)
                    &&& penalized < needs_score(self.adverts[b].stats@, self.needs)
                    &&& penalized < needs_score(self.adverts[c].stats@, self.needs)
                },
        ensures
            action.key@ != self.brain.last_action@,
    {
        let (ranked, draw) = choose|ranked: Seq<ScoredAction>, draw: int|
            self.is_ranking(ranked) && 0 <= draw && #[trigger] self.decides(ranked, draw, action);
        let ca = self.lemma_champion_exists(a);
        let cb = self.lemma_champion_exists(b);
        let cc = self.lemma_champion_exists(c);
        let pa = choose|k: int| 0 <= k < ranked.len() && (#[trigger] ranked[k]).advert == ca;
        let pb = choose|k: int| 0 <= k < ranked.len() && (#[trigger] ranked[k]).advert == cb;
        let pc = choose|k: int| 0 <= k < ranked.len() && (#[trigger] ranked[k]).advert == cc;
        assert(self.describes(ranked[pa]) && self.describes(ranked[pb]) && self.describes(
            ranked[pc],
        ));
        assert(pa != pb && pa != pc && pb != pc);
        let at = picked_index(ranked.len() as int, draw);
        let entry = ranked[at];
        assert(self.describes(entry));
        if entry.action.key@ == self.brain.last_action@ {
            let j = entry.advert as int;
            assert(self.is_champion(j));
            assert(self.offers(j));
            assert(self.score(j) < self.score(ca));
            assert(self.score(j) < self.score(cb));
            assert(self.score(j) < self.score(cc));
            if pa < at {
                assert(ranks_below(ranked[pa], ranked[at]));
            }
            if pb < at {
                assert(ranks_below(ranked[pb], ranked[at]));
            }
            if pc < at {
                assert(ranks_below(ranked[pc], ranked[at]));
            }
            assert(pa > at && pb > at && pc > at);
            assert(at + 3 <= ranked.len() - 1);
        }
    }

    /// Sorting what the catalog offers and keeping the last entry of each
    /// key gives the ranking.
    pub proof fn lemma_ranking(self, list: Seq<ScoredAction>, sorted: Seq<ScoredAction>)
        requires
            self.is_collection(list, self.adverts.len() as int),
            is_ordered(sorted),
            sorted.to_multiset() == list.to_multiset(),
        ensures
            self.is_ranking(last_per_key(sorted)),
    {
        broadcast use vstd::seq_lib::group_to_multiset_ensures;

        let ranked = last_per_key(sorted);
        // The two lists hold the same entries, each once.
        assert(list.no_duplicates());
        list.lemma_multiset_has_no_duplicates();
        sorted.lemma_multiset_has_no_duplicates_conv();
        assert forall|p: int| 0 <= p < sorted.len() implies list.contains(#[trigger] sorted[p]) by {
            assert(sorted.contains(sorted[p]));
            assert(sorted.to_multiset().count(sorted[p]) > 0);
        }
        assert forall|k: int| 0 <= k < list.len() implies sorted.contains(#[trigger] list[k]) by {
            assert(list.contains(list[k]));
            assert(list.to_multiset().count(list[k]) > 0);
        }
        assert forall|p: int| 0 <= p < sorted.len() implies self.describes(#[trigger] sorted[p])
            && self.offers(sorted[p].advert as int) by {
            let k = choose|k: int| 0 <= k < list.len() && list[k] == sorted[p];
            assert(self.describes(list[k]));
        }
        assert forall|p: int, q: int| 0 <= p < sorted.len() && 0 <= q < sorted.len() && p
            != q implies (#[trigger] sorted[p]).advert != (#[trigger] sorted[q]).advert by {
            let a = choose|k: int| 0 <= k < list.len() && list[k] == sorted[p];
            let b = choose|k: int| 0 <= k < list.len() && list[k] == sorted[q];
            if sorted[p].advert == sorted[q].advert {
                if a < b {
                    assert(list[a].advert < list[b].advert);
                } else if b < a {
                    assert(list[b].advert < list[a].advert);
                }
                assert(sorted[p] == sorted[q]);
            }
        }
        assert(is_strictly_ordered(sorted)) by {
            assert forall|k: int, l: int| 0 <= k < l < sorted.len() implies ranks_below(
                #[trigger] sorted[k],
                #[trigger] sorted[l],
            ) by {
                assert(!ranks_below(sorted[l], sorted[k]));
                assert(sorted[k].advert != sorted[l].advert);
            }
        }
        lemma_last_per_key_order(sorted);
        lemma_last_per_key_members(sorted);
        assert forall|k: int| 0 <= k < ranked.len() implies self.describes(#[trigger] ranked[k])
            && self.is_champion(ranked[k].advert as int) by {
            assert(holds_last(sorted, ranked[k]));
            let p = choose|p: int| #[trigger] stays(sorted, p) && sorted[p] == ranked[k];
            let i = sorted[p].advert as int;
            assert(self.describes(sorted[p]));
            assert forall|j: int| #[trigger]
                self.offers(j) && j != i && self.key(j) == self.key(i) implies self.outranks(
                i,
                j,
            ) by {
                let a = choose|a: int| 0 <= a < list.len() && (#[trigger] list[a]).advert == j;
                assert(sorted.contains(list[a]));
                let q = choose|q: int| 0 <= q < sorted.len() && sorted[q] == list[a];
                assert(self.describes(sorted[q]));
                assert(sorted[q].action.key@ == self.key(j));
                if q > p {
                    assert(key_recurs(sorted, p));
                }
                assert(q < p);
                assert(ranks_below(sorted[q], sorted[p]));
            }
        }
        assert forall|i: int| #[trigger] self.is_champion(i) implies exists|k: int|
            0 <= k < ranked.len() && (#[trigger] ranked[k]).advert == i by {
            let a = choose|a: int| 0 <= a < list.len() && (#[trigger] list[a]).advert == i;
            assert(sorted.contains(list[a]));
            let p = choose|p: int| 0 <= p < sorted.len() && sorted[p] == list[a];
            if key_recurs(sorted, p) {
                let q = choose|q: int|
                    p < q < sorted.len() && (#[trigger] sorted[q]).action.key@
                        == sorted[p].action.key@;
                let j = sorted[q].advert as int;
                assert(self.describes(sorted[q]) && self.describes(sorted[p]));
                assert(self.offers(j));
                assert(j != i);
                assert(self.key(j) == self.key(i));
                assert(self.outranks(i, j));
                assert(ranks_below(sorted[p], sorted[q]));
                assert(false);
            }
            assert(stays(sorted, p));
            assert(ranked.contains(sorted[p]));
            let k = choose|k: int| 0 <= k < ranked.len() && ranked[k] == sorted[p];
            assert(ranked[k].advert == i);
        }
    }
}

/// The place in a ranking of `count` entries that a lottery draw selects:
/// the best entry for a draw of zero, the next below it for one, and so on,
/// but never further down than [`lottery_reach`] allows.
pub open spec fn picked_index(count: int, draw: int) -> int {
    if draw < lottery_reach(count) {
        count - 1 - draw
    } else {
        count - 1 - lottery_reach(count)
    }
}

/// How far below the best entry the lottery may reach.
pub fn lottery_span(count: usize) -> (reach: usize)
    ensures
        reach == lottery_reach(count as int),
{
    if count <= 1 {
        0
    } else if count == 2 {
        1
    } else {
        2
    }
}

/// Takes from a ranking the action that the lottery draw selects; from an
/// empty ranking, the idle action.
pub fn choose_ranked(ranked: &Vec<ScoredAction>, draw: usize) -> (action: Action)
    ensures
        ranked@.len() == 0 ==> action.is_idle(),
        ranked@.len() > 0 ==> action == ranked@[picked_index(
            ranked@.len() as int,
            draw as int,
        )].action,
{
    if ranked.len() == 0 {
        return Action::idle();
    }
    let reach = lottery_span(ranked.len());
    let down = if draw < reach {
        draw
    } else {
        reach
    };
    ranked[ranked.len() - 1 - down].action.clone()
}

/// The brain of one person.
#[derive(Debug)]
pub struct PersonAi {
    /// Brain owner's identifier.
    pub person_uuid: u128,
    /// Key of the action chosen last; empty before the first choice.
    pub last_action: String,
}

impl PersonAi {
    /// What the history adds to the score of an action: the penalty if it
    /// repeats the last action, nothing otherwise.
    pub open spec fn history_score(self, key: Seq<char>) -> int {
        if key == self.last_action@ {
            -REPEAT_PENALTY
        } else {
            0
        }
    }

    /// The score of an advertisement.
    pub open spec fn score(self, needs: PersonNeeds, advert: ActionAdvertisement) -> int {
        needs_score(advert.stats@, needs) + self.history_score(advert.action_key@)
    }

    /// The situation this brain decides in.
    pub open spec fn situation(
        self,
        needs: PersonNeeds,
        adverts: Seq<ActionAdvertisement>,
        furniture: Seq<Furniture>,
        possible_actions: Seq<String>,
        company: Option<u128>,
    ) -> Situation {
        Situation { brain: self, needs, adverts, furniture, possible_actions, company }
    }

    /// Whether `company` is a fitting answer to the search for a partner
    /// among `people`: somebody else, or nobody where there is nobody else.
    pub open spec fn may_join(self, people: Set<u128>, company: Option<u128>) -> bool {
        match company {
            Some(other) => people.contains(other) && other != self.person_uuid,
            None => forall|id: u128| people.contains(id) ==> id == self.person_uuid,
        }
    }

    /// Whether `action` can come out of a decision of this brain: with some
    /// fitting partner at hand, the situation allows it.
    pub open spec fn may_decide(
        self,
        needs: PersonNeeds,
        adverts: Seq<ActionAdvertisement>,
        furniture: Seq<Furniture>,
        people: Set<u128>,
        possible_actions: Seq<String>,
        action: Action,
    ) -> bool {
        exists|company: Option<u128>|
            self.may_join(people, company) && (#[trigger] self.situation(
                needs,
                adverts,
                furniture,
                possible_actions,
                company,
            )).allows(action)
    }

    pub fn new(person_uuid: u128) -> (brain: Self)
        ensures
            brain.person_uuid == person_uuid,
            brain.last_action@ == Seq::<char>::empty(),
    {
        PersonAi { person_uuid, last_action: String::new() }
    }

    /// Looks for somebody to do things with: any person of the registry
    /// other than the owner of this brain. Which one is found when there are
    /// several is left open.
    pub fn pick_company(&self, people: &HashMap<u128, Person>) -> (company: Option<u128>)
        ensures
            self.may_join(people@.dom(), company),
    {
        broadcast use vstd::std_specs::hash::group_hash_axioms;

        let ghost keys = people.keys().remaining().unref();
        let ghost mut checked: int = 0;
        for id in iter: people.keys()
            invariant
                iter.seq().unref() == keys,
                keys.to_set() == people@.dom(),
                checked == iter.index(),
                forall|k: int| 0 <= k < checked ==> keys[k] == self.person_uuid,
        {
            assert(keys[checked] == *id);
            if *id != self.person_uuid {
                assert(keys.to_set().contains(*id));
                return Some(*id);
            }
            proof {
                checked = checked + 1;
            }
        }
        assert(checked == keys.len());
        assert forall|id: u128| people@.contains_key(id) implies id == self.person_uuid by {
            assert(keys.to_set().contains(id));
            let k = choose|k: int| 0 <= k < keys.len() && keys[k] == id;
        }
        None
    }

    /// Scores an advertisement by how well it answers the needs.
    pub fn score_action_by_needs(&self, needs: &PersonNeeds, advert: &ActionAdvertisement) -> (score:
        i128)
        ensures
            score == needs_score(advert.stats@, *needs),
            -0x2000_0000_0000_0000 * 0xffff_ffff_ffff_ffff <= score <= 0x2000_0000_0000_0000
                * 0xffff_ffff_ffff_ffff,
    {
        let mut score: i128 = 0;
        let mut i: usize = 0;
        while i < advert.stats.len()
            invariant
                i <= advert.stats.len(),
                score == needs_score(advert.stats@.take(i as int), *needs),
                -0x2000_0000_0000_0000 * i <= score <= 0x2000_0000_0000_0000 * i,
            decreases advert.stats.len() - i,
        {
            assert(advert.stats@.take(i + 1).drop_last() == advert.stats@.take(i as int));
            let stat = &advert.stats[i];
            match Need::from_key(stat.key.as_str()) {
                Some(need) => {
                    let level = needs.get(need);
                    let divisor: i128 = if level == 0 {
                        1
                    } else {
                        level as i128
                    };
                    let scaled: i128 = stat.value as i128 * SCORE_SCALE;
                    score = score + divide_toward_zero(scaled, divisor);
                },
                None => {},
            }
            i += 1;
        }
        assert(advert.stats@.take(advert.stats.len() as int) == advert.stats@);
        score
    }

    /// Ranks what the catalog offers: collects the entries that can be
    /// taken up, each with its score, sorts them and keeps the best of each
    /// action key.
    pub fn rank_actions(
        &self,
        needs: &PersonNeeds,
        advertised_actions: &Vec<ActionAdvertisement>,
        furniture: &Vec<Furniture>,
        possible_actions: &Vec<String>,
        company: Option<u128>,
    ) -> (ranked: Vec<ScoredAction>)
        ensures
            self.situation(
                *needs,
                advertised_actions@,
                furniture@,
                possible_actions@,
                company,
            ).is_ranking(ranked@),
    {
        let ghost situation = self.situation(
            *needs,
            advertised_actions@,
            furniture@,
            possible_actions@,
            company,
        );
        let mut list: Vec<ScoredAction> = Vec::new();
        let mut i: usize = 0;
        while i < advertised_actions.len()
            invariant
                i <= advertised_actions.len(),
                situation == self.situation(
                    *needs,
                    advertised_actions@,
                    furniture@,
                    possible_actions@,
                    company,
                ),
                situation.is_collection(list@, i as int),
            decreases advertised_actions.len() - i,
        {
            let advert = &advertised_actions[i];
            let ghost before = list@;
            if contains_key(possible_actions, advert.action_key.as_str()) && advert.source_node
                < furniture.len() && !furniture[advert.source_node].is_reserved() && (
            advert.required_people != 2 || company.is_some()) {
                let action = Action {
                    key: advert.action_key.clone(),
                    object: Some(advert.source_node),
                    partner_uuid: if advert.required_people == 2 {
                        company
                    } else {
                        None
                    },
                    master_uuid: None,
                };
                let score = self.score_action_by_needs(needs, advert)
                    + self.score_action_by_history(advert);
                list.push(ScoredAction { action, score, advert: i });
                proof {
                    assert(situation.offers(i as int));
                    assert(situation.describes(list@[before.len() as int]));
                    assert forall|k: int| 0 <= k < list@.len() implies situation.describes(
                        #[trigger] list@[k],
                    ) && situation.offers(list@[k].advert as int) && list@[k].advert < i + 1 by {
                        if k < before.len() {
                            assert(list@[k] == before[k]);
                        }
                    }
                    assert forall|k: int, l: int| 0 <= k < l < list@.len() implies (
                    #[trigger] list@[k]).advert < (#[trigger] list@[l]).advert by {
                        assert(list@[k] == before[k]);
                        if l < before.len() {
                            assert(list@[l] == before[l]);
                        }
                    }
                    assert forall|j: int| #[trigger] situation.offers(j) && j < i + 1 implies exists|
                        k: int,
                    |
                        0 <= k < list@.len() && (#[trigger] list@[k]).advert == j by {
                        if j < i {
                            let k = choose|k: int|
                                0 <= k < before.len() && (#[trigger] before[k]).advert == j;
                            assert(list@[k] == before[k]);
                        } else {
                            assert(list@[before.len() as int].advert == j);
                        }
                    }
                }
            } else {
                assert(!situation.offers(i as int));
            }
            i += 1;
        }
        let ghost collected = list@;
        sort_by_score(&mut list);
        let ghost sorted = list@;
        filter_action_dupes(&mut list);
        proof {
            situation.lemma_ranking(collected, sorted);
        }
        list
    }

    /// Decides what to do next. Of the advertised actions that the person is
    /// capable of, whose object is free and for which a partner is at hand
    /// where one is needed, the best of each kind are ranked by score, and a
    /// lottery among the best three picks one. If there are none, the
    /// person idles.
    pub fn decide_action(
        &self,
        needs: &PersonNeeds,
        advertised_actions: &Vec<ActionAdvertisement>,
        furniture: &Vec<Furniture>,
        people: &HashMap<u128, Person>,
        possible_actions: &Vec<String>,
        rng: &mut StdRng,
    ) -> (action: Action)
        ensures
            self.may_decide(
                *needs,
                advertised_actions@,
                furniture@,
                people@.dom(),
                possible_actions@,
                action,
            ),
            advertised_actions@.len() == 0 ==> action.is_idle(),
            action.object matches Some(object) ==> object < furniture@.len()
                && !furniture@[object as int].reserved(),
    {
        let company = self.pick_company(people);
        let ranked = self.rank_actions(
            needs,
            advertised_actions,
            furniture,
            possible_actions,
            company,
        );
        let draw = if ranked.len() >= 2 {
            draw_upto(rng, lottery_span(ranked.len()))
        } else {
            0
        };
        let action = choose_ranked(&ranked, draw);
        proof {
            let situation = self.situation(
                *needs,
                advertised_actions@,
                furniture@,
                possible_actions@,
                company,
            );
            assert(situation.decides(ranked@, draw as int, action));
            self.lemma_decision(
                *needs,
                advertised_actions@,
                furniture@,
                people@.dom(),
                possible_actions@,
                action,
            );
        }
        action
    }

    /// What holds of every decision: with an empty catalog it is to idle,
    /// and it never refers to an object that is reserved or does not exist.
    pub proof fn lemma_decision(
        self,
        needs: PersonNeeds,
        adverts: Seq<ActionAdvertisement>,
        furniture: Seq<Furniture>,
        people: Set<u128>,
        possible_actions: Seq<String>,
        action: Action,
    )
        requires
            self.may_decide(needs, adverts, furniture, people, possible_actions, action),
        ensures
            adverts.len() == 0 ==> action.is_idle(),
            action.object matches Some(object) ==> object < furniture.len()
                && !furniture[object as int].reserved(),
            action.partner_uuid matches Some(partner) ==> people.contains(partner) && partner
                != self.person_uuid,
            action.primary(),
    {
        let company = choose|company: Option<u128>|
            self.may_join(people, company) && (#[trigger] self.situation(
                needs,
                adverts,
                furniture,
                possible_actions,
                company,
            )).allows(action);
        let situation = self.situation(needs, adverts, furniture, possible_actions, company);
        situation.lemma_allowed_is_champion(action);
        situation.lemma_reserved_never_chosen(action);
    }

    /// Scores an advertisement by what was done last.
    pub fn score_action_by_history(&self, advert: &ActionAdvertisement) -> (score: i128)
        ensures
            score == self.history_score(advert.action_key@),
    {
        if advert.action_key == self.last_action {
            -REPEAT_PENALTY
        } else {
            0
        }
    }
}

} // verus!
