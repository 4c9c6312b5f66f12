//! Alternative filter groups for one socket: a key passes when some group
//! accepts it, that is when it passes every filter of that group.
//!
//! A socket named twice on the command line gets one group per naming; a
//! socket without groups shows every key.

use vstd::prelude::*;
use crate::error::Error;
use crate::filter::evaluator::{first_bad_rule, github_applied, keyfile_applied, rule_parsed_from, FilterEvaluator};
use crate::filter::rule::{spec_parse_rule, spec_rule_error};
use crate::protocol::message::{identities_view, Identity, SpecIdentity};

verus! {

/// Every string of `strs` is a filter rule.
pub open spec fn all_rules_parse(strs: Seq<String>) -> bool {
    forall|i: int| 0 <= i < strs.len() ==> #[trigger] spec_parse_rule(strs[i]@) is Some
}

/// `e` holds, in order, the rules that parsing `strs` makes.
pub open spec fn evaluator_parsed_from(e: FilterEvaluator, strs: Seq<String>) -> bool {
    &&& e.spec_rules().len() == strs.len()
    &&& forall|i: int| 0 <= i < strs.len() ==> rule_parsed_from(#[trigger] e.spec_rules()[i], strs[i]@)
}

/// `new` is `old` with a key file's text handed to its rule at `index`.
pub open spec fn evaluator_keyfile_applied(
    old: FilterEvaluator,
    new: FilterEvaluator,
    index: int,
    contents: Seq<char>,
) -> bool {
    &&& new.spec_rules().len() == old.spec_rules().len()
    &&& forall|i: int| 0 <= i < old.spec_rules().len() && i != index ==> #[trigger] new.spec_rules()[i] == old.spec_rules()[i]
    &&& 0 <= index < old.spec_rules().len() ==> keyfile_applied(old.spec_rules()[index], new.spec_rules()[index], contents)
}

/// `new` is `old` with GitHub keys fetched at `now` handed to its rule at
/// `index`.
pub open spec fn evaluator_github_applied(
    old: FilterEvaluator,
    new: FilterEvaluator,
    index: int,
    text: Seq<char>,
    now: u64,
) -> bool {
    &&& new.spec_rules().len() == old.spec_rules().len()
    &&& forall|i: int| 0 <= i < old.spec_rules().len() && i != index ==> #[trigger] new.spec_rules()[i] == old.spec_rules()[i]
    &&& 0 <= index < old.spec_rules().len() ==> github_applied(old.spec_rules()[index], new.spec_rules()[index], text, now)
}

/// Alternative groups of filter rules (ORed; the rules of a group are ANDed).
#[derive(Debug)]
pub struct FilterGroups {
    groups: Vec<FilterEvaluator>,
}

impl FilterGroups {
    /// The groups, in order.
    pub closed spec fn spec_groups(&self) -> Seq<FilterEvaluator> {
        self.groups@
    }

    /// The identity passes: there are no groups, or some group accepts it.
    pub open spec fn spec_matches(&self, id: SpecIdentity) -> bool {
        ||| self.spec_groups().len() == 0
        ||| exists|g: int| 0 <= g < self.spec_groups().len() && #[trigger] self.spec_groups()[g].spec_matches(id)
    }

    /// The identities among `ids` that pass, in order.
    pub open spec fn spec_accepted(&self, ids: Seq<SpecIdentity>) -> Seq<SpecIdentity> {
        ids.filter(|id: SpecIdentity| self.spec_matches(id))
    }

    /// Groups made of the given evaluators.
    pub fn new(groups: Vec<FilterEvaluator>) -> (f: FilterGroups)
        ensures
            f.spec_groups() == groups@,
    {
        FilterGroups { groups }
    }

    /// The one group `e`.
    pub fn single(e: FilterEvaluator) -> (f: FilterGroups)
        ensures
            f.spec_groups() == seq![e],
    {
        let mut groups: Vec<FilterEvaluator> = Vec::new();
        groups.push(e);
        FilterGroups { groups }
    }

    /// Parses each list of filter strings into a group; fails when any
    /// string is not a filter rule.
    pub fn parse(groups: &[Vec<String>]) -> (r: Result<FilterGroups, Error>)
        ensures
            r is Ok <==> forall|g: int| 0 <= g < groups@.len() ==> #[trigger] all_rules_parse(groups@[g]@),
            r matches Ok(f) ==> f.spec_groups().len() == groups@.len() && forall|g: int|
                0 <= g < groups@.len() ==> evaluator_parsed_from(#[trigger] f.spec_groups()[g], groups@[g]@),
            r matches Err(e) ==> exists|g: int, k: int| 0 <= g < groups@.len() && (forall|j: int| 0 <= j < g ==> #[trigger] all_rules_parse(groups@[j]@))
                && 0 <= k < groups@[g]@.len() && first_bad_rule(groups@[g]@, k) && (e matches Error::Filter(m) && m@
                == spec_rule_error(#[trigger] groups@[g]@[k]@)),
    {
        let mut out: Vec<FilterEvaluator> = Vec::new();
        let mut g: usize = 0;
        while g < groups.len()
            invariant
                g <= groups@.len(),
                out@.len() == g,
                forall|j: int| 0 <= j < g ==> #[trigger] all_rules_parse(groups@[j]@),
                forall|j: int| 0 <= j < g ==> evaluator_parsed_from(#[trigger] out@[j], groups@[j]@),
            decreases groups@.len() - g,
        {
            let e = match FilterEvaluator::parse(groups[g].as_slice()) {
                Ok(e) => e,
                Err(err) => {
                    assert(!all_rules_parse(groups@[g as int]@));
                    let ghost k = choose|k: int| 0 <= k < groups@[g as int]@.len() && first_bad_rule(groups@[g as int]@, k) && (
                        err matches Error::Filter(m) && m@ == spec_rule_error(#[trigger] groups@[g as int]@[k]@));
                    assert(0 <= g < groups@.len() && (forall|j: int| 0 <= j < g ==> #[trigger] all_rules_parse(groups@[j]@))
                        && 0 <= k < groups@[g as int]@.len() && first_bad_rule(groups@[g as int]@, k) && (err matches Error::Filter(m) && m@
                        == spec_rule_error(groups@[g as int]@[k]@)));
                    return Err(err);
                },
            };
            out.push(e);
            g = g + 1;
        }
        Ok(FilterGroups { groups: out })
    }

    /// Whether the identity passes: no groups, or some group accepts it.
    pub fn matches(&self, identity: &Identity) -> (b: bool)
        ensures
            b == self.spec_matches(identity@),
    {
        if self.groups.len() == 0 {
            return true;
        }
        let mut g: usize = 0;
        while g < self.groups.len()
            invariant
                g <= self.groups@.len(),
                forall|j: int| 0 <= j < g ==> !(#[trigger] self.groups@[j].spec_matches(identity@)),
            decreases self.groups@.len() - g,
        {
            if self.groups[g].matches(identity) {
                assert(self.spec_groups()[g as int].spec_matches(identity@));
                return true;
            }
            g = g + 1;
        }
        assert forall|j: int| 0 <= j < self.spec_groups().len() implies !(#[trigger] self.spec_groups()[j].spec_matches(identity@)) by {
            assert(self.spec_groups()[j] == self.groups@[j]);
        }
        false
    }

    /// The identities that pass, in the order given.
    pub fn filter_identities(&self, identities: Vec<Identity>) -> (r: Vec<Identity>)
        ensures
            identities_view(r@) == self.spec_accepted(identities_view(identities@)),
    {
        let ghost all = identities_view(identities@);
        let ghost pred = |id: SpecIdentity| self.spec_matches(id);
        let mut out: Vec<Identity> = Vec::new();
        let mut i: usize = 0;
        while i < identities.len()
            invariant
                i <= identities@.len(),
                all == identities_view(identities@),
                pred == (|id: SpecIdentity| self.spec_matches(id)),
                identities_view(out@) == all.take(i as int).filter(pred),
            decreases identities@.len() - i,
        {
            proof {
                reveal_with_fuel(Seq::<_>::filter, 1);
                assert(all.take(i + 1).drop_last() =~= all.take(i as int));
                assert(all.take(i + 1).last() == identities@[i as int]@);
            }
            if self.matches(&identities[i]) {
                let ghost before = identities_view(out@);
                out.push(identities[i].clone());
                assert(identities_view(out@) =~= before.push(identities@[i as int]@));
            }
            i = i + 1;
        }
        assert(all.take(identities@.len() as int) =~= all);
        out
    }

    /// The groups, for inspection and for finding what must be loaded.
    pub fn groups(&self) -> (r: &[FilterEvaluator])
        ensures
            r@ == self.spec_groups(),
    {
        self.groups.as_slice()
    }

    /// The number of groups.
    pub fn len(&self) -> (n: usize)
        ensures
            n == self.spec_groups().len(),
    {
        self.groups.len()
    }

    /// Whether there are no groups.
    pub fn is_empty(&self) -> (b: bool)
        ensures
            b == (self.spec_groups().len() == 0),
    {
        self.groups.len() == 0
    }

    /// Hands the text of a key file to rule `index` of group `group`;
    /// every other rule and group stays as it is.
    pub fn apply_keyfile(&mut self, group: usize, index: usize, contents: &str)
        ensures
            final(self).spec_groups().len() == old(self).spec_groups().len(),
            forall|g: int| 0 <= g < old(self).spec_groups().len() && g != group ==> #[trigger] final(self).spec_groups()[g] == old(self).spec_groups()[g],
            group < old(self).spec_groups().len() ==> evaluator_keyfile_applied(
                old(self).spec_groups()[group as int],
                final(self).spec_groups()[group as int],
                index as int,
                contents@,
            ),
    {
        if group >= self.groups.len() {
            return;
        }
        let mut e = self.groups.remove(group);
        e.apply_keyfile(index, contents);
        self.groups.insert(group, e);
        assert forall|g: int| 0 <= g < old(self).spec_groups().len() && g != group implies #[trigger] self.spec_groups()[g] == old(self).spec_groups()[g] by {
            if g < group {
            } else {
            }
        }
    }

    /// Hands GitHub keys fetched at time `now` to rule `index` of group
    /// `group`; every other rule and group stays as it is.
    pub fn apply_github(&mut self, group: usize, index: usize, text: &str, now: u64)
        ensures
            final(self).spec_groups().len() == old(self).spec_groups().len(),
            forall|g: int| 0 <= g < old(self).spec_groups().len() && g != group ==> #[trigger] final(self).spec_groups()[g] == old(self).spec_groups()[g],
            group < old(self).spec_groups().len() ==> evaluator_github_applied(
                old(self).spec_groups()[group as int],
                final(self).spec_groups()[group as int],
                index as int,
                text@,
                now,
            ),
    {
        if group >= self.groups.len() {
            return;
        }
        let mut e = self.groups.remove(group);
        e.apply_github(index, text, now);
        self.groups.insert(group, e);
        assert forall|g: int| 0 <= g < old(self).spec_groups().len() && g != group implies #[trigger] self.spec_groups()[g] == old(self).spec_groups()[g] by {
            if g < group {
            } else {
            }
        }
    }
}

impl Default for FilterGroups {
    fn default() -> (f: FilterGroups)
        ensures
            f.spec_groups() == Seq::<FilterEvaluator>::empty(),
    {
        FilterGroups { groups: Vec::new() }
    }
}

/// Without groups, every key passes.
pub proof fn lemma_no_groups_accept_all(f: FilterGroups, id: SpecIdentity)
    requires
        f.spec_groups().len() == 0,
    ensures
        f.spec_matches(id),
{
}

/// One group decides exactly as its evaluator does.
pub proof fn lemma_single_group_same(e: FilterEvaluator, f: FilterGroups, id: SpecIdentity)
    requires
        f.spec_groups() == seq![e],
    ensures
        f.spec_matches(id) == e.spec_matches(id),
{
    if e.spec_matches(id) {
        assert(f.spec_groups()[0].spec_matches(id));
    }
}

/// A key that some group accepts passes, and a key that passes is
/// accepted by some group, when there is any group.
pub proof fn lemma_groups_are_alternatives(f: FilterGroups, g: int, id: SpecIdentity)
    requires
        0 <= g < f.spec_groups().len(),
    ensures
        f.spec_groups()[g].spec_matches(id) ==> f.spec_matches(id),
        f.spec_matches(id) ==> exists|h: int| 0 <= h < f.spec_groups().len() && #[trigger] f.spec_groups()[h].spec_matches(id),
{
}

/// Filtering keeps only passing keys, keeps every passing key, and keeps
/// their order: the result is a subsequence of the input.
pub proof fn lemma_groups_filter_sound_complete(f: FilterGroups, ids: Seq<SpecIdentity>)
    ensures
        forall|i: int| 0 <= i < f.spec_accepted(ids).len() ==> f.spec_matches(
            #[trigger] f.spec_accepted(ids)[i],
        ),
        forall|x: SpecIdentity| ids.contains(x) && f.spec_matches(x) ==> #[trigger] f.spec_accepted(
            ids,
        ).contains(x),
        f.spec_accepted(ids).len() <= ids.len(),
{
    broadcast use vstd::seq_lib::group_filter_ensures;

    let pred = |id: SpecIdentity| f.spec_matches(id);
    assert forall|x: SpecIdentity| ids.contains(x) && f.spec_matches(x) implies #[trigger] f.spec_accepted(
        ids,
    ).contains(x) by {
        let k = choose|k: int| 0 <= k < ids.len() && ids[k] == x;
        ids.lemma_filter_contains(pred, k);
    }
}

} // verus!
