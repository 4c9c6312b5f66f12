//! Evaluating a set of filter rules: a key passes when every rule accepts it.

use vstd::prelude::*;
use crate::error::Error;
use crate::filter::pubkey::key_text_blobs;
use crate::filter::rule::{spec_parse_rule, spec_rule_error, Filter, FilterRule};
use crate::protocol::message::{identities_view, Identity, SpecIdentity};

verus! {

/// Key data that must be fetched before some rules can match.
#[derive(Debug)]
pub enum LoadRequest {
    /// Read the key file at `path` for the rule at `index`.
    Keyfile {
        /// Index of the rule.
        index: usize,
        /// Path of the key file.
        path: String,
    },
    /// Fetch the keys of GitHub user `username` for the rule at `index`.
    GitHub {
        /// Index of the rule.
        index: usize,
        /// The GitHub user name.
        username: String,
        /// Where the keys are fetched from.
        url: String,
    },
}

/// The rule at `i` needs loading at time `now`: key files always; GitHub
/// keys when `refresh` is asked or the cache is stale.
pub open spec fn rule_needs_load(rule: FilterRule, now: u64, refresh: bool) -> bool {
    match rule.filter {
        Filter::Keyfile(_) => true,
        Filter::GitHub(m) => refresh || !crate::filter::github::cache_fresh(
            m.spec_cache_time(),
            m.spec_cache_ttl(),
            now,
        ),
        _ => false,
    }
}

/// The indices, in order, of the rules among `rules` that need loading.
pub open spec fn pending_indices(rules: Seq<FilterRule>, now: u64, refresh: bool) -> Seq<int>
    decreases rules.len(),
{
    if rules.len() == 0 {
        Seq::empty()
    } else {
        let prev = pending_indices(rules.drop_last(), now, refresh);
        if rule_needs_load(rules.last(), now, refresh) {
            prev.push(rules.len() - 1)
        } else {
            prev
        }
    }
}

/// A load request asks for what the rule at its index needs.
pub open spec fn request_fits_rule(req: LoadRequest, rules: Seq<FilterRule>) -> bool {
    match req {
        LoadRequest::Keyfile { index, path } => index < rules.len() && match rules[index as int].filter {
            Filter::Keyfile(m) => path@ == m.spec_path(),
            _ => false,
        },
        LoadRequest::GitHub { index, username, url } => index < rules.len() && match rules[index as int].filter {
            Filter::GitHub(m) => username@ == m.spec_username() && url@ == "https://github.com/"@
                + m.spec_username() + ".keys"@,
            _ => false,
        },
    }
}

/// The text at `k` is the first of `strs` that is not a filter rule.
pub open spec fn first_bad_rule(strs: Seq<String>, k: int) -> bool {
    &&& spec_parse_rule(strs[k]@) is None
    &&& forall|j: int| 0 <= j < k ==> #[trigger] spec_parse_rule(strs[j]@) is Some
}

/// `rule` is what parsing the text `s` makes.
pub open spec fn rule_parsed_from(rule: FilterRule, s: Seq<char>) -> bool {
    match spec_parse_rule(s) {
        Some((neg, k, a)) => rule.spec_built_from(neg, k, a),
        None => false,
    }
}

/// `new` is `old` with a key file's text loaded, when `old` is a key file
/// rule, and `old` unchanged otherwise.
pub open spec fn keyfile_applied(old: FilterRule, new: FilterRule, contents: Seq<char>) -> bool {
    match old.filter {
        Filter::Keyfile(m) => new.negated == old.negated && match new.filter {
            Filter::Keyfile(m2) => m2.spec_path() == m.spec_path() && m2.spec_keys()
                == key_text_blobs(contents, true),
            _ => false,
        },
        _ => new == old,
    }
}

/// `new` is `old` with fetched GitHub keys loaded at time `now`, when `old`
/// is a GitHub rule, and `old` unchanged otherwise.
pub open spec fn github_applied(old: FilterRule, new: FilterRule, text: Seq<char>, now: u64) -> bool {
    match old.filter {
        Filter::GitHub(m) => new.negated == old.negated && match new.filter {
            Filter::GitHub(m2) => m2.spec_username() == m.spec_username() && m2.spec_cache_ttl()
                == m.spec_cache_ttl() && m2.spec_keys() == key_text_blobs(text, false)
                && m2.spec_cache_time() == Some(now),
            _ => false,
        },
        _ => new == old,
    }
}

/// The rule index a load request is for.
pub open spec fn request_index(req: LoadRequest) -> int {
    match req {
        LoadRequest::Keyfile { index, .. } => index as int,
        LoadRequest::GitHub { index, .. } => index as int,
    }
}

/// Evaluator for a set of filter rules (ANDed together).
#[derive(Debug)]
pub struct FilterEvaluator {
    rules: Vec<FilterRule>,
}

impl FilterEvaluator {
    /// The rules, in order.
    pub closed spec fn spec_rules(&self) -> Seq<FilterRule> {
        self.rules@
    }

    /// Every rule accepts the identity (so an evaluator without rules
    /// accepts every identity).
    pub open spec fn spec_matches(&self, id: SpecIdentity) -> bool {
        forall|i: int| 0 <= i < self.spec_rules().len() ==> #[trigger] self.spec_rules()[i].spec_matches(id)
    }

    /// The identities among `ids` that every rule accepts, in order.
    pub open spec fn spec_accepted(&self, ids: Seq<SpecIdentity>) -> Seq<SpecIdentity> {
        ids.filter(|id: SpecIdentity| self.spec_matches(id))
    }

    /// Creates an evaluator from rules.
    pub fn new(rules: Vec<FilterRule>) -> (e: FilterEvaluator)
        ensures
            e.spec_rules() == rules@,
    {
        FilterEvaluator { rules }
    }

    /// Parses filter strings into an evaluator; fails when any string is
    /// not a filter rule.
    pub fn parse(filter_strs: &[String]) -> (r: Result<FilterEvaluator, Error>)
        ensures
            r is Ok <==> forall|i: int| 0 <= i < filter_strs@.len() ==> #[trigger] spec_parse_rule(filter_strs@[i]@) is Some,
            r matches Ok(e) ==> e.spec_rules().len() == filter_strs@.len() && forall|i: int|
                0 <= i < filter_strs@.len() ==> rule_parsed_from(#[trigger] e.spec_rules()[i], filter_strs@[i]@),
            r matches Err(e) ==> exists|k: int| 0 <= k < filter_strs@.len() && first_bad_rule(filter_strs@, k) && (
            e matches Error::Filter(m) && m@ == spec_rule_error(#[trigger] filter_strs@[k]@)),
    {
        let mut rules: Vec<FilterRule> = Vec::new();
        let mut i: usize = 0;
        while i < filter_strs.len()
            invariant
                i <= filter_strs@.len(),
                rules@.len() == i,
                forall|j: int| 0 <= j < i ==> #[trigger] spec_parse_rule(filter_strs@[j]@) is Some,
                forall|j: int| 0 <= j < i ==> rule_parsed_from(#[trigger] rules@[j], filter_strs@[j]@),
            decreases filter_strs@.len() - i,
        {
            let rule = match FilterRule::parse(filter_strs[i].as_str()) {
                Ok(rule) => rule,
                Err(e) => {
                    assert(first_bad_rule(filter_strs@, i as int));
                    return Err(e);
                },
            };
            rules.push(rule);
            i = i + 1;
        }
        Ok(FilterEvaluator { rules })
    }

    /// Whether all rules match the identity (AND); true when there are no rules.
    pub fn matches(&self, identity: &Identity) -> (b: bool)
        ensures
            b == self.spec_matches(identity@),
    {
        if self.rules.len() == 0 {
            return true;
        }
        let mut i: usize = 0;
        while i < self.rules.len()
            invariant
                i <= self.rules@.len(),
                forall|j: int| 0 <= j < i ==> #[trigger] self.rules@[j].spec_matches(identity@),
            decreases self.rules@.len() - i,
        {
            if !self.rules[i].matches(identity) {
                assert(!self.spec_rules()[i as int].spec_matches(identity@));
                return false;
            }
            i = i + 1;
        }
        true
    }

    /// The identities that all rules accept, in the order given.
    pub fn filter_identities(&self, identities: Vec<Identity>) -> (r: Vec<Identity>)
        ensures
            identities_view(r@) == self.spec_accepted(identities_view(identities@)),
    {
        let ghost all = identities_view(identities@);
        let ghost pred = |id: SpecIdentity| self.spec_matches(id);
        let mut out: Vec<Identity> = Vec::new();
        let mut i: usize = 0;
        while i < identities.len()
            invariant
                i <= identities@.len(),
                all == identities_view(identities@),
                pred == (|id: SpecIdentity| self.spec_matches(id)),
                identities_view(out@) == all.take(i as int).filter(pred),
            decreases identities@.len() - i,
        {
            proof {
                reveal_with_fuel(Seq::<_>::filter, 1);
                assert(all.take(i + 1).drop_last() =~= all.take(i as int));
                assert(all.take(i + 1).last() == identities@[i as int]@);
            }
            if self.matches(&identities[i]) {
                let ghost before = identities_view(out@);
                out.push(identities[i].clone());
                assert(identities_view(out@) =~= before.push(identities@[i as int]@));
            }
            i = i + 1;
        }
        assert(all.take(identities@.len() as int) =~= all);
        out
    }

    /// The number of rules.
    pub fn len(&self) -> (n: usize)
        ensures
            n == self.spec_rules().len(),
    {
        self.rules.len()
    }

    /// Whether there are no rules.
    pub fn is_empty(&self) -> (b: bool)
        ensures
            b == (self.spec_rules().len() == 0),
    {
        self.rules.len() == 0
    }

    /// The rules, for inspection.
    pub fn rules(&self) -> (r: &[FilterRule])
        ensures
            r@ == self.spec_rules(),
    {
        self.rules.as_slice()
    }

    /// Descriptions of all rules, in order.
    pub fn descriptions(&self) -> (r: Vec<String>)
        ensures
            r@.len() == self.spec_rules().len(),
            forall|i: int| 0 <= i < r@.len() ==> #[trigger] r@[i]@ == self.spec_rules()[i].spec_description(),
    {
        let mut out: Vec<String> = Vec::new();
        let mut i: usize = 0;
        while i < self.rules.len()
            invariant
                i <= self.rules@.len(),
                out@.len() == i,
                forall|j: int| 0 <= j < i ==> #[trigger] out@[j]@ == self.rules@[j].spec_description(),
            decreases self.rules@.len() - i,
        {
            out.push(self.rules[i].description());
            i = i + 1;
        }
        out
    }

    /// What must be loaded at time `now` before matching: every key file,
    /// and the keys of each GitHub user whose cache is stale (all of them
    /// when `refresh`).
    pub fn pending_loads(&self, now: u64, refresh: bool) -> (r: Vec<LoadRequest>)
        ensures
            r@.len() == pending_indices(self.spec_rules(), now, refresh).len(),
            forall|i: int| 0 <= i < r@.len() ==> request_index(#[trigger] r@[i]) == pending_indices(
                self.spec_rules(),
                now,
                refresh,
            )[i] && request_fits_rule(r@[i], self.spec_rules()),
    {
        let ghost rules = self.rules@;
        let mut out: Vec<LoadRequest> = Vec::new();
        let mut i: usize = 0;
        while i < self.rules.len()
            invariant
                i <= rules.len(),
                rules == self.rules@,
                out@.len() == pending_indices(rules.take(i as int), now, refresh).len(),
                forall|j: int| 0 <= j < out@.len() ==> request_index(#[trigger] out@[j])
                    == pending_indices(rules.take(i as int), now, refresh)[j] && request_fits_rule(
                    out@[j],
                    rules,
                ),
            decreases rules.len() - i,
        {
            proof {
                assert(rules.take(i + 1).drop_last() =~= rules.take(i as int));
                assert(rules.take(i + 1).last() == rules[i as int]);
            }
            match &self.rules[i].filter {
                Filter::Keyfile(m) => {
                    out.push(LoadRequest::Keyfile { index: i, path: m.path().to_string() });
                },
                Filter::GitHub(m) => {
                    if refresh || !m.is_cache_valid(now) {
                        out.push(
                            LoadRequest::GitHub {
                                index: i,
                                username: m.username().to_string(),
                                url: m.keys_url(),
                            },
                        );
                    }
                },
                _ => {},
            }
            i = i + 1;
        }
        assert(rules.take(rules.len() as int) =~= rules);
        out
    }

    /// Hands the text of a key file to the rule at `index`, when that rule
    /// is a key file rule; other rules stay as they are.
    pub fn apply_keyfile(&mut self, index: usize, contents: &str)
        ensures
            final(self).spec_rules().len() == old(self).spec_rules().len(),
            forall|i: int| 0 <= i < old(self).spec_rules().len() && i != index ==> #[trigger] final(self).spec_rules()[i] == old(self).spec_rules()[i],
            index < old(self).spec_rules().len() ==> keyfile_applied(
                old(self).spec_rules()[index as int],
                final(self).spec_rules()[index as int],
                contents@,
            ),
    {
        if index >= self.rules.len() {
            return;
        }
        let mut rule = self.rules.remove(index);
        match &mut rule.filter {
            Filter::Keyfile(m) => {
                m.load(contents);
            },
            _ => {},
        }
        self.rules.insert(index, rule);
        assert forall|i: int| 0 <= i < old(self).spec_rules().len() && i != index implies #[trigger] self.spec_rules()[i] == old(self).spec_rules()[i] by {
            if i < index {
            } else {
            }
        }
    }

    /// Hands fetched GitHub keys (fetched at time `now`) to the rule at
    /// `index`, when that rule is a GitHub rule; other rules stay as they are.
    pub fn apply_github(&mut self, index: usize, text: &str, now: u64)
        ensures
            final(self).spec_rules().len() == old(self).spec_rules().len(),
            forall|i: int| 0 <= i < old(self).spec_rules().len() && i != index ==> #[trigger] final(self).spec_rules()[i] == old(self).spec_rules()[i],
            index < old(self).spec_rules().len() ==> github_applied(
                old(self).spec_rules()[index as int],
                final(self).spec_rules()[index as int],
                text@,
                now,
            ),
    {
        if index >= self.rules.len() {
            return;
        }
        let mut rule = self.rules.remove(index);
        match &mut rule.filter {
            Filter::GitHub(m) => {
                m.load_keys(text, now);
            },
            _ => {},
        }
        self.rules.insert(index, rule);
        assert forall|i: int| 0 <= i < old(self).spec_rules().len() && i != index implies #[trigger] self.spec_rules()[i] == old(self).spec_rules()[i] by {
            if i < index {
            } else {
            }
        }
    }
}

impl Default for FilterEvaluator {
    fn default() -> (e: FilterEvaluator)
        ensures
            e.spec_rules() == Seq::<FilterRule>::empty(),
    {
        FilterEvaluator { rules: Vec::new() }
    }
}

/// An evaluator without rules lets every key through.
pub proof fn lemma_no_rules_accept_all(e: FilterEvaluator, id: SpecIdentity)
    requires
        e.spec_rules().len() == 0,
    ensures
        e.spec_matches(id),
{
}

/// A negated rule accepts exactly the keys its filter rejects.
pub proof fn lemma_negation_complements(rule: FilterRule, id: SpecIdentity)
    requires
        rule.negated,
    ensures
        rule.spec_matches(id) == !rule.filter.spec_matches(id),
{
}

/// Filtering keeps only accepted keys, keeps every accepted key, and keeps
/// their order: the result is a subsequence of the input.
pub proof fn lemma_filter_sound_complete(e: FilterEvaluator, ids: Seq<SpecIdentity>)
    ensures
        forall|i: int| 0 <= i < e.spec_accepted(ids).len() ==> e.spec_matches(
            #[trigger] e.spec_accepted(ids)[i],
        ),
        forall|x: SpecIdentity| ids.contains(x) && e.spec_matches(x) ==> #[trigger] e.spec_accepted(
            ids,
        ).contains(x),
        e.spec_accepted(ids).len() <= ids.len(),
{
    broadcast use vstd::seq_lib::group_filter_ensures;

    let pred = |id: SpecIdentity| e.spec_matches(id);
    assert forall|x: SpecIdentity| ids.contains(x) && e.spec_matches(x) implies #[trigger] e.spec_accepted(
        ids,
    ).contains(x) by {
        let k = choose|k: int| 0 <= k < ids.len() && ids[k] == x;
        ids.lemma_filter_contains(pred, k);
    }
}

} // verus!
