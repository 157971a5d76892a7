//! The delegation ledger: fractional, time-bounded delegations of voting
//! weight, kept in two mutually consistent indexes.
//!
//! Per delegator the ledger stores an ordered list of [`Delegation`]
//! records; per delegatee it stores the fraction each delegator currently
//! routes to it. Expired entries are cleaned up lazily: only a mutating call
//! by the same delegator removes them, and only together with a successful
//! outcome. Every mutating operation either fails with a
//! [`DelegationError`] and leaves both indexes untouched, or commits and
//! returns the event record describing the mutation. The caller supplies
//! the current time and is responsible for authorization and for publishing
//! the returned events.

use vstd::prelude::*;
use crate::decimal::Decimal;
use crate::decimal::DECIMAL_ONE;
use crate::delegation_model::distinct_delegatees;
use crate::delegation_model::entry_in;
use crate::delegation_model::expired_others;
use crate::delegation_model::expired_targets;
use crate::delegation_model::fractions_in_range;
use crate::delegation_model::has_delegatee;
use crate::delegation_model::keep_valid_others;
use crate::delegation_model::lemma_entry_in_at;
use crate::delegation_model::lemma_entry_in_index;
use crate::delegation_model::lemma_expired_others;
use crate::delegation_model::lemma_expired_targets;
use crate::delegation_model::lemma_keep_valid_others;
use crate::delegation_model::lemma_sum_push;
use crate::delegation_model::lemma_sum_take_le;
use crate::delegation_model::lemma_valid_entries_sum;
use crate::delegation_model::sum_fractions;
use crate::delegation_model::valid_entries;
use crate::types::AccountId;
use crate::types::Delegation;
use crate::types::DelegationCreatedEvent;
use crate::types::DelegationError;
use crate::types::DelegationRemovedEvent;
use crate::types::MAX_DELEGATIONS;
use crate::types::MIN_DELEGATION_FRACTION;
use std::collections::HashMap;

verus! {

/// Model of the delegation ledger: the two indexes as maps.
#[verifier::ext_equal]
pub struct VoteDelegationModel {
    /// The owner credential fixed at instantiation.
    pub owner_badge: u64,
    /// By-delegator index: each delegator's ordered delegation list.
    pub delegators: Map<AccountId, Seq<Delegation>>,
    /// By-delegatee index: for each delegatee, the fraction each delegator
    /// routes to it.
    pub delegatees: Map<AccountId, Map<AccountId, Decimal>>,
}

/// One delegator's list is well formed: at most the maximum number of
/// entries, no self-delegation, pairwise distinct delegatees, every fraction
/// within bounds, and all fractions summing to at most 1.
pub open spec fn delegator_list_inv(s: Seq<Delegation>, delegator: AccountId) -> bool {
    &&& s.len() <= MAX_DELEGATIONS
    &&& forall|i: int| 0 <= i < s.len() ==> (#[trigger] s[i]).delegatee != delegator
    &&& distinct_delegatees(s)
    &&& fractions_in_range(s, MIN_DELEGATION_FRACTION, DECIMAL_ONE)
    &&& sum_fractions(s) <= DECIMAL_ONE
}

impl VoteDelegationModel {
    /// The stored delegation list of `delegator`; empty if the account has
    /// no record.
    pub open spec fn delegations_of(self, delegator: AccountId) -> Seq<Delegation> {
        if self.delegators.contains_key(delegator) {
            self.delegators[delegator]
        } else {
            Seq::empty()
        }
    }

    /// Whether `delegator` has a record on file, even an empty one.
    pub open spec fn has_record(self, delegator: AccountId) -> bool {
        self.delegators.contains_key(delegator)
    }

    /// The fraction the by-delegatee index holds for the pair, if any.
    pub open spec fn delegated_fraction(self, delegatee: AccountId, delegator: AccountId) -> Option<
        Decimal,
    > {
        if self.delegatees.contains_key(delegatee) && self.delegatees[delegatee].contains_key(
            delegator,
        ) {
            Some(self.delegatees[delegatee][delegator])
        } else {
            None
        }
    }

    /// Well-formedness of the whole ledger: every stored list is well
    /// formed, and the two indexes agree — the by-delegatee index holds a
    /// pair exactly when the delegator's list has an entry aimed at the
    /// delegatee, with the same fraction. Expired entries count too: they
    /// stay in both indexes until the delegator's next mutating call.
    pub open spec fn inv(self) -> bool {
        &&& forall|d: AccountId|
            self.delegators.contains_key(d) ==> delegator_list_inv(
                #[trigger] self.delegators[d],
                d,
            )
        &&& forall|d: AccountId, i: int|
            self.delegators.contains_key(d) && 0 <= i < self.delegators[d].len() ==> {
                let ent = #[trigger] self.delegators[d][i];
                &&& self.delegatees.contains_key(ent.delegatee)
                &&& self.delegatees[ent.delegatee].contains_key(d)
                &&& self.delegatees[ent.delegatee][d] == ent.fraction
            }
        &&& forall|e: AccountId, d: AccountId|
            self.delegatees.contains_key(e) && #[trigger] self.delegatees[e].contains_key(d)
                ==> self.delegators.contains_key(d) && has_delegatee(self.delegators[d], e)
    }
}

/// One of the first `k` elements equals `e`.
spec fn in_prefix(s: Seq<AccountId>, k: int, e: AccountId) -> bool {
    exists|j: int| 0 <= j < k && s[j] == e
}

/// Whether a delegation call is accepted, or the first reason, in checking
/// order, why not. The allocation check counts only the entries a
/// successful call would retain: entries still valid and not aimed at the
/// same delegatee.
pub open spec fn make_delegation_outcome(
    m: VoteDelegationModel,
    delegator: AccountId,
    delegatee: AccountId,
    fraction: Decimal,
    valid_until: i64,
    now: i64,
) -> Result<(), DelegationError> {
    if fraction.attos < MIN_DELEGATION_FRACTION || fraction.attos > DECIMAL_ONE {
        Result::Err(DelegationError::InvalidFraction)
    } else if delegator == delegatee {
        Result::Err(DelegationError::SelfDelegation)
    } else if valid_until <= now {
        Result::Err(DelegationError::InvalidExpiry)
    } else {
        let kept = keep_valid_others(m.delegations_of(delegator), delegatee, now);
        if sum_fractions(kept) + fraction.attos > DECIMAL_ONE {
            Result::Err(DelegationError::AllocationExceeded)
        } else if kept.len() + 1 > MAX_DELEGATIONS {
            Result::Err(DelegationError::TooManyDelegations)
        } else {
            Result::Ok(())
        }
    }
}

/// Whether a removal call is accepted, or why not. An expired entry aimed
/// at the delegatee still counts as found.
pub open spec fn remove_delegation_outcome(
    m: VoteDelegationModel,
    delegator: AccountId,
    delegatee: AccountId,
) -> Result<(), DelegationError> {
    if !m.delegators.contains_key(delegator) {
        Result::Err(DelegationError::NotFound)
    } else if !has_delegatee(m.delegators[delegator], delegatee) {
        Result::Err(DelegationError::DelegationNotFound)
    } else {
        Result::Ok(())
    }
}

/// A successful delegation call leaves the ledger well formed. `m0` is the
/// state before the call, `m1` the state after the commit: the delegator's
/// list replaced by the retained entries plus the new one, the expired
/// delegatees' index pairs removed, and the new pair recorded.
proof fn lemma_make_commit_inv(
    m0: VoteDelegationModel,
    m1: VoteDelegationModel,
    delegator: AccountId,
    delegatee: AccountId,
    fraction: Decimal,
    valid_until: i64,
    now: i64,
)
    requires
        m0.inv(),
        MIN_DELEGATION_FRACTION <= fraction.attos <= DECIMAL_ONE,
        delegator != delegatee,
        valid_until > now,
        sum_fractions(keep_valid_others(m0.delegations_of(delegator), delegatee, now))
            + fraction.attos <= DECIMAL_ONE,
        keep_valid_others(m0.delegations_of(delegator), delegatee, now).len() + 1
            <= MAX_DELEGATIONS,
        m1.delegators == m0.delegators.insert(
            delegator,
            keep_valid_others(m0.delegations_of(delegator), delegatee, now).push(
                Delegation { delegatee, fraction, valid_until },
            ),
        ),
        forall|e: AccountId|
            #[trigger] m1.delegatees.contains_key(e) == (m0.delegatees.contains_key(e) || e
                == delegatee),
        m1.delegatees[delegatee] == (if m0.delegatees.contains_key(delegatee) {
            if expired_targets(m0.delegations_of(delegator), now).contains(delegatee) {
                m0.delegatees[delegatee].remove(delegator)
            } else {
                m0.delegatees[delegatee]
            }
        } else {
            Map::empty()
        }).insert(delegator, fraction),
        forall|e: AccountId|
            e != delegatee && m0.delegatees.contains_key(e) ==> #[trigger] m1.delegatees[e] == (
            if expired_targets(m0.delegations_of(delegator), now).contains(e) {
                m0.delegatees[e].remove(delegator)
            } else {
                m0.delegatees[e]
            }),
    ensures
        m1.inv(),
{
    let list0 = m0.delegations_of(delegator);
    let kept = keep_valid_others(list0, delegatee, now);
    let newent = Delegation { delegatee, fraction, valid_until };
    let newlist = kept.push(newent);
    let ex_set = expired_targets(list0, now);
    assert(distinct_delegatees(list0)) by {
        if m0.delegators.contains_key(delegator) {
            assert(delegator_list_inv(m0.delegators[delegator], delegator));
        }
    }
    lemma_keep_valid_others(list0, delegatee, now);
    lemma_expired_targets(list0, now);
    lemma_sum_push(kept, newent);

    // Each stored list is well formed.
    assert forall|d: AccountId| m1.delegators.contains_key(d) implies delegator_list_inv(
        #[trigger] m1.delegators[d],
        d,
    ) by {
        if d == delegator {
            assert(m1.delegators[d] == newlist);
            assert forall|i: int| 0 <= i < newlist.len() implies (#[trigger] newlist[i]).delegatee
                != d by {
                if i < kept.len() {
                    assert(newlist[i] == kept[i]);
                    let i0 = choose|i0: int| 0 <= i0 < list0.len() && list0[i0] == kept[i];
                    assert(m0.delegators[delegator][i0] == list0[i0]);
                }
            }
            assert forall|i: int, j: int| 0 <= i < j < newlist.len() implies newlist[i].delegatee
                != newlist[j].delegatee by {
                if j < kept.len() {
                    assert(newlist[i] == kept[i] && newlist[j] == kept[j]);
                } else {
                    assert(newlist[j] == newent);
                    assert(newlist[i] == kept[i]);
                }
            }
            assert forall|i: int| 0 <= i < newlist.len() implies MIN_DELEGATION_FRACTION <= (
            #[trigger] newlist[i]).fraction.attos <= DECIMAL_ONE by {
                if i < kept.len() {
                    assert(newlist[i] == kept[i]);
                    let i0 = choose|i0: int| 0 <= i0 < list0.len() && list0[i0] == kept[i];
                    assert(fractions_in_range(list0, MIN_DELEGATION_FRACTION, DECIMAL_ONE));
                    assert(list0[i0] == kept[i]);
                } else {
                    assert(newlist[i] == newent);
                }
            }
            assert(delegator_list_inv(newlist, d));
        } else {
            assert(m1.delegators[d] == m0.delegators[d]);
            assert(delegator_list_inv(m0.delegators[d], d));
        }
    }

    // Every list entry has its index pair, with the same fraction.
    assert forall|d: AccountId, i: int|
        m1.delegators.contains_key(d) && 0 <= i < m1.delegators[d].len() implies {
        let ent = #[trigger] m1.delegators[d][i];
        &&& m1.delegatees.contains_key(ent.delegatee)
        &&& m1.delegatees[ent.delegatee].contains_key(d)
        &&& m1.delegatees[ent.delegatee][d] == ent.fraction
    } by {
        if d == delegator {
            let ent = m1.delegators[d][i];
            if i == kept.len() {
                assert(ent == newent);
            } else {
                assert(ent == kept[i]);
                assert(ent.valid_until > now && ent.delegatee != delegatee);
                let i0 = choose|i0: int| 0 <= i0 < list0.len() && list0[i0] == ent;
                assert(m0.delegators[delegator][i0] == ent);
                assert(m0.delegatees.contains_key(ent.delegatee));
                assert(m0.delegatees[ent.delegatee].contains_key(delegator));
                assert(m0.delegatees[ent.delegatee][delegator] == ent.fraction);
                lemma_entry_in_at(list0, i0);
                assert(!ex_set.contains(ent.delegatee));
                assert(m1.delegatees[ent.delegatee] == m0.delegatees[ent.delegatee]);
            }
        } else {
            let ent = m1.delegators[d][i];
            assert(m1.delegators[d] == m0.delegators[d]);
            assert(m0.delegators[d][i] == ent);
            assert(m0.delegatees.contains_key(ent.delegatee));
            assert(m0.delegatees[ent.delegatee].contains_key(d));
            assert(m0.delegatees[ent.delegatee][d] == ent.fraction);
            if ent.delegatee == delegatee {
                assert(m1.delegatees[delegatee].contains_key(d));
                assert(m1.delegatees[delegatee][d] == ent.fraction);
            } else {
                if ex_set.contains(ent.delegatee) {
                    assert(m1.delegatees[ent.delegatee] == m0.delegatees[ent.delegatee].remove(
                        delegator,
                    ));
                } else {
                    assert(m1.delegatees[ent.delegatee] == m0.delegatees[ent.delegatee]);
                }
            }
        }
    }

    // Every index pair has its list entry.
    assert forall|e: AccountId, d: AccountId|
        m1.delegatees.contains_key(e) && #[trigger] m1.delegatees[e].contains_key(d) implies
        m1.delegators.contains_key(d) && has_delegatee(m1.delegators[d], e) by {
        if e == delegatee {
            if d == delegator {
                assert(newlist[kept.len() as int].delegatee == delegatee);
                assert(has_delegatee(newlist, delegatee));
            } else {
                assert(m0.delegatees.contains_key(delegatee) && m0.delegatees[
                    delegatee
                ].contains_key(d));
                assert(m0.delegators.contains_key(d) && has_delegatee(m0.delegators[d], e));
                assert(m1.delegators[d] == m0.delegators[d]);
            }
        } else {
            assert(m0.delegatees.contains_key(e));
            if ex_set.contains(e) {
                assert(m1.delegatees[e] == m0.delegatees[e].remove(delegator));
                assert(d != delegator && m0.delegatees[e].contains_key(d));
                assert(m0.delegators.contains_key(d) && has_delegatee(m0.delegators[d], e));
                assert(m1.delegators[d] == m0.delegators[d]);
            } else {
                assert(m1.delegatees[e] == m0.delegatees[e]);
                assert(m0.delegators.contains_key(d) && has_delegatee(m0.delegators[d], e));
                if d == delegator {
                    let i0 = choose|i0: int| 0 <= i0 < list0.len() && list0[i0].delegatee == e;
                    lemma_entry_in_at(list0, i0);
                    assert(entry_in(list0, e) == Some(list0[i0]));
                    assert(list0[i0].valid_until > now);
                    assert(entry_in(kept, e) == entry_in(list0, e));
                    lemma_entry_in_index(kept, e);
                    let j = choose|j: int| 0 <= j < kept.len() && kept[j].delegatee == e;
                    assert(newlist[j].delegatee == e);
                    assert(has_delegatee(newlist, e));
                } else {
                    assert(m1.delegators[d] == m0.delegators[d]);
                }
            }
        }
    }
}

/// A successful removal call leaves the ledger well formed. `m0` is the
/// state before the call, `m1` the state after the commit: the delegator's
/// list replaced by the retained entries, the expired delegatees' index
/// pairs removed, and the target pair removed unconditionally.
proof fn lemma_remove_commit_inv(
    m0: VoteDelegationModel,
    m1: VoteDelegationModel,
    delegator: AccountId,
    delegatee: AccountId,
    now: i64,
)
    requires
        m0.inv(),
        m0.delegators.contains_key(delegator),
        m1.delegators == m0.delegators.insert(
            delegator,
            keep_valid_others(m0.delegations_of(delegator), delegatee, now),
        ),
        forall|e: AccountId|
            #[trigger] m1.delegatees.contains_key(e) == m0.delegatees.contains_key(e),
        m0.delegatees.contains_key(delegatee) ==> m1.delegatees[delegatee] == m0.delegatees[
            delegatee
        ].remove(delegator),
        forall|e: AccountId|
            e != delegatee && m0.delegatees.contains_key(e) ==> #[trigger] m1.delegatees[e] == (
            if expired_others(m0.delegations_of(delegator), delegatee, now).contains(e) {
                m0.delegatees[e].remove(delegator)
            } else {
                m0.delegatees[e]
            }),
    ensures
        m1.inv(),
{
    let list0 = m0.delegations_of(delegator);
    let kept = keep_valid_others(list0, delegatee, now);
    let ex_set = expired_others(list0, delegatee, now);
    assert(distinct_delegatees(list0)) by {
        assert(delegator_list_inv(m0.delegators[delegator], delegator));
    }
    lemma_keep_valid_others(list0, delegatee, now);
    lemma_expired_others(list0, delegatee, now);

    // Each stored list is well formed.
    assert forall|d: AccountId| m1.delegators.contains_key(d) implies delegator_list_inv(
        #[trigger] m1.delegators[d],
        d,
    ) by {
        if d == delegator {
            assert(m1.delegators[d] == kept);
            assert forall|i: int| 0 <= i < kept.len() implies (#[trigger] kept[i]).delegatee
                != d by {
                let i0 = choose|i0: int| 0 <= i0 < list0.len() && list0[i0] == kept[i];
                assert(m0.delegators[delegator][i0] == list0[i0]);
            }
            assert forall|i: int| 0 <= i < kept.len() implies MIN_DELEGATION_FRACTION <= (
            #[trigger] kept[i]).fraction.attos <= DECIMAL_ONE by {
                let i0 = choose|i0: int| 0 <= i0 < list0.len() && list0[i0] == kept[i];
                assert(fractions_in_range(list0, MIN_DELEGATION_FRACTION, DECIMAL_ONE));
                assert(list0[i0] == kept[i]);
            }
            assert(delegator_list_inv(kept, d));
        } else {
            assert(m1.delegators[d] == m0.delegators[d]);
            assert(delegator_list_inv(m0.delegators[d], d));
        }
    }

    // Every list entry has its index pair, with the same fraction.
    assert forall|d: AccountId, i: int|
        m1.delegators.contains_key(d) && 0 <= i < m1.delegators[d].len() implies {
        let ent = #[trigger] m1.delegators[d][i];
        &&& m1.delegatees.contains_key(ent.delegatee)
        &&& m1.delegatees[ent.delegatee].contains_key(d)
        &&& m1.delegatees[ent.delegatee][d] == ent.fraction
    } by {
        if d == delegator {
            let ent = m1.delegators[d][i];
            assert(ent == kept[i]);
            assert(ent.valid_until > now && ent.delegatee != delegatee);
            let i0 = choose|i0: int| 0 <= i0 < list0.len() && list0[i0] == ent;
            assert(m0.delegators[delegator][i0] == ent);
            assert(m0.delegatees.contains_key(ent.delegatee));
            assert(m0.delegatees[ent.delegatee].contains_key(delegator));
            assert(m0.delegatees[ent.delegatee][delegator] == ent.fraction);
            lemma_entry_in_at(list0, i0);
            assert(!ex_set.contains(ent.delegatee));
            assert(m1.delegatees[ent.delegatee] == m0.delegatees[ent.delegatee]);
        } else {
            let ent = m1.delegators[d][i];
            assert(m1.delegators[d] == m0.delegators[d]);
            assert(m0.delegators[d][i] == ent);
            assert(m0.delegatees.contains_key(ent.delegatee));
            assert(m0.delegatees[ent.delegatee].contains_key(d));
            assert(m0.delegatees[ent.delegatee][d] == ent.fraction);
            if ent.delegatee == delegatee {
                assert(m1.delegatees[delegatee] == m0.delegatees[delegatee].remove(delegator));
            } else {
                if ex_set.contains(ent.delegatee) {
                    assert(m1.delegatees[ent.delegatee] == m0.delegatees[ent.delegatee].remove(
                        delegator,
                    ));
                } else {
                    assert(m1.delegatees[ent.delegatee] == m0.delegatees[ent.delegatee]);
                }
            }
        }
    }

    // Every index pair has its list entry.
    assert forall|e: AccountId, d: AccountId|
        m1.delegatees.contains_key(e) && #[trigger] m1.delegatees[e].contains_key(d) implies
        m1.delegators.contains_key(d) && has_delegatee(m1.delegators[d], e) by {
        assert(m0.delegatees.contains_key(e));
        if e == delegatee {
            assert(m1.delegatees[e] == m0.delegatees[e].remove(delegator));
            assert(d != delegator && m0.delegatees[e].contains_key(d));
            assert(m0.delegators.contains_key(d) && has_delegatee(m0.delegators[d], e));
            assert(m1.delegators[d] == m0.delegators[d]);
        } else {
            if ex_set.contains(e) {
                assert(m1.delegatees[e] == m0.delegatees[e].remove(delegator));
                assert(d != delegator && m0.delegatees[e].contains_key(d));
                assert(m0.delegators.contains_key(d) && has_delegatee(m0.delegators[d], e));
                assert(m1.delegators[d] == m0.delegators[d]);
            } else {
                assert(m1.delegatees[e] == m0.delegatees[e]);
                assert(m0.delegators.contains_key(d) && has_delegatee(m0.delegators[d], e));
                if d == delegator {
                    let i0 = choose|i0: int| 0 <= i0 < list0.len() && list0[i0].delegatee == e;
                    lemma_entry_in_at(list0, i0);
                    assert(entry_in(list0, e) == Some(list0[i0]));
                    assert(list0[i0].valid_until > now);
                    assert(entry_in(kept, e) == entry_in(list0, e));
                    lemma_entry_in_index(kept, e);
                } else {
                    assert(m1.delegators[d] == m0.delegators[d]);
                }
            }
        }
    }
}

/// The delegation ledger. An inner by-delegatee mapping is created lazily
/// on first use and kept once emptied: an empty inner mapping is harmless
/// and indistinguishable from an absent one through the read paths.
pub struct VoteDelegation {
    owner_badge: u64,
    delegators: HashMap<AccountId, Vec<Delegation>>,
    delegatees: HashMap<AccountId, HashMap<AccountId, Decimal>>,
}

impl View for VoteDelegation {
    type V = VoteDelegationModel;

    closed spec fn view(&self) -> VoteDelegationModel {
        VoteDelegationModel {
            owner_badge: self.owner_badge,
            delegators: self.delegators@.map_values(|v: Vec<Delegation>| v@),
            delegatees: self.delegatees@.map_values(|m: HashMap<AccountId, Decimal>| m@),
        }
    }
}

impl VoteDelegation {
    /// Creates an empty ledger owned by the given credential.
    pub fn instantiate(owner_badge: u64) -> (v: VoteDelegation)
        ensures
            v@.owner_badge == owner_badge,
            v@.delegators =~= Map::<AccountId, Seq<Delegation>>::empty(),
            v@.delegatees =~= Map::<AccountId, Map<AccountId, Decimal>>::empty(),
            v@.inv(),
    {
        let v = VoteDelegation {
            owner_badge,
            delegators: HashMap::new(),
            delegatees: HashMap::new(),
        };
        proof {
            assert(v@.delegators =~= Map::<AccountId, Seq<Delegation>>::empty());
            assert(v@.delegatees =~= Map::<AccountId, Map<AccountId, Decimal>>::empty());
        }
        v
    }

    /// Removes the pair `(ex, delegator)` from the by-delegatee index for
    /// every delegatee `ex` listed in `expired`.
    fn prune_index_pairs(&mut self, delegator: AccountId, expired: &Vec<AccountId>)
        ensures
            final(self)@.owner_badge == old(self)@.owner_badge,
            final(self)@.delegators == old(self)@.delegators,
            forall|e: AccountId|
                final(self)@.delegatees.contains_key(e) == old(self)@.delegatees.contains_key(e),
            forall|e: AccountId|
                old(self)@.delegatees.contains_key(e) && expired@.contains(e) ==> final(self)@.delegatees[e] == old(self)@.delegatees[e].remove(delegator),
            forall|e: AccountId|
                old(self)@.delegatees.contains_key(e) && !expired@.contains(e) ==> final(self)@.delegatees[e] == old(self)@.delegatees[e],
    {
        let n = expired.len();
        let mut k: usize = 0;
        while k < n
            invariant
                k <= n,
                n == expired@.len(),
                self@.owner_badge == old(self)@.owner_badge,
                self@.delegators == old(self)@.delegators,
                forall|e: AccountId|
                    self@.delegatees.contains_key(e) == old(self)@.delegatees.contains_key(e),
                forall|e: AccountId|
                    old(self)@.delegatees.contains_key(e) && in_prefix(expired@, k as int, e)
                        ==> self@.delegatees[e] == old(self)@.delegatees[e].remove(delegator),
                forall|e: AccountId|
                    old(self)@.delegatees.contains_key(e) && !in_prefix(expired@, k as int, e)
                        ==> self@.delegatees[e] == old(self)@.delegatees[e],
            decreases n - k,
        {
            let ex = expired[k];
            let ghost pre = self@.delegatees;
            match self.delegatees.remove(&ex) {
                Some(inner_map) => {
                    let mut inner = inner_map;
                    inner.remove(&delegator);
                    self.delegatees.insert(ex, inner);
                    proof {
                        assert(self@.delegatees =~= pre.insert(ex, pre[ex].remove(delegator)));
                        assert(pre[ex].remove(delegator).remove(delegator) =~= pre[ex].remove(
                            delegator,
                        ));
                    }
                },
                None => {
                    proof {
                        assert(self@.delegatees =~= pre);
                    }
                },
            }
            proof {
                assert forall|e: AccountId|
                    old(self)@.delegatees.contains_key(e) && in_prefix(
                        expired@,
                        k + 1,
                        e,
                    ) implies self@.delegatees[e] == old(self)@.delegatees[e].remove(
                    delegator,
                ) by {
                    if e == ex {
                        assert(self@.delegatees[e] == pre[e].remove(delegator) || self@.delegatees[e]
                            == pre[e]);
                        if in_prefix(expired@, k as int, e) {
                            assert(pre[e] == old(self)@.delegatees[e].remove(delegator));
                        } else {
                            assert(pre[e] == old(self)@.delegatees[e]);
                        }
                    } else {
                        let j = choose|j: int| 0 <= j < k + 1 && expired@[j] == e;
                        assert(0 <= j < k && expired@[j] == e);
                        assert(in_prefix(expired@, k as int, e));
                    }
                }
                assert forall|e: AccountId|
                    old(self)@.delegatees.contains_key(e) && !in_prefix(
                        expired@,
                        k + 1,
                        e,
                    ) implies self@.delegatees[e] == old(self)@.delegatees[e] by {
                    assert(expired@[k as int] != e);
                    assert(!in_prefix(expired@, k as int, e)) by {
                        if in_prefix(expired@, k as int, e) {
                            let j = choose|j: int| 0 <= j < k && expired@[j] == e;
                            assert(0 <= j < k + 1 && expired@[j] == e);
                        }
                    }
                }
            }
            k = k + 1;
        }
        proof {
            assert forall|e: AccountId| expired@.contains(e) implies in_prefix(
                expired@,
                n as int,
                e,
            ) by {
                let j = choose|j: int| 0 <= j < expired@.len() && expired@[j] == e;
                assert(0 <= j < n as int && expired@[j] == e);
            }
            assert forall|e: AccountId| in_prefix(expired@, n as int, e) implies expired@.contains(
                e,
            ) by {
                let j = choose|j: int| 0 <= j < n as int && expired@[j] == e;
                assert(expired@[j] == e);
            }
        }
    }

    /// Records `fraction` for the pair `(delegatee, delegator)` in the
    /// by-delegatee index, creating the inner mapping if the delegatee has
    /// none yet.
    fn upsert_pair(&mut self, delegatee: AccountId, delegator: AccountId, fraction: Decimal)
        ensures
            final(self)@.owner_badge == old(self)@.owner_badge,
            final(self)@.delegators == old(self)@.delegators,
            final(self)@.delegatees == old(self)@.delegatees.insert(
                delegatee,
                (if old(self)@.delegatees.contains_key(delegatee) {
                    old(self)@.delegatees[delegatee]
                } else {
                    Map::empty()
                }).insert(delegator, fraction),
            ),
    {
        let ghost pre = self@.delegatees;
        let mut inner = match self.delegatees.remove(&delegatee) {
            Some(m) => m,
            None => HashMap::new(),
        };
        inner.insert(delegator, fraction);
        self.delegatees.insert(delegatee, inner);
        proof {
            assert(self@.delegatees =~= pre.insert(
                delegatee,
                (if pre.contains_key(delegatee) {
                    pre[delegatee]
                } else {
                    Map::empty()
                }).insert(delegator, fraction),
            ));
        }
    }

    /// Removes the pair `(delegatee, delegator)` from the by-delegatee
    /// index, if the delegatee has an inner mapping at all.
    fn remove_pair(&mut self, delegatee: AccountId, delegator: AccountId)
        ensures
            final(self)@.owner_badge == old(self)@.owner_badge,
            final(self)@.delegators == old(self)@.delegators,
            forall|e: AccountId|
                final(self)@.delegatees.contains_key(e) == old(self)@.delegatees.contains_key(e),
            old(self)@.delegatees.contains_key(delegatee) ==> final(self)@.delegatees[delegatee]
                == old(self)@.delegatees[delegatee].remove(delegator),
            forall|e: AccountId|
                e != delegatee && old(self)@.delegatees.contains_key(e) ==> final(self)@.delegatees[e] == old(self)@.delegatees[e],
    {
        let ghost pre = self@.delegatees;
        match self.delegatees.remove(&delegatee) {
            Some(inner_map) => {
                let mut inner = inner_map;
                inner.remove(&delegator);
                self.delegatees.insert(delegatee, inner);
                proof {
                    assert(self@.delegatees =~= pre.insert(
                        delegatee,
                        pre[delegatee].remove(delegator),
                    ));
                }
            },
            None => {
                proof {
                    assert(self@.delegatees =~= pre);
                }
            },
        }
    }

    /// Delegates `fraction` of `delegator`'s voting weight to `delegatee`
    /// until `valid_until`, replacing any prior delegation to the same
    /// delegatee. As a side effect of success, `delegator`'s expired entries
    /// are dropped from both indexes.
    ///
    /// The call is accepted exactly when the fraction lies in
    /// `[0.01, 1]`, delegator and delegatee differ, the expiry lies
    /// strictly in the future, the retained valid fractions plus the new
    /// one sum to at most 1, and the retained entries plus the new one
    /// number at most 50; the first failing condition, in that order, names
    /// the error. A failed call changes nothing, expired entries included.
    ///
    /// Proving that the caller may act for `delegator` is the caller's
    /// business.
    pub fn make_delegation(
        &mut self,
        delegator: AccountId,
        delegatee: AccountId,
        fraction: Decimal,
        valid_until: i64,
        now: i64,
    ) -> (r: Result<DelegationCreatedEvent, DelegationError>)
        requires
            old(self)@.inv(),
        ensures
            final(self)@.inv(),
            final(self)@.owner_badge == old(self)@.owner_badge,
            r is Ok <==> make_delegation_outcome(
                old(self)@,
                delegator,
                delegatee,
                fraction,
                valid_until,
                now,
            ) is Ok,
            r is Err ==> final(self)@ == old(self)@ && r == Result::<
                DelegationCreatedEvent,
                DelegationError,
            >::Err(
                make_delegation_outcome(
                    old(self)@,
                    delegator,
                    delegatee,
                    fraction,
                    valid_until,
                    now,
                )->Err_0,
            ),
            r is Ok ==> {
                &&& final(self)@.delegations_of(delegator) == keep_valid_others(
                    old(self)@.delegations_of(delegator),
                    delegatee,
                    now,
                ).push(Delegation { delegatee, fraction, valid_until })
                &&& final(self)@.delegated_fraction(delegatee, delegator) == Option::Some(
                    fraction,
                )
                &&& final(self)@.has_record(delegator)
                &&& forall|d: AccountId|
                    d != delegator ==> final(self)@.delegations_of(d) == old(
                        self,
                    )@.delegations_of(d) && final(self)@.has_record(d) == old(self)@.has_record(d)
                &&& r->Ok_0 == (DelegationCreatedEvent {
                    delegator,
                    delegatee,
                    fraction,
                    valid_until,
                })
            },
    {
        if fraction.attos < MIN_DELEGATION_FRACTION || fraction.attos > DECIMAL_ONE {
            return Err(DelegationError::InvalidFraction);
        }
        if delegator == delegatee {
            return Err(DelegationError::SelfDelegation);
        }
        if valid_until <= now {
            return Err(DelegationError::InvalidExpiry);
        }

        let ghost list0 = self@.delegations_of(delegator);
        let mut kept: Vec<Delegation> = Vec::new();
        let mut expired: Vec<AccountId> = Vec::new();
        let mut total: u128 = 0;

        match self.delegators.get(&delegator) {
            Some(list) => {
                proof {
                    assert(list0 == list@);
                    assert(delegator_list_inv(self@.delegators[delegator], delegator));
                }
                let n = list.len();
                let mut i: usize = 0;
                while i < n
                    invariant
                        i <= n,
                        n == list@.len(),
                        list0 == list@,
                        distinct_delegatees(list0),
                        fractions_in_range(list0, MIN_DELEGATION_FRACTION, DECIMAL_ONE),
                        sum_fractions(list0) <= DECIMAL_ONE,
                        kept@ == keep_valid_others(list0.take(i as int), delegatee, now),
                        expired@ == expired_targets(list0.take(i as int), now),
                        total == sum_fractions(kept@),
                        total <= DECIMAL_ONE,
                    decreases n - i,
                {
                    let ent = list[i];
                    proof {
                        assert(list0.take(i + 1) =~= list0.take(i as int).push(
                            list0[i as int],
                        ));
                        assert(list0.take(i + 1).drop_last() =~= list0.take(i as int));
                        assert(distinct_delegatees(list0.take(i + 1)));
                        assert(ent == list0[i as int]);
                    }
                    if ent.valid_until > now {
                        if ent.delegatee != delegatee {
                            proof {
                                lemma_sum_push(kept@, ent);
                                lemma_keep_valid_others(list0.take(i + 1), delegatee, now);
                                lemma_sum_take_le(list0, i + 1);
                            }
                            total = total + ent.fraction.attos;
                            kept.push(ent);
                        }
                    } else {
                        expired.push(ent.delegatee);
                    }
                    i = i + 1;
                }
                proof {
                    assert(list0.take(n as int) =~= list0);
                }
            },
            None => {
                proof {
                    assert(list0 =~= Seq::<Delegation>::empty());
                    assert(kept@ == keep_valid_others(list0, delegatee, now));
                    assert(expired@ == expired_targets(list0, now));
                }
            },
        }

        if total + fraction.attos > DECIMAL_ONE {
            return Err(DelegationError::AllocationExceeded);
        }
        if kept.len() >= MAX_DELEGATIONS {
            return Err(DelegationError::TooManyDelegations);
        }

        kept.push(Delegation { delegatee, fraction, valid_until });

        let ghost m0 = self@;
        let ghost kept_final = kept@;
        self.delegators.insert(delegator, kept);
        proof {
            assert(self@.delegators =~= m0.delegators.insert(delegator, kept_final));
            assert(self@.delegatees == m0.delegatees);
        }
        self.prune_index_pairs(delegator, &expired);
        let ghost m_mid = self@;
        self.upsert_pair(delegatee, delegator, fraction);

        proof {
            assert(m0 == old(self)@);
            assert forall|e: AccountId| #[trigger] self@.delegatees.contains_key(e) == (
            m0.delegatees.contains_key(e) || e == delegatee) by {
                assert(m_mid.delegatees.contains_key(e) == m0.delegatees.contains_key(e));
            }
            assert(self@.delegatees[delegatee] == (if m0.delegatees.contains_key(delegatee) {
                if expired_targets(list0, now).contains(delegatee) {
                    m0.delegatees[delegatee].remove(delegator)
                } else {
                    m0.delegatees[delegatee]
                }
            } else {
                Map::empty()
            }).insert(delegator, fraction));
            assert forall|e: AccountId|
                e != delegatee && m0.delegatees.contains_key(e) implies #[trigger] self@.delegatees[e]
                == (if expired_targets(list0, now).contains(e) {
                m0.delegatees[e].remove(delegator)
            } else {
                m0.delegatees[e]
            }) by {
                assert(self@.delegatees[e] == m_mid.delegatees[e]);
            }
            lemma_make_commit_inv(m0, self@, delegator, delegatee, fraction, valid_until, now);
            lemma_index_matches_list(self@, delegatee, delegator);
            assert(self@.delegations_of(delegator) == kept_final);
            assert(entry_in(kept_final, delegatee) == Some(
                Delegation { delegatee, fraction, valid_until },
            ));
        }

        Ok(DelegationCreatedEvent { delegator, delegatee, fraction, valid_until })
    }

    /// Removes `delegator`'s delegation to `delegatee`. An entry that has
    /// already expired still counts as found and is removed without error.
    /// As a side effect of success, `delegator`'s expired entries are
    /// dropped from both indexes.
    ///
    /// Fails with `NotFound` when the delegator has no record at all and
    /// with `DelegationNotFound` when none of its entries is aimed at the
    /// delegatee; a failed call changes nothing, expired entries included.
    ///
    /// Proving that the caller may act for `delegator` is the caller's
    /// business.
    pub fn remove_delegation(
        &mut self,
        delegator: AccountId,
        delegatee: AccountId,
        now: i64,
    ) -> (r: Result<DelegationRemovedEvent, DelegationError>)
        requires
            old(self)@.inv(),
        ensures
            final(self)@.inv(),
            final(self)@.owner_badge == old(self)@.owner_badge,
            r is Ok <==> remove_delegation_outcome(old(self)@, delegator, delegatee) is Ok,
            r is Err ==> final(self)@ == old(self)@ && r == Result::<
                DelegationRemovedEvent,
                DelegationError,
            >::Err(remove_delegation_outcome(old(self)@, delegator, delegatee)->Err_0),
            r is Ok ==> {
                &&& final(self)@.delegations_of(delegator) == keep_valid_others(
                    old(self)@.delegations_of(delegator),
                    delegatee,
                    now,
                )
                &&& final(self)@.delegated_fraction(delegatee, delegator) == Option::None::<
                    Decimal,
                >
                &&& final(self)@.has_record(delegator)
                &&& forall|d: AccountId|
                    d != delegator ==> final(self)@.delegations_of(d) == old(
                        self,
                    )@.delegations_of(d) && final(self)@.has_record(d) == old(self)@.has_record(d)
                &&& r->Ok_0 == (DelegationRemovedEvent { delegator, delegatee })
            },
    {
        let ghost list0 = self@.delegations_of(delegator);
        let mut found = false;
        let mut kept: Vec<Delegation> = Vec::new();
        let mut expired: Vec<AccountId> = Vec::new();

        match self.delegators.get(&delegator) {
            Some(list) => {
                proof {
                    assert(list0 == list@);
                    assert(delegator_list_inv(self@.delegators[delegator], delegator));
                }
                let n = list.len();
                let mut i: usize = 0;
                while i < n
                    invariant
                        i <= n,
                        n == list@.len(),
                        list0 == list@,
                        distinct_delegatees(list0),
                        kept@ == keep_valid_others(list0.take(i as int), delegatee, now),
                        expired@ == expired_others(list0.take(i as int), delegatee, now),
                        found == has_delegatee(list0.take(i as int), delegatee),
                    decreases n - i,
                {
                    let ent = list[i];
                    proof {
                        assert(list0.take(i + 1) =~= list0.take(i as int).push(
                            list0[i as int],
                        ));
                        assert(list0.take(i + 1).drop_last() =~= list0.take(i as int));
                        assert(ent == list0[i as int]);
                    }
                    if ent.delegatee == delegatee {
                        found = true;
                        proof {
                            assert(list0.take(i + 1)[i as int].delegatee == delegatee);
                            assert(has_delegatee(list0.take(i + 1), delegatee));
                        }
                    } else {
                        proof {
                            assert(has_delegatee(list0.take(i + 1), delegatee) == has_delegatee(
                                list0.take(i as int),
                                delegatee,
                            )) by {
                                let s1 = list0.take(i + 1);
                                let s0 = list0.take(i as int);
                                if has_delegatee(s1, delegatee) {
                                    let j = choose|j: int|
                                        0 <= j < s1.len() && s1[j].delegatee == delegatee;
                                    assert(j < i);
                                    assert(s0[j].delegatee == delegatee);
                                }
                                if has_delegatee(s0, delegatee) {
                                    let j = choose|j: int|
                                        0 <= j < s0.len() && s0[j].delegatee == delegatee;
                                    assert(s1[j].delegatee == delegatee);
                                }
                            }
                        }
                        if ent.valid_until > now {
                            kept.push(ent);
                        } else {
                            expired.push(ent.delegatee);
                        }
                    }
                    i = i + 1;
                }
                proof {
                    assert(list0.take(n as int) =~= list0);
                }
            },
            None => {
                return Err(DelegationError::NotFound);
            },
        }

        if !found {
            return Err(DelegationError::DelegationNotFound);
        }

        let ghost m0 = self@;
        let ghost kept_final = kept@;
        self.delegators.insert(delegator, kept);
        proof {
            assert(self@.delegators =~= m0.delegators.insert(delegator, kept_final));
            assert(self@.delegatees == m0.delegatees);
        }
        self.prune_index_pairs(delegator, &expired);
        let ghost m_mid = self@;
        self.remove_pair(delegatee, delegator);

        proof {
            assert(m0 == old(self)@);
            lemma_expired_others(list0, delegatee, now);
            assert(!expired@.contains(delegatee));
            assert forall|e: AccountId| #[trigger] self@.delegatees.contains_key(e)
                == m0.delegatees.contains_key(e) by {
                assert(m_mid.delegatees.contains_key(e) == m0.delegatees.contains_key(e));
            }
            if m0.delegatees.contains_key(delegatee) {
                assert(m_mid.delegatees[delegatee] == m0.delegatees[delegatee]);
                assert(self@.delegatees[delegatee] == m0.delegatees[delegatee].remove(delegator));
            }
            assert forall|e: AccountId|
                e != delegatee && m0.delegatees.contains_key(e) implies #[trigger] self@.delegatees[e]
                == (if expired_others(list0, delegatee, now).contains(e) {
                m0.delegatees[e].remove(delegator)
            } else {
                m0.delegatees[e]
            }) by {
                assert(self@.delegatees[e] == m_mid.delegatees[e]);
            }
            lemma_remove_commit_inv(m0, self@, delegator, delegatee, now);
            lemma_index_matches_list(self@, delegatee, delegator);
            lemma_keep_valid_others(list0, delegatee, now);
            assert(entry_in(kept_final, delegatee) is None);
        }

        Ok(DelegationRemovedEvent { delegator, delegatee })
    }

    /// Returns all delegations `delegator` has on file, verbatim: entries
    /// that have expired are still included until the delegator's next
    /// mutating call removes them. Returns an empty list for an unknown
    /// account.
    pub fn get_delegations(&self, delegator: AccountId) -> (r: Vec<Delegation>)
        ensures
            r@ == self@.delegations_of(delegator),
    {
        match self.delegators.get(&delegator) {
            Some(v) => v.clone(),
            None => Vec::new(),
        }
    }

    /// Returns the fraction the by-delegatee index holds for the pair, or
    /// `None` if no relationship is recorded. An expired delegation is still
    /// reported until the delegator's next mutating call; callers are
    /// expected to cross-check `valid_until` themselves.
    pub fn get_delegatee_delegators(&self, delegatee: AccountId, delegator: AccountId) -> (r:
        Option<Decimal>)
        ensures
            r == self@.delegated_fraction(delegatee, delegator),
    {
        match self.delegatees.get(&delegatee) {
            Some(m) => match m.get(&delegator) {
                Some(f) => Some(*f),
                None => None,
            },
            None => None,
        }
    }
}

/// In a well-formed ledger the by-delegatee index is determined by the
/// stored lists: for any pair, `get_delegatee_delegators` answers with the
/// fraction of the one entry the delegator's stored list aims at the
/// delegatee, or absent when there is none — expired entries included on
/// both sides, until the delegator's next mutating call drops them from
/// both at once.
pub proof fn lemma_index_matches_list(
    m: VoteDelegationModel,
    delegatee: AccountId,
    delegator: AccountId,
)
    requires
        m.inv(),
    ensures
        m.delegated_fraction(delegatee, delegator) == (match entry_in(
            m.delegations_of(delegator),
            delegatee,
        ) {
            Option::Some(en) => Option::Some(en.fraction),
            Option::None => Option::None::<Decimal>,
        }),
{
    let l = m.delegations_of(delegator);
    lemma_entry_in_index(l, delegatee);
    if entry_in(l, delegatee) is Some {
        let en = entry_in(l, delegatee)->Some_0;
        let i = choose|i: int| 0 <= i < l.len() && l[i] == en;
        assert(m.delegators.contains_key(delegator));
        assert(m.delegators[delegator][i] == en);
        assert(m.delegatees.contains_key(en.delegatee) && m.delegatees[
            en.delegatee
        ].contains_key(delegator) && m.delegatees[en.delegatee][delegator] == en.fraction);
    } else {
        if m.delegated_fraction(delegatee, delegator) is Some {
            assert(m.delegatees[delegatee].contains_key(delegator));
            assert(has_delegatee(m.delegators[delegator], delegatee));
            assert(has_delegatee(l, delegatee));
        }
    }
}

/// The delegation sum law: in any well-formed ledger — so after any
/// sequence of calls that individually passed validation — the fractions a
/// delegator's stored entries that are still valid at any instant sum to at
/// most 1.
pub proof fn lemma_valid_fraction_sum_bounded(
    m: VoteDelegationModel,
    delegator: AccountId,
    t: i64,
)
    requires
        m.inv(),
    ensures
        sum_fractions(valid_entries(m.delegations_of(delegator), t)) <= DECIMAL_ONE,
{
    let l = m.delegations_of(delegator);
    if m.delegators.contains_key(delegator) {
        assert(delegator_list_inv(m.delegators[delegator], delegator));
    }
    lemma_valid_entries_sum(l, t);
}

/// Re-delegation replaces: the list a successful delegation call leaves
/// behind — as `make_delegation`'s contract describes it — holds exactly
/// one entry aimed at the delegatee, the new one, whatever was there
/// before. Calling twice for the same pair therefore leaves one entry, with
/// the latest fraction.
pub proof fn lemma_redelegation_single_entry(
    m0: VoteDelegationModel,
    m1: VoteDelegationModel,
    delegator: AccountId,
    delegatee: AccountId,
    fraction: Decimal,
    valid_until: i64,
    now: i64,
)
    requires
        m0.inv(),
        m1.delegations_of(delegator) == keep_valid_others(
            m0.delegations_of(delegator),
            delegatee,
            now,
        ).push(Delegation { delegatee, fraction, valid_until }),
    ensures
        m1.delegations_of(delegator).len() >= 1,
        m1.delegations_of(delegator).last() == (Delegation { delegatee, fraction, valid_until }),
        forall|i: int|
            0 <= i < m1.delegations_of(delegator).len() - 1 ==> (#[trigger] m1.delegations_of(
                delegator,
            )[i]).delegatee != delegatee,
{
    let list0 = m0.delegations_of(delegator);
    assert(distinct_delegatees(list0)) by {
        if m0.delegators.contains_key(delegator) {
            assert(delegator_list_inv(m0.delegators[delegator], delegator));
        }
    }
    lemma_keep_valid_others(list0, delegatee, now);
    let kept = keep_valid_others(list0, delegatee, now);
    assert forall|i: int|
        0 <= i < m1.delegations_of(delegator).len() - 1 implies (#[trigger] m1.delegations_of(
        delegator,
    )[i]).delegatee != delegatee by {
        assert(m1.delegations_of(delegator)[i] == kept[i]);
    }
}

/// The expiry cleanup law: once a delegation to `ex` has expired, the state
/// a successful delegation or removal call by the same delegator leaves
/// behind — its list the retained entries, plus the new entry when the call
/// created one aimed at `target` — holds no entry aimed at `ex` any more,
/// and `get_delegatee_delegators` answers absent for the pair.
pub proof fn lemma_expiry_cleanup(
    m1: VoteDelegationModel,
    s0: Seq<Delegation>,
    delegator: AccountId,
    target: AccountId,
    ex: AccountId,
    now: i64,
    appended: Option<Delegation>,
)
    requires
        m1.inv(),
        distinct_delegatees(s0),
        ex != target,
        entry_in(s0, ex) matches Some(en) ==> en.valid_until <= now,
        appended matches Some(a) ==> a.delegatee == target,
        m1.delegations_of(delegator) == (match appended {
            Option::None => keep_valid_others(s0, target, now),
            Option::Some(a) => keep_valid_others(s0, target, now).push(a),
        }),
    ensures
        !has_delegatee(m1.delegations_of(delegator), ex),
        m1.delegated_fraction(ex, delegator) == Option::None::<Decimal>,
{
    let kept = keep_valid_others(s0, target, now);
    let l1 = m1.delegations_of(delegator);
    lemma_keep_valid_others(s0, target, now);
    assert(entry_in(kept, ex) is None);
    lemma_entry_in_index(kept, ex);
    assert(!has_delegatee(l1, ex)) by {
        if has_delegatee(l1, ex) {
            let i = choose|i: int| 0 <= i < l1.len() && l1[i].delegatee == ex;
            match appended {
                Option::None => {
                    assert(kept[i].delegatee == ex);
                },
                Option::Some(a) => {
                    if i < kept.len() {
                        assert(kept[i].delegatee == ex);
                        assert(has_delegatee(kept, ex));
                    } else {
                        assert(l1[i] == a);
                    }
                },
            }
        }
    }
    lemma_entry_in_index(l1, ex);
    lemma_index_matches_list(m1, ex, delegator);
}

} // verus!
