//! Mathematical model of one delegator's list of delegations.
//!
//! The delegation ledger stores, per delegator, an ordered list of
//! [`Delegation`] records. Both mutating operations scan that list once and
//! partition it: entries still valid and not aimed at the call's target
//! delegatee are kept, the target's entry is dropped, and expired entries are
//! dropped and scheduled for removal from the by-delegatee index. The spec
//! functions here describe that partition and the fraction arithmetic over
//! it; the lemmas state the facts the ledger's proofs need.

use vstd::prelude::*;
use crate::types::AccountId;
use crate::types::Delegation;

verus! {

/// Sum, in attos, of all fractions in the list.
pub open spec fn sum_fractions(s: Seq<Delegation>) -> int
    decreases s.len(),
{
    if s.len() == 0 {
        0
    } else {
        sum_fractions(s.drop_last()) + s.last().fraction.attos
    }
}

/// The last entry aimed at `delegatee`, if any. On lists with pairwise
/// distinct delegatees this is the one entry aimed at it.
pub open spec fn entry_in(s: Seq<Delegation>, delegatee: AccountId) -> Option<Delegation>
    decreases s.len(),
{
    if s.len() == 0 {
        None
    } else if s.last().delegatee == delegatee {
        Some(s.last())
    } else {
        entry_in(s.drop_last(), delegatee)
    }
}

/// Whether the list holds an entry aimed at `delegatee`.
pub open spec fn has_delegatee(s: Seq<Delegation>, delegatee: AccountId) -> bool {
    exists|i: int| 0 <= i < s.len() && s[i].delegatee == delegatee
}

/// The entries still valid at instant `now` and not aimed at `target`: what
/// a mutating call for `target` retains of an existing list.
pub open spec fn keep_valid_others(s: Seq<Delegation>, target: AccountId, now: i64) -> Seq<
    Delegation,
>
    decreases s.len(),
{
    if s.len() == 0 {
        Seq::empty()
    } else {
        let rest = keep_valid_others(s.drop_last(), target, now);
        let x = s.last();
        if x.valid_until > now && x.delegatee != target {
            rest.push(x)
        } else {
            rest
        }
    }
}

/// The delegatees of the entries that have expired by instant `now`.
pub open spec fn expired_targets(s: Seq<Delegation>, now: i64) -> Seq<AccountId>
    decreases s.len(),
{
    if s.len() == 0 {
        Seq::empty()
    } else {
        let rest = expired_targets(s.drop_last(), now);
        let x = s.last();
        if x.valid_until <= now {
            rest.push(x.delegatee)
        } else {
            rest
        }
    }
}

/// The delegatees of the entries that have expired by instant `now`, the
/// entry aimed at `target` left aside.
pub open spec fn expired_others(s: Seq<Delegation>, target: AccountId, now: i64) -> Seq<AccountId>
    decreases s.len(),
{
    if s.len() == 0 {
        Seq::empty()
    } else {
        let rest = expired_others(s.drop_last(), target, now);
        let x = s.last();
        if x.delegatee != target && x.valid_until <= now {
            rest.push(x.delegatee)
        } else {
            rest
        }
    }
}

/// The entries still valid at instant `now`.
pub open spec fn valid_entries(s: Seq<Delegation>, now: i64) -> Seq<Delegation>
    decreases s.len(),
{
    if s.len() == 0 {
        Seq::empty()
    } else {
        let rest = valid_entries(s.drop_last(), now);
        let x = s.last();
        if x.valid_until > now {
            rest.push(x)
        } else {
            rest
        }
    }
}

/// No two entries are aimed at the same delegatee.
pub open spec fn distinct_delegatees(s: Seq<Delegation>) -> bool {
    forall|i: int, j: int| 0 <= i < j < s.len() ==> s[i].delegatee != s[j].delegatee
}

/// Every fraction lies in the closed range `[lo, hi]` attos.
pub open spec fn fractions_in_range(s: Seq<Delegation>, lo: u128, hi: u128) -> bool {
    forall|i: int| 0 <= i < s.len() ==> lo <= (#[trigger] s[i]).fraction.attos <= hi
}

/// The sum of a list is never negative.
pub proof fn lemma_sum_nonneg(s: Seq<Delegation>)
    ensures
        sum_fractions(s) >= 0,
    decreases s.len(),
{
    if s.len() > 0 {
        lemma_sum_nonneg(s.drop_last());
    }
}

/// Appending one entry adds its fraction to the sum.
pub proof fn lemma_sum_push(s: Seq<Delegation>, x: Delegation)
    ensures
        sum_fractions(s.push(x)) == sum_fractions(s) + x.fraction.attos,
{
    assert(s.push(x).drop_last() =~= s);
}

/// The sum of a prefix is at most the sum of the whole list.
pub proof fn lemma_sum_take_le(s: Seq<Delegation>, i: int)
    requires
        0 <= i <= s.len(),
    ensures
        sum_fractions(s.take(i)) <= sum_fractions(s),
    decreases s.len(),
{
    if i == s.len() {
        assert(s.take(i) =~= s);
    } else {
        assert(s.drop_last().take(i) =~= s.take(i));
        lemma_sum_take_le(s.drop_last(), i);
    }
}

/// An entry is found exactly when some position holds one, and what is found
/// stands at some position.
pub proof fn lemma_entry_in_index(s: Seq<Delegation>, delegatee: AccountId)
    ensures
        entry_in(s, delegatee) is Some <==> has_delegatee(s, delegatee),
        entry_in(s, delegatee) matches Some(en) ==> en.delegatee == delegatee && exists|i: int|
            0 <= i < s.len() && s[i] == en,
    decreases s.len(),
{
    if s.len() > 0 {
        lemma_entry_in_index(s.drop_last(), delegatee);
        if s.last().delegatee == delegatee {
            assert(s[s.len() - 1].delegatee == delegatee);
        } else {
            if has_delegatee(s.drop_last(), delegatee) {
                let i = choose|i: int|
                    0 <= i < s.drop_last().len() && s.drop_last()[i].delegatee == delegatee;
                assert(s[i].delegatee == delegatee);
            }
            if has_delegatee(s, delegatee) {
                let i = choose|i: int| 0 <= i < s.len() && s[i].delegatee == delegatee;
                assert(s.drop_last()[i].delegatee == delegatee);
            }
            if entry_in(s.drop_last(), delegatee) is Some {
                let en = entry_in(s.drop_last(), delegatee)->Some_0;
                let i = choose|i: int|
                    0 <= i < s.drop_last().len() && s.drop_last()[i] == en;
                assert(s[i] == en);
            }
        }
    }
}

/// On a list with distinct delegatees, the entry found for a delegatee is
/// the one at any position aimed at it.
pub proof fn lemma_entry_in_at(s: Seq<Delegation>, i: int)
    requires
        distinct_delegatees(s),
        0 <= i < s.len(),
    ensures
        entry_in(s, s[i].delegatee) == Some(s[i]),
    decreases s.len(),
{
    if i == s.len() - 1 {
    } else {
        assert(s.last().delegatee != s[i].delegatee);
        assert(s.drop_last()[i] == s[i]);
        lemma_entry_in_at(s.drop_last(), i);
    }
}

/// What a mutating call for `target` retains: shorter than the source,
/// summing to no more, with distinct delegatees, every kept entry drawn
/// valid and non-target from the source, and holding, for each delegatee,
/// exactly the source's entry when that entry is valid and not the target.
pub proof fn lemma_keep_valid_others(s: Seq<Delegation>, target: AccountId, now: i64)
    requires
        distinct_delegatees(s),
    ensures
        keep_valid_others(s, target, now).len() <= s.len(),
        sum_fractions(keep_valid_others(s, target, now)) <= sum_fractions(s),
        distinct_delegatees(keep_valid_others(s, target, now)),
        forall|j: int|
            0 <= j < keep_valid_others(s, target, now).len() ==> {
                let ent = #[trigger] keep_valid_others(s, target, now)[j];
                &&& ent.valid_until > now
                &&& ent.delegatee != target
                &&& exists|i: int| 0 <= i < s.len() && s[i] == ent
            },
        forall|ex: AccountId|
            #[trigger] entry_in(keep_valid_others(s, target, now), ex) == (if ex != target
                && (entry_in(s, ex) matches Some(en) && en.valid_until > now) {
                entry_in(s, ex)
            } else {
                None::<Delegation>
            }),
    decreases s.len(),
{
    let r = keep_valid_others(s, target, now);
    if s.len() == 0 {
        assert(forall|ex: AccountId| #[trigger] entry_in(r, ex) == None::<Delegation>);
    } else {
        let s0 = s.drop_last();
        let x = s.last();
        lemma_keep_valid_others(s0, target, now);
        let r0 = keep_valid_others(s0, target, now);
        lemma_entry_in_index(s0, x.delegatee);
        assert(!has_delegatee(s0, x.delegatee)) by {
            if has_delegatee(s0, x.delegatee) {
                let i = choose|i: int| 0 <= i < s0.len() && s0[i].delegatee == x.delegatee;
                assert(s[i].delegatee == s[s.len() - 1].delegatee);
            }
        }
        if x.valid_until > now && x.delegatee != target {
            assert(r == r0.push(x));
            assert(r.drop_last() =~= r0);
            lemma_sum_push(r0, x);
            assert forall|j: int| 0 <= j < r0.len() implies r0[j].delegatee != x.delegatee by {
                let i = choose|i: int| 0 <= i < s0.len() && s0[i] == r0[j];
                assert(s[i] == s0[i]);
            }
            assert forall|j: int| 0 <= j < r.len() implies {
                let ent = #[trigger] r[j];
                &&& ent.valid_until > now
                &&& ent.delegatee != target
                &&& exists|i: int| 0 <= i < s.len() && s[i] == ent
            } by {
                if j < r0.len() {
                    assert(r[j] == r0[j]);
                    let i = choose|i: int| 0 <= i < s0.len() && s0[i] == r0[j];
                    assert(s[i] == r[j]);
                } else {
                    assert(r[j] == x);
                    assert(s[s.len() - 1] == x);
                }
            }
            assert forall|ex: AccountId| #[trigger] entry_in(r, ex) == (if ex != target
                && (entry_in(s, ex) matches Some(en) && en.valid_until > now) {
                entry_in(s, ex)
            } else {
                None::<Delegation>
            }) by {
                if ex == x.delegatee {
                    assert(entry_in(r, ex) == Some(x));
                    assert(entry_in(s, ex) == Some(x));
                } else {
                    assert(entry_in(r, ex) == entry_in(r0, ex));
                    assert(entry_in(s, ex) == entry_in(s0, ex));
                }
            }
        } else {
            assert(r == r0);
            assert forall|ex: AccountId| #[trigger] entry_in(r, ex) == (if ex != target
                && (entry_in(s, ex) matches Some(en) && en.valid_until > now) {
                entry_in(s, ex)
            } else {
                None::<Delegation>
            }) by {
                if ex == x.delegatee {
                    assert(entry_in(s, ex) == Some(x));
                    assert(entry_in(s0, ex) is None);
                    assert(entry_in(r0, ex) == None::<Delegation>);
                } else {
                    assert(entry_in(s, ex) == entry_in(s0, ex));
                }
            }
        }
    }
}

/// The expired delegatees of a list with distinct delegatees: pairwise
/// distinct, and exactly the delegatees whose entry has expired.
pub proof fn lemma_expired_targets(s: Seq<Delegation>, now: i64)
    requires
        distinct_delegatees(s),
    ensures
        forall|ex: AccountId|
            #[trigger] expired_targets(s, now).contains(ex) <==> (entry_in(s, ex) matches Some(en)
                && en.valid_until <= now),
        forall|a: int, b: int|
            0 <= a < b < expired_targets(s, now).len() ==> expired_targets(s, now)[a]
                != expired_targets(s, now)[b],
    decreases s.len(),
{
    let r = expired_targets(s, now);
    if s.len() == 0 {
        assert(forall|ex: AccountId| !(#[trigger] r.contains(ex)));
    } else {
        let s0 = s.drop_last();
        let x = s.last();
        lemma_expired_targets(s0, now);
        let r0 = expired_targets(s0, now);
        lemma_entry_in_index(s0, x.delegatee);
        assert(!has_delegatee(s0, x.delegatee)) by {
            if has_delegatee(s0, x.delegatee) {
                let i = choose|i: int| 0 <= i < s0.len() && s0[i].delegatee == x.delegatee;
                assert(s[i].delegatee == s[s.len() - 1].delegatee);
            }
        }
        if x.valid_until <= now {
            assert(r == r0.push(x.delegatee));
            assert forall|ex: AccountId| #[trigger] r.contains(ex) <==> (entry_in(s, ex)
                matches Some(en) && en.valid_until <= now) by {
                if ex == x.delegatee {
                    assert(r[r.len() - 1] == ex);
                    assert(r.contains(ex));
                    assert(entry_in(s, ex) == Some(x));
                } else {
                    assert(entry_in(s, ex) == entry_in(s0, ex));
                    assert(r.contains(ex) <==> r0.contains(ex)) by {
                        if r.contains(ex) {
                            let j = choose|j: int| 0 <= j < r.len() && r[j] == ex;
                            assert(r0[j] == ex);
                        }
                        if r0.contains(ex) {
                            let j = choose|j: int| 0 <= j < r0.len() && r0[j] == ex;
                            assert(r[j] == ex);
                        }
                    }
                }
            }
            assert forall|a: int, b: int| 0 <= a < b < r.len() implies r[a] != r[b] by {
                if b < r0.len() {
                    assert(r[a] == r0[a] && r[b] == r0[b]);
                } else {
                    assert(r[b] == x.delegatee);
                    assert(r[a] == r0[a]);
                    assert(r0.contains(r0[a]));
                }
            }
        } else {
            assert(r == r0);
            assert forall|ex: AccountId| #[trigger] r.contains(ex) <==> (entry_in(s, ex)
                matches Some(en) && en.valid_until <= now) by {
                if ex == x.delegatee {
                    assert(entry_in(s, ex) == Some(x));
                    if r.contains(ex) {
                        assert(entry_in(s0, ex) matches Some(en) && en.valid_until <= now);
                    }
                } else {
                    assert(entry_in(s, ex) == entry_in(s0, ex));
                }
            }
        }
    }
}

/// Like [`lemma_expired_targets`], with the entry aimed at `target` left
/// aside.
pub proof fn lemma_expired_others(s: Seq<Delegation>, target: AccountId, now: i64)
    requires
        distinct_delegatees(s),
    ensures
        forall|ex: AccountId|
            #[trigger] expired_others(s, target, now).contains(ex) <==> (ex != target && (entry_in(
                s,
                ex,
            ) matches Some(en) && en.valid_until <= now)),
        forall|a: int, b: int|
            0 <= a < b < expired_others(s, target, now).len() ==> expired_others(s, target, now)[a]
                != expired_others(s, target, now)[b],
    decreases s.len(),
{
    let r = expired_others(s, target, now);
    if s.len() == 0 {
        assert(forall|ex: AccountId| !(#[trigger] r.contains(ex)));
    } else {
        let s0 = s.drop_last();
        let x = s.last();
        lemma_expired_others(s0, target, now);
        let r0 = expired_others(s0, target, now);
        lemma_entry_in_index(s0, x.delegatee);
        assert(!has_delegatee(s0, x.delegatee)) by {
            if has_delegatee(s0, x.delegatee) {
                let i = choose|i: int| 0 <= i < s0.len() && s0[i].delegatee == x.delegatee;
                assert(s[i].delegatee == s[s.len() - 1].delegatee);
            }
        }
        if x.delegatee != target && x.valid_until <= now {
            assert(r == r0.push(x.delegatee));
            assert forall|ex: AccountId| #[trigger] r.contains(ex) <==> (ex != target && (entry_in(
                s,
                ex,
            ) matches Some(en) && en.valid_until <= now)) by {
                if ex == x.delegatee {
                    assert(r[r.len() - 1] == ex);
                    assert(r.contains(ex));
                    assert(entry_in(s, ex) == Some(x));
                } else {
                    assert(entry_in(s, ex) == entry_in(s0, ex));
                    assert(r.contains(ex) <==> r0.contains(ex)) by {
                        if r.contains(ex) {
                            let j = choose|j: int| 0 <= j < r.len() && r[j] == ex;
                            assert(r0[j] == ex);
                        }
                        if r0.contains(ex) {
                            let j = choose|j: int| 0 <= j < r0.len() && r0[j] == ex;
                            assert(r[j] == ex);
                        }
                    }
                }
            }
            assert forall|a: int, b: int| 0 <= a < b < r.len() implies r[a] != r[b] by {
                if b < r0.len() {
                    assert(r[a] == r0[a] && r[b] == r0[b]);
                } else {
                    assert(r[b] == x.delegatee);
                    assert(r[a] == r0[a]);
                    assert(r0.contains(r0[a]));
                }
            }
        } else {
            assert(r == r0);
            assert forall|ex: AccountId| #[trigger] r.contains(ex) <==> (ex != target && (entry_in(
                s,
                ex,
            ) matches Some(en) && en.valid_until <= now)) by {
                if ex == x.delegatee {
                    assert(entry_in(s, ex) == Some(x));
                    if r.contains(ex) {
                        assert(entry_in(s0, ex) matches Some(en) && en.valid_until <= now);
                    }
                } else {
                    assert(entry_in(s, ex) == entry_in(s0, ex));
                }
            }
        }
    }
}

/// The entries valid at any instant sum to no more than the whole list.
pub proof fn lemma_valid_entries_sum(s: Seq<Delegation>, now: i64)
    ensures
        sum_fractions(valid_entries(s, now)) <= sum_fractions(s),
    decreases s.len(),
{
    if s.len() > 0 {
        lemma_valid_entries_sum(s.drop_last(), now);
        if s.last().valid_until > now {
            lemma_sum_push(valid_entries(s.drop_last(), now), s.last());
        }
    }
}

} // verus!
