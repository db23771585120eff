//! Stored balances, keyed by account with no zero entry, and the facts that
//! relate them to balances and to their sum.
use vstd::prelude::*;

use crate::account::Account;

verus! {

/// One stored balance: `qty` units held by `owner`.
#[derive(Debug, Clone)]
pub struct Holding {
    pub owner: Account,
    pub qty: u64,
}

/// The balance of `who` in `s`: the quantity of its entry, or 0 when it has
/// none.
pub open spec fn balance_in(s: Seq<Holding>, who: Seq<u8>) -> nat
    decreases s.len(),
{
    if s.len() == 0 {
        0
    } else if s.last().owner@ == who {
        s.last().qty as nat
    } else {
        balance_in(s.drop_last(), who)
    }
}

/// The sum of all stored quantities.
pub open spec fn sum_of(s: Seq<Holding>) -> nat
    decreases s.len(),
{
    if s.len() == 0 {
        0
    } else {
        sum_of(s.drop_last()) + s.last().qty as nat
    }
}

/// Whether `who` has a stored entry.
pub open spec fn has_entry(s: Seq<Holding>, who: Seq<u8>) -> bool {
    exists|i: int| 0 <= i < s.len() && (#[trigger] s[i]).owner@ == who
}

/// No two entries belong to the same identity.
pub open spec fn owners_unique(s: Seq<Holding>) -> bool {
    forall|i: int, j: int|
        0 <= i < s.len() && 0 <= j < s.len() && i != j ==> (#[trigger] s[i]).owner@ != (
        #[trigger] s[j]).owner@
}

/// No entry stores a zero quantity.
pub open spec fn no_zero_entry(s: Seq<Holding>) -> bool {
    forall|i: int| 0 <= i < s.len() ==> (#[trigger] s[i]).qty > 0
}

/// The holdings are keyed by identity, with no stored zero.
pub open spec fn holdings_wf(s: Seq<Holding>) -> bool {
    owners_unique(s) && no_zero_entry(s)
}

proof fn lemma_unique_drop_last(s: Seq<Holding>)
    requires
        owners_unique(s),
        s.len() > 0,
    ensures
        owners_unique(s.drop_last()),
        !has_entry(s.drop_last(), s.last().owner@),
{
    let t = s.drop_last();
    assert forall|i: int, j: int|
        0 <= i < t.len() && 0 <= j < t.len() && i != j implies (#[trigger] t[i]).owner@ != (
        #[trigger] t[j]).owner@ by {
        assert(t[i] == s[i] && t[j] == s[j]);
    }
    if has_entry(t, s.last().owner@) {
        let i = choose|i: int| 0 <= i < t.len() && (#[trigger] t[i]).owner@ == s.last().owner@;
        assert(t[i] == s[i]);
        assert(s[s.len() - 1] == s.last());
    }
}

/// An identity without an entry has balance 0.
pub proof fn lemma_absent_is_zero(s: Seq<Holding>, who: Seq<u8>)
    requires
        !has_entry(s, who),
    ensures
        balance_in(s, who) == 0,
    decreases s.len(),
{
    if s.len() > 0 {
        let t = s.drop_last();
        assert(s[s.len() - 1] == s.last());
        if has_entry(t, who) {
            let i = choose|i: int| 0 <= i < t.len() && (#[trigger] t[i]).owner@ == who;
            assert(t[i] == s[i]);
        }
        lemma_absent_is_zero(t, who);
    }
}

/// With unique owners, the balance of an entry's owner is that entry's
/// quantity.
pub proof fn lemma_balance_at(s: Seq<Holding>, i: int)
    requires
        owners_unique(s),
        0 <= i < s.len(),
    ensures
        balance_in(s, s[i].owner@) == s[i].qty,
    decreases s.len(),
{
    if i < s.len() - 1 {
        let t = s.drop_last();
        lemma_unique_drop_last(s);
        assert(s[s.len() - 1] == s.last());
        assert(s[i].owner@ != s.last().owner@);
        assert(t[i] == s[i]);
        lemma_balance_at(t, i);
    }
}

/// No single balance exceeds the sum of all entries.
pub proof fn lemma_balance_le_sum(s: Seq<Holding>, who: Seq<u8>)
    ensures
        balance_in(s, who) <= sum_of(s),
    decreases s.len(),
{
    if s.len() > 0 {
        lemma_balance_le_sum(s.drop_last(), who);
    }
}

/// Removing entry `i` takes its quantity off the sum and its owner's balance
/// to 0, and leaves every other balance as it was.
pub proof fn lemma_remove(s: Seq<Holding>, i: int)
    requires
        owners_unique(s),
        0 <= i < s.len(),
    ensures
        sum_of(s.remove(i)) + s[i].qty == sum_of(s),
        owners_unique(s.remove(i)),
        !has_entry(s.remove(i), s[i].owner@),
        forall|w: Seq<u8>|
            #[trigger] balance_in(s.remove(i), w) == if w == s[i].owner@ {
                0
            } else {
                balance_in(s, w)
            },
    decreases s.len(),
{
    let t = s.remove(i);
    assert forall|a: int, b: int|
        0 <= a < t.len() && 0 <= b < t.len() && a != b implies (#[trigger] t[a]).owner@ != (
        #[trigger] t[b]).owner@ by {
        let a2 = if a < i { a } else { a + 1 };
        let b2 = if b < i { b } else { b + 1 };
        assert(t[a] == s[a2] && t[b] == s[b2]);
    }
    if has_entry(t, s[i].owner@) {
        let k = choose|k: int| 0 <= k < t.len() && (#[trigger] t[k]).owner@ == s[i].owner@;
        let k2 = if k < i { k } else { k + 1 };
        assert(t[k] == s[k2]);
    }
    lemma_unique_drop_last(s);
    assert(s[s.len() - 1] == s.last());
    if i == s.len() - 1 {
        assert(t =~= s.drop_last());
        assert forall|w: Seq<u8>|
            #[trigger] balance_in(t, w) == if w == s[i].owner@ {
                0
            } else {
                balance_in(s, w)
            } by {
            if w == s[i].owner@ {
                lemma_absent_is_zero(t, w);
            }
        }
    } else {
        let d = s.drop_last();
        assert(t.drop_last() =~= d.remove(i));
        assert(t.last() == s.last());
        assert(d[i] == s[i]);
        lemma_remove(d, i);
        assert forall|w: Seq<u8>|
            #[trigger] balance_in(t, w) == if w == s[i].owner@ {
                0
            } else {
                balance_in(s, w)
            } by {
            assert(balance_in(d.remove(i), w) == if w == s[i].owner@ {
                0
            } else {
                balance_in(d, w)
            });
            if w == s[i].owner@ {
                assert(s[i].owner@ != s.last().owner@);
            }
        }
    }
}

/// Appending an entry for an identity that had none sets its balance and adds
/// its quantity to the sum.
pub proof fn lemma_push(s: Seq<Holding>, h: Holding)
    requires
        owners_unique(s),
        !has_entry(s, h.owner@),
    ensures
        sum_of(s.push(h)) == sum_of(s) + h.qty,
        owners_unique(s.push(h)),
        has_entry(s.push(h), h.owner@),
        forall|w: Seq<u8>|
            #[trigger] balance_in(s.push(h), w) == if w == h.owner@ {
                h.qty as nat
            } else {
                balance_in(s, w)
            },
{
    let t = s.push(h);
    assert(t.drop_last() =~= s);
    assert(t[s.len() as int] == h);
    assert forall|a: int, b: int|
        0 <= a < t.len() && 0 <= b < t.len() && a != b implies (#[trigger] t[a]).owner@ != (
        #[trigger] t[b]).owner@ by {
        if a < s.len() {
            assert(t[a] == s[a]);
        }
        if b < s.len() {
            assert(t[b] == s[b]);
        }
    }
}

/// The position of `who`'s entry, if it has one.
pub fn position_of(holdings: &Vec<Holding>, who: &Account) -> (r: Option<usize>)
    ensures
        match r {
            Some(i) => i < holdings@.len() && holdings@[i as int].owner@ == who@,
            None => !has_entry(holdings@, who@),
        },
{
    let mut i: usize = 0;
    while i < holdings.len()
        invariant
            0 <= i <= holdings.len(),
            forall|j: int| 0 <= j < i ==> (#[trigger] holdings@[j]).owner@ != who@,
        decreases holdings.len() - i,
    {
        if holdings[i].owner.same_as(who) {
            return Some(i);
        }
        i += 1;
    }
    None
}

/// The balance of `who`: its stored quantity, or 0 when it has no entry.
pub fn stored_balance(holdings: &Vec<Holding>, who: &Account) -> (r: u64)
    requires
        owners_unique(holdings@),
    ensures
        r == balance_in(holdings@, who@),
{
    match position_of(holdings, who) {
        Some(i) => {
            proof {
                lemma_balance_at(holdings@, i as int);
            }
            holdings[i].qty
        },
        None => {
            proof {
                lemma_absent_is_zero(holdings@, who@);
            }
            0
        },
    }
}

/// Adds `qty` to the balance of `to`.
pub fn credit(holdings: &mut Vec<Holding>, to: Account, qty: u64)
    requires
        holdings_wf(old(holdings)@),
        qty > 0,
        sum_of(old(holdings)@) + qty <= u64::MAX,
    ensures
        holdings_wf(final(holdings)@),
        sum_of(final(holdings)@) == sum_of(old(holdings)@) + qty,
        forall|w: Seq<u8>|
            #[trigger] balance_in(final(holdings)@, w) == if w == to@ {
                balance_in(old(holdings)@, w) + qty
            } else {
                balance_in(old(holdings)@, w) as int
            },
{
    let ghost s0 = holdings@;
    proof {
        lemma_balance_le_sum(s0, to@);
    }
    match position_of(holdings, &to) {
        Some(i) => {
            proof {
                lemma_balance_at(s0, i as int);
                lemma_remove(s0, i as int);
            }
            let h = holdings.remove(i);
            let nh = Holding { owner: h.owner, qty: h.qty + qty };
            proof {
                lemma_push(holdings@, nh);
            }
            holdings.push(nh);
            assert forall|k: int| 0 <= k < holdings@.len() implies (#[trigger] holdings@[k]).qty
                > 0 by {
                if k < holdings@.len() - 1 {
                    let k2 = if k < i { k } else { k + 1 };
                    assert(holdings@[k] == s0[k2]);
                }
            }
        },
        None => {
            proof {
                lemma_absent_is_zero(s0, to@);
            }
            let nh = Holding { owner: to, qty };
            proof {
                lemma_push(s0, nh);
            }
            holdings.push(nh);
            assert forall|k: int| 0 <= k < holdings@.len() implies (#[trigger] holdings@[k]).qty
                > 0 by {
                if k < holdings@.len() - 1 {
                    assert(holdings@[k] == s0[k]);
                }
            }
        },
    }
}

/// Takes `qty` off the balance of `from`, removing its entry when the balance
/// reaches 0.
pub fn debit(holdings: &mut Vec<Holding>, from: &Account, qty: u64)
    requires
        holdings_wf(old(holdings)@),
        0 < qty <= balance_in(old(holdings)@, from@),
    ensures
        holdings_wf(final(holdings)@),
        sum_of(final(holdings)@) + qty == sum_of(old(holdings)@),
        has_entry(final(holdings)@, from@) == (balance_in(final(holdings)@, from@) > 0),
        forall|w: Seq<u8>|
            #[trigger] balance_in(final(holdings)@, w) == if w == from@ {
                balance_in(old(holdings)@, w) - qty
            } else {
                balance_in(old(holdings)@, w) as int
            },
{
    let ghost s0 = holdings@;
    match position_of(holdings, from) {
        Some(i) => {
            proof {
                lemma_balance_at(s0, i as int);
                lemma_remove(s0, i as int);
            }
            let h = holdings.remove(i);
            let ghost s1 = holdings@;
            assert forall|k: int| 0 <= k < s1.len() implies (#[trigger] s1[k]).qty > 0 by {
                let k2 = if k < i { k } else { k + 1 };
                assert(s1[k] == s0[k2]);
            }
            if h.qty > qty {
                let nh = Holding { owner: h.owner, qty: h.qty - qty };
                proof {
                    lemma_push(s1, nh);
                }
                holdings.push(nh);
                assert forall|k: int| 0 <= k < holdings@.len() implies (
                #[trigger] holdings@[k]).qty > 0 by {
                    if k < holdings@.len() - 1 {
                        assert(holdings@[k] == s1[k]);
                    }
                }
            } else {
                proof {
                    lemma_absent_is_zero(s1, from@);
                }
            }
        },
        None => {
            proof {
                lemma_absent_is_zero(s0, from@);
            }
        },
    }
}

} // verus!
