//! A run-time check of the ledger's invariant, for states that were put
//! together outside this library.

use crate::account::AccountView;
use crate::art::Art;
use crate::model::{staked_of, total_of};
use crate::sums::{lemma_sum_empty, lemma_sum_remove, map_sum};
use vstd::prelude::*;

verus! {

impl Art {
    /// Whether the balances add up: all accounts together hold exactly the
    /// supply, and their stakes are covered by the total stake.
    ///
    /// A ledger that was built by this library's operations always passes. A
    /// ledger that was put together from stored parts passes exactly when it
    /// is well formed, and only then may the operations be called on it.
    pub fn balanced(&self) -> (ok: bool)
        requires
            self.maps_wf(),
        ensures
            ok == self.wf(),
    {
        let ghost all = self@.accounts;
        let ghost keys = self.accounts.keys();
        proof {
            self.accounts.lemma_keys();
            assert(all.dom() =~= self.accounts@.dom());
        }
        let n = self.accounts.len();
        let mut held: u128 = 0;
        let mut locked: u128 = 0;
        let ghost mut rest: Map<Seq<char>, AccountView> = all;
        let mut i: usize = 0;
        while i < n
            invariant
                self.maps_wf(),
                all == self@.accounts,
                all.dom().finite(),
                keys == self.accounts.keys(),
                keys.no_duplicates(),
                keys.to_set() == all.dom(),
                n == keys.len(),
                i <= n,
                rest.dom().finite(),
                forall|k: Seq<char>| #[trigger]
                    rest.contains_key(k) <==> all.contains_key(k) && !keys.subrange(
                        0,
                        i as int,
                    ).contains(k),
                forall|k: Seq<char>| rest.contains_key(k) ==> #[trigger] rest[k] == all[k],
                held + map_sum(rest, total_of()) == map_sum(all, total_of()),
                locked + map_sum(rest, staked_of()) == map_sum(all, staked_of()),
            decreases n - i,
        {
            let (id, account) = self.accounts.entry(i);
            proof {
                let k = keys[i as int];
                assert(keys.to_set().contains(k));
                assert(!keys.subrange(0, i as int).contains(k)) by {
                    if keys.subrange(0, i as int).contains(k) {
                        let j = choose|j: int|
                            0 <= j < i && keys.subrange(0, i as int)[j] == k;
                        assert(keys[j] == keys[i as int]);
                    }
                }
                assert(rest.contains_key(k));
                lemma_sum_remove(rest, k, total_of());
                lemma_sum_remove(rest, k, staked_of());
                assert(account@ == all[k]);
            }
            let total = match account.balance.checked_add(account.staked_balance) {
                Some(t) => t,
                None => {
                    return false;
                },
            };
            held = match held.checked_add(total) {
                Some(h) => h,
                None => {
                    return false;
                },
            };
            locked = match locked.checked_add(account.staked_balance) {
                Some(l) => l,
                None => {
                    return false;
                },
            };
            proof {
                let k = keys[i as int];
                let next = rest.remove(k);
                assert forall|q: Seq<char>| #[trigger]
                    next.contains_key(q) <==> all.contains_key(q) && !keys.subrange(
                        0,
                        i + 1,
                    ).contains(q) by {
                    let shorter = keys.subrange(0, i as int);
                    let longer = keys.subrange(0, i + 1);
                    assert(longer =~= shorter.push(k));
                    if shorter.contains(q) {
                        let j = choose|j: int| 0 <= j < shorter.len() && shorter[j] == q;
                        assert(longer[j] == q);
                    }
                    if longer.contains(q) && q != k {
                        let j = choose|j: int| 0 <= j < longer.len() && longer[j] == q;
                        assert(shorter[j] == q);
                    }
                    assert(longer[i as int] == k);
                }
                rest = next;
            }
            i = i + 1;
        }
        proof {
            assert forall|k: Seq<char>| !rest.contains_key(k) by {
                if all.contains_key(k) {
                    assert(keys.to_set().contains(k));
                    assert(keys.subrange(0, n as int) =~= keys);
                }
            }
            assert(rest =~= Map::<Seq<char>, AccountView>::empty());
            lemma_sum_empty::<Seq<char>, AccountView>(total_of());
            lemma_sum_empty::<Seq<char>, AccountView>(staked_of());
        }
        held == self.total_supply && locked <= self.total_staked
    }
}

} // verus!
