//! What holds of the ledger's operations as a whole: the invariant they
//! keep, and the laws that relate one operation to another.

use crate::account::AccountView;
use crate::error::LedgerError;
use crate::model::{parsed, staked_of, total_of, LedgerView, PeerCallView};
use crate::pricing::stable_for_stake;
use crate::reward::{lemma_accrue_grows, NANOS_PER_DAY};
use crate::sums::{
    lemma_sum_bounds, lemma_sum_bounds_pair, lemma_sum_empty, lemma_sum_insert, lemma_sum_remove,
};
use vstd::prelude::*;

verus! {

/// Replacing one entry changes each total by the difference at that entry.
pub proof fn lemma_put(s: LedgerView, id: Seq<char>, account: AccountView)
    requires
        s.accounts.dom().finite(),
    ensures
        s.put(id, account).accounts.dom().finite(),
        s.put(id, account).held() + s.account(id).total() == s.held() + account.total(),
        s.put(id, account).locked() + s.account(id).staked_balance == s.locked()
            + account.staked_balance,
{
    lemma_sum_insert(s.accounts, id, account, total_of());
    lemma_sum_insert(s.accounts, id, account, staked_of());
}

/// No account holds more than all accounts together.
pub proof fn lemma_account_bounds(s: LedgerView, id: Seq<char>)
    requires
        s.accounts.dom().finite(),
    ensures
        s.account(id).total() <= s.held(),
        s.account(id).staked_balance <= s.locked(),
{
    if s.accounts.contains_key(id) {
        lemma_sum_bounds(s.accounts, id, total_of());
        lemma_sum_bounds(s.accounts, id, staked_of());
    }
}

/// Two different accounts together hold no more than all accounts together.
pub proof fn lemma_pair_bounds(s: LedgerView, a: Seq<char>, b: Seq<char>)
    requires
        s.accounts.dom().finite(),
        a != b,
    ensures
        s.account(a).total() + s.account(b).total() <= s.held(),
{
    if s.accounts.contains_key(a) && s.accounts.contains_key(b) {
        lemma_sum_bounds_pair(s.accounts, a, b, total_of());
    } else {
        lemma_account_bounds(s, a);
        lemma_account_bounds(s, b);
    }
}

/// The ledger at deployment satisfies the invariant.
pub proof fn lemma_genesis(owner: Seq<char>, total_supply: u128, ausd_token: Seq<char>, now: u64)
    ensures
        LedgerView::genesis(owner, total_supply, ausd_token, now).wf(),
{
    let s = LedgerView::genesis(owner, total_supply, ausd_token, now);
    let e = Map::<Seq<char>, AccountView>::empty();
    let a = AccountView::empty().with_balance(total_supply);
    lemma_sum_empty::<Seq<char>, AccountView>(total_of());
    lemma_sum_empty::<Seq<char>, AccountView>(staked_of());
    lemma_sum_insert(e, owner, a, total_of());
    lemma_sum_insert(e, owner, a, staked_of());
}

/// An entry that keeps its free and staked balance can be replaced without
/// touching the invariant.
pub proof fn lemma_put_same_balances(s: LedgerView, id: Seq<char>, account: AccountView)
    requires
        s.wf(),
        account.balance == s.account(id).balance,
        account.staked_balance == s.account(id).staked_balance,
    ensures
        s.put(id, account).wf(),
        s.put(id, account).held() == s.held(),
{
    lemma_put(s, id, account);
}

/// Refreshing the reward keeps the invariant and never
/// lowers a staked balance, whatever time has passed; the reward paid is
/// exactly the growth of the supply.
pub proof fn lemma_refresh_reward(s: LedgerView, id: Seq<char>, now: u64)
    requires
        s.wf(),
    ensures
        match s.refresh_reward(id, now) {
            Ok((t, paid)) => {
                &&& t.wf()
                &&& t.account(id).staked_balance >= s.account(id).staked_balance
                &&& t.account(id).balance == s.account(id).balance
                &&& t.checkpoint(id) >= s.checkpoint(id)
                &&& t.total_supply - s.total_supply == t.account(id).staked_balance - s.account(
                    id,
                ).staked_balance
                &&& t.total_staked - s.total_staked == t.total_supply - s.total_supply
                &&& !paid ==> t == s
                &&& forall|other: Seq<char>| other != id ==> t.account(other) == s.account(other)
            },
            Err(_) => true,
        },
{
    let staked = s.account(id).staked_balance;
    let paid_at = s.checkpoint(id);
    if staked != 0 && now >= paid_at {
        lemma_accrue_grows(staked, (now - paid_at) as u64, paid_at);
        match s.reward_due(id, now) {
            Ok(Some(accrual)) => {
                lemma_put(s, id, s.account(id).with_staked(accrual.principal));
            },
            _ => {},
        }
    }
}

/// Locking part of a free balance keeps the invariant and the sum of all
/// balances.
pub proof fn lemma_lock(s: LedgerView, id: Seq<char>, amount: u128, now: u64)
    requires
        s.wf(),
        s.account(id).balance >= amount,
        s.total_staked + amount <= u128::MAX,
    ensures
        s.lock(id, amount, now).wf(),
        s.lock(id, amount, now).held() == s.held(),
        s.lock(id, amount, now).total_supply == s.total_supply,
        s.account(id).staked_balance + amount <= u128::MAX,
{
    let account = s.account(id);
    lemma_account_bounds(s, id);
    lemma_put(
        s,
        id,
        AccountView {
            balance: (account.balance - amount) as u128,
            staked_balance: (account.staked_balance + amount) as u128,
            ..account
        },
    );
}

/// Unlocking part of a stake keeps the invariant and the sum of all
/// balances.
pub proof fn lemma_unlock(s: LedgerView, id: Seq<char>, amount: u128)
    requires
        s.wf(),
        s.account(id).staked_balance >= amount,
    ensures
        s.unlock(id, amount).wf(),
        s.unlock(id, amount).held() == s.held(),
        s.unlock(id, amount).total_supply == s.total_supply,
        s.account(id).balance + amount <= u128::MAX,
        s.total_staked >= amount,
{
    let account = s.account(id);
    lemma_account_bounds(s, id);
    lemma_put(
        s,
        id,
        AccountView {
            balance: (account.balance + amount) as u128,
            staked_balance: (account.staked_balance - amount) as u128,
            ..account
        },
    );
}

/// Moving part of a free balance from one account to another keeps the
/// invariant and the sum of all balances, and cannot overflow the receiver.
pub proof fn lemma_move(
    s: LedgerView,
    spender: Seq<char>,
    from: Seq<char>,
    to: Seq<char>,
    amount: u128,
)
    requires
        s.wf(),
        s.account(from).balance >= amount,
        spender != from ==> s.account(from).allowance(spender) >= amount,
    ensures
        s.debit(spender, from, amount).credit(to, amount).wf(),
        s.debit(spender, from, amount).credit(to, amount).held() == s.held(),
        s.debit(spender, from, amount).accounts.dom().finite(),
        s.debit(spender, from, amount).account(to).balance + amount <= u128::MAX,
        s.debit(spender, from, amount).account(to).staked_balance == s.account(to).staked_balance,
{
    let mid = s.debit(spender, from, amount);
    lemma_account_bounds(s, from);
    lemma_put(s, from, mid.account(from));
    if to != from {
        lemma_pair_bounds(s, from, to);
        assert(mid.account(to) == s.account(to));
    }
    let receiver = mid.account(to);
    lemma_put(mid, to, receiver.with_balance((receiver.balance + amount) as u128));
}

/// A new, empty entry keeps the invariant.
pub proof fn lemma_register(s: LedgerView, id: Seq<char>)
    requires
        s.wf(),
        !s.accounts.contains_key(id),
    ensures
        s.put(id, AccountView::empty()).wf(),
{
    lemma_put(s, id, AccountView::empty());
}

/// Creating supply in a registered account keeps the invariant.
pub proof fn lemma_deposit(s: LedgerView, id: Seq<char>, amount: u128)
    requires
        s.wf(),
    ensures
        match s.deposit(id, amount) {
            Ok(t) => t.wf() && t.held() == s.held() + amount && s.account(id).balance + amount
                <= u128::MAX,
            Err(_) => true,
        },
{
    let account = s.account(id);
    lemma_put(s, id, account.with_balance((account.balance + amount) as u128));
    if s.deposit(id, amount) is Ok {
        lemma_account_bounds(s, id);
        let t = s.deposit(id, amount)->Ok_0;
        assert(t.accounts == s.credit(id, amount).accounts);
    }
}

/// Destroying supply of a registered account keeps the invariant; the
/// supply is never smaller than a balance.
pub proof fn lemma_withdraw(s: LedgerView, id: Seq<char>, amount: u128)
    requires
        s.wf(),
    ensures
        match s.withdraw(id, amount) {
            Ok(t) => t.wf() && t.held() + amount == s.held() && s.total_supply >= amount,
            Err(_) => true,
        },
{
    let account = s.account(id);
    lemma_account_bounds(s, id);
    lemma_put(s, id, account.with_balance((account.balance - amount) as u128));
    if s.withdraw(id, amount) is Ok {
        let t = s.withdraw(id, amount)->Ok_0;
        assert(t.accounts == s.debit(id, id, amount).accounts);
    }
}

/// Moving supply between two registered accounts keeps the invariant and the
/// sum of all balances.
pub proof fn lemma_transfer_registered(
    s: LedgerView,
    sender: Seq<char>,
    receiver: Seq<char>,
    amount: u128,
)
    requires
        s.wf(),
    ensures
        match s.transfer_registered(sender, receiver, amount) {
            Ok(t) => t.wf() && t.held() == s.held() && t.total_supply == s.total_supply,
            Err(e) => e != LedgerError::Overflow,
        },
{
    if sender != receiver && amount != 0 {
        lemma_withdraw(s, sender, amount);
        match s.withdraw(sender, amount) {
            Ok(w) => {
                lemma_deposit(w, receiver, amount);
                lemma_pair_bounds(s, sender, receiver);
                lemma_account_bounds(s, sender);
                assert(w.account(receiver) == s.account(receiver));
            },
            Err(_) => {},
        }
    }
}

/// Removing an entry with what it held keeps the invariant: the supply
/// covers what any account holds.
pub proof fn lemma_unregister(s: LedgerView, id: Seq<char>, force: bool)
    requires
        s.wf(),
    ensures
        match s.unregister(id, force) {
            Ok((t, _)) => t.wf() && s.account(id).total() <= s.total_supply,
            Err(_) => true,
        },
{
    if s.accounts.contains_key(id) {
        lemma_account_bounds(s, id);
        lemma_sum_remove(s.accounts, id, total_of());
        lemma_sum_remove(s.accounts, id, staked_of());
    }
}

/// One of the operations that move collateral between balances without
/// creating or destroying any.
pub enum Move {
    /// `caller` moves part of its own free balance to `new_owner`.
    Transfer { caller: Seq<char>, new_owner: Seq<char>, amount: Seq<char> },
    /// `caller` moves part of the free balance of `owner` to `new_owner`.
    TransferFrom { caller: Seq<char>, owner: Seq<char>, new_owner: Seq<char>, amount: Seq<char> },
    /// `caller` stakes part of its free balance at time `now`.
    Stake { caller: Seq<char>, now: u64, amount: Seq<char> },
    /// `caller` unlocks part of the stake of `id` at time `now`.
    Unstake { caller: Seq<char>, now: u64, id: Seq<char>, unstake_amount: u128 },
}

/// The ledger after `m`. A move that is rejected leaves the ledger as it was.
pub open spec fn after_move(s: LedgerView, m: Move) -> LedgerView {
    match m {
        Move::Transfer { caller, new_owner, amount } => match s.transfer(
            caller,
            new_owner,
            amount,
        ) {
            Ok(t) => t,
            Err(_) => s,
        },
        Move::TransferFrom { caller, owner, new_owner, amount } => match s.transfer_from(
            caller,
            owner,
            new_owner,
            amount,
        ) {
            Ok(t) => t,
            Err(_) => s,
        },
        Move::Stake { caller, now, amount } => match s.stake(caller, now, amount) {
            Ok((t, _)) => t,
            Err(_) => s,
        },
        Move::Unstake { caller, now, id, unstake_amount } => match s.unstake(
            caller,
            now,
            id,
            unstake_amount,
        ) {
            Ok(t) => t,
            Err(_) => s,
        },
    }
}

/// The staking reward that refreshing `id` at `now` adds to its stake.
pub open spec fn reward_paid(s: LedgerView, id: Seq<char>, now: u64) -> int {
    match s.refresh_reward(id, now) {
        Ok((t, _)) => t.account(id).staked_balance - s.account(id).staked_balance,
        Err(_) => 0,
    }
}

/// The staking reward that is issued on the way when `m` is applied to `s`:
/// a stake or an unstake that succeeds first pays its caller the reward that
/// is due; a transfer pays none.
pub open spec fn reward_in_move(s: LedgerView, m: Move) -> int {
    match m {
        Move::Transfer { .. } => 0,
        Move::TransferFrom { .. } => 0,
        Move::Stake { caller, now, amount } => if s.stake(caller, now, amount) is Ok {
            reward_paid(s, caller, now)
        } else {
            0
        },
        Move::Unstake { caller, now, id, unstake_amount } => if s.unstake(
            caller,
            now,
            id,
            unstake_amount,
        ) is Ok {
            reward_paid(s, caller, now)
        } else {
            0
        },
    }
}

/// The ledger after all of `moves`, in order.
pub open spec fn after_moves(s: LedgerView, moves: Seq<Move>) -> LedgerView
    decreases moves.len(),
{
    if moves.len() == 0 {
        s
    } else {
        after_move(after_moves(s, moves.drop_last()), moves.last())
    }
}

/// The reward issued over all of `moves`.
pub open spec fn reward_in_moves(s: LedgerView, moves: Seq<Move>) -> int
    decreases moves.len(),
{
    if moves.len() == 0 {
        0
    } else {
        reward_in_moves(s, moves.drop_last()) + reward_in_move(
            after_moves(s, moves.drop_last()),
            moves.last(),
        )
    }
}

/// A transfer, a stake or an unstake keeps the invariant; what all accounts
/// hold together changes by the reward issued on the way and by nothing
/// else, and a transfer issues none.
pub proof fn lemma_move_conserves(s: LedgerView, m: Move)
    requires
        s.wf(),
    ensures
        after_move(s, m).wf(),
        after_move(s, m).held() == s.held() + reward_in_move(s, m),
        after_move(s, m).total_supply == s.total_supply + reward_in_move(s, m),
        reward_in_move(s, m) >= 0,
{
    match m {
        Move::Transfer { caller, new_owner, amount } => {
            if s.transfer(caller, new_owner, amount) is Ok {
                lemma_move(s, caller, caller, new_owner, parsed(amount)->Ok_0);
            }
        },
        Move::TransferFrom { caller, owner, new_owner, amount } => {
            if s.transfer_from(caller, owner, new_owner, amount) is Ok {
                lemma_move(s, caller, owner, new_owner, parsed(amount)->Ok_0);
            }
        },
        Move::Stake { caller, now, amount } => {
            if s.stake(caller, now, amount) is Ok {
                lemma_refresh_reward(s, caller, now);
                let paid = s.refresh_reward(caller, now)->Ok_0.0;
                lemma_lock(paid, caller, parsed(amount)->Ok_0, now);
            }
        },
        Move::Unstake { caller, now, id, unstake_amount } => {
            if s.unstake(caller, now, id, unstake_amount) is Ok {
                lemma_refresh_reward(s, caller, now);
                let paid = s.refresh_reward(caller, now)->Ok_0.0;
                lemma_unlock(paid, id, unstake_amount);
            }
        },
    }
}

/// Over any sequence of transfers, stakes and unstakes,
/// the free and staked balances of all accounts together change by exactly
/// the staking reward issued on the way; where none is issued, their sum
/// stays constant. The ledger's invariant holds throughout.
pub proof fn lemma_conservation(s: LedgerView, moves: Seq<Move>)
    requires
        s.wf(),
    ensures
        after_moves(s, moves).wf(),
        after_moves(s, moves).held() == s.held() + reward_in_moves(s, moves),
        after_moves(s, moves).total_supply == s.total_supply + reward_in_moves(s, moves),
        reward_in_moves(s, moves) >= 0,
        reward_in_moves(s, moves) == 0 ==> after_moves(s, moves).held() == s.held(),
    decreases moves.len(),
{
    if moves.len() > 0 {
        lemma_conservation(s, moves.drop_last());
        lemma_move_conserves(after_moves(s, moves.drop_last()), moves.last());
    }
}

/// After `caller` has staked an amount
/// and minted against it, burning to unstake the same amount at the same
/// price asks to burn exactly what was minted, and the callback that unlocks
/// the amount restores the caller's free balance to what it was before the
/// stake, and its staked balance to what it was before the stake plus the
/// reward paid in between. Unless the caller is the paired ledger itself,
/// that reward is the one paid at the stake, and the caller's account ends
/// exactly as it was once that reward had been paid. The callback cannot
/// fail while the paired ledger holds no stake of its own.
pub proof fn lemma_stake_unstake_round_trip(
    s: LedgerView,
    caller: Seq<char>,
    now: u64,
    amount: Seq<char>,
    later: u64,
)
    requires
        s.wf(),
        s.stake_and_mint(caller, now, amount) is Ok,
    ensures
        ({
            let value = parsed(amount)->Ok_0;
            let staked = s.stake_and_mint(caller, now, amount)->Ok_0.0;
            let minted = stable_for_stake(value, s.price)->Some_0;
            let paid = s.refresh_reward(caller, now)->Ok_0.0;
            &&& s.stake_and_mint(caller, now, amount)->Ok_0.1 == (PeerCallView::Mint {
                account_id: caller,
                amount: minted,
            })
            &&& staked.burn_to_unstake(caller, amount) == Ok::<PeerCallView, LedgerError>(
                PeerCallView::BurnToUnstake {
                    account_id: caller,
                    burn_amount: minted,
                    unstake_amount: value,
                },
            )
            &&& staked.account(s.ausd_token).staked_balance == 0 ==> staked.unstake(
                s.ausd_token,
                later,
                caller,
                value,
            ) is Ok
            &&& match staked.unstake(s.ausd_token, later, caller, value) {
                Ok(restored) => {
                    &&& restored.wf()
                    &&& restored.account(caller).balance == s.account(caller).balance
                    &&& restored.account(caller).staked_balance >= s.account(
                        caller,
                    ).staked_balance
                    &&& caller != s.ausd_token ==> restored.account(caller) == paid.account(
                        caller,
                    )
                },
                Err(_) => true,
            }
        }),
{
    let value = parsed(amount)->Ok_0;
    lemma_refresh_reward(s, caller, now);
    let paid = s.refresh_reward(caller, now)->Ok_0.0;
    lemma_lock(paid, caller, value, now);
    let staked = paid.lock(caller, value, now);
    lemma_refresh_reward(staked, s.ausd_token, later);
    match staked.refresh_reward(s.ausd_token, later) {
        Ok((settled, _)) => {
            if caller != s.ausd_token {
                assert(settled.account(caller) == staked.account(caller));
            }
            if settled.account(caller).staked_balance >= value {
                lemma_unlock(settled, caller, value);
                if caller != s.ausd_token {
                    assert(settled.unlock(caller, value).account(caller) =~= paid.account(
                        caller,
                    ));
                }
            }
        },
        Err(_) => {},
    }
}

/// A transfer by an account other than the
/// owner succeeds only within the allowance the owner has granted it, and
/// then lowers that allowance by exactly the amount transferred.
pub proof fn lemma_allowance_spent(
    s: LedgerView,
    caller: Seq<char>,
    owner: Seq<char>,
    new_owner: Seq<char>,
    amount: Seq<char>,
)
    requires
        caller != owner,
        s.transfer_from(caller, owner, new_owner, amount) is Ok,
    ensures
        parsed(amount) is Ok,
        s.account(owner).allowance(caller) >= parsed(amount)->Ok_0,
        s.transfer_from(caller, owner, new_owner, amount)->Ok_0.account(owner).allowance(caller)
            == s.account(owner).allowance(caller) - parsed(amount)->Ok_0,
{
}

/// Once the reward of an account has
/// been refreshed at `now`, refreshing it again at any time from `now` up to
/// the end of the day that has started at its checkpoint changes nothing:
/// neither the checkpoint nor any balance.
pub proof fn lemma_refresh_idempotent(s: LedgerView, id: Seq<char>, now: u64, again: u64)
    requires
        s.wf(),
        s.refresh_reward(id, now) is Ok,
        now <= again,
        again < s.refresh_reward(id, now)->Ok_0.0.checkpoint(id) + NANOS_PER_DAY,
    ensures
        ({
            let t = s.refresh_reward(id, now)->Ok_0.0;
            t.refresh_reward(id, again) == Ok::<(LedgerView, bool), LedgerError>((t, false))
        }),
        ({
            let t = s.refresh_reward(id, now)->Ok_0.0;
            s.account(id).staked_balance != 0 ==> t.checkpoint(id) <= now < t.checkpoint(id)
                + NANOS_PER_DAY
        }),
{
    let t = s.refresh_reward(id, now)->Ok_0.0;
    let staked = s.account(id).staked_balance;
    let paid_at = s.checkpoint(id);
    lemma_refresh_reward(s, id, now);
    if staked != 0 {
        lemma_accrue_grows(staked, (now - paid_at) as u64, paid_at);
        let checkpoint = t.checkpoint(id);
        assert(checkpoint <= now);
        assert(now - checkpoint < NANOS_PER_DAY) by {
            if s.refresh_reward(id, now)->Ok_0.1 {
            } else {
                assert(((now - paid_at) as int) / 86_400_000_000_000 == 0 ==> now - paid_at
                    < 86_400_000_000_000) by (nonlinear_arith)
                    requires
                        now - paid_at >= 0,
                ;
            }
        }
        assert((again - checkpoint) / 86_400_000_000_000 == 0) by (nonlinear_arith)
            requires
                0 <= again - checkpoint < 86_400_000_000_000,
        ;
    }
}

} // verus!
