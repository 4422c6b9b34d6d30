//! The fungible-token ledger application: the collaborator that actually
//! holds balances. The market application consumes it only through its
//! transfer interface; its own credit/debit logic is the simple component
//! modeled here.

use vstd::prelude::*;

use crate::contract::RuntimeContext;
use crate::errors::Error;

verus! {

/// Marker for the fungible application's interface.
pub struct MyFungibleAbi;

/// An account: an owner identity on a specific chain.
#[derive(Clone, Copy, PartialEq, Eq, Debug, Structural)]
pub struct Account {
    pub chain_id: u64,
    pub owner: u64,
}

/// A caller-initiated operation on the token application.
#[derive(Clone, Copy, PartialEq, Eq, Debug, Structural)]
pub enum Operation {
    /// Debit `owner` on the current chain and credit `target_account`,
    /// crossing chains through a `Credit` message when needed.
    Transfer { owner: u64, amount: u128, target_account: Account },
    /// Credit freshly minted tokens to `owner`.
    Mint { owner: u64, amount: u128 },
}

/// A chain-to-chain message of the token application.
#[derive(Clone, Copy, PartialEq, Eq, Debug, Structural)]
pub enum Message {
    Credit { owner: u64, amount: u128 },
}

/// An effect the token application asks its runtime to perform.
#[derive(Clone, Copy, PartialEq, Eq, Debug, Structural)]
pub enum FungibleAction {
    SendMessage { destination: u64, message: Message },
}

/// One balance entry.
#[derive(Clone, Copy, PartialEq, Eq, Debug, Structural)]
pub struct AccountEntry {
    pub owner: u64,
    pub amount: u128,
}

/// The balance of an owner: the first entry carrying the owner, or zero.
pub open spec fn balance_of(s: Seq<AccountEntry>, owner: u64) -> nat
    decreases s.len(),
{
    if s.len() == 0 {
        0
    } else if s[0].owner == owner {
        s[0].amount as nat
    } else {
        balance_of(s.drop_first(), owner)
    }
}

/// Addition clamped at the largest `u128`.
pub open spec fn sat_add_u128(a: u128, b: u128) -> u128 {
    if a + b > u128::MAX {
        u128::MAX
    } else {
        (a + b) as u128
    }
}

/// Skipping an owner-free prefix does not change the owner's balance.
proof fn lemma_balance_of_skip(s: Seq<AccountEntry>, i: int, owner: u64)
    requires
        0 <= i <= s.len(),
        forall|j: int| 0 <= j < i ==> (#[trigger] s[j]).owner != owner,
    ensures
        balance_of(s, owner) == balance_of(s.skip(i), owner),
    decreases i,
{
    if i == 0 {
        assert(s.skip(0) =~= s);
    } else {
        lemma_balance_of_skip(s, i - 1, owner);
        assert(s.skip(i - 1).drop_first() =~= s.skip(i));
    }
}

/// Overwriting the first entry of an owner with an entry of the same owner
/// leaves every other owner's balance unchanged.
proof fn lemma_balance_of_update_other(s: Seq<AccountEntry>, i: int, e: AccountEntry, owner: u64)
    requires
        0 <= i < s.len(),
        e.owner == s[i].owner,
        e.owner != owner,
    ensures
        balance_of(s.update(i, e), owner) == balance_of(s, owner),
    decreases s.len(),
{
    if i == 0 {
        assert(s.update(0, e).drop_first() =~= s.drop_first());
    } else {
        if s[0].owner != owner {
            lemma_balance_of_update_other(s.drop_first(), i - 1, e, owner);
            assert(s.update(i, e).drop_first() =~= s.drop_first().update(i - 1, e));
        } else {
            assert(s.update(i, e)[0] == s[0]);
        }
    }
}

/// Appending an entry leaves every other owner's balance unchanged.
proof fn lemma_balance_of_push_other(s: Seq<AccountEntry>, e: AccountEntry, owner: u64)
    requires
        e.owner != owner,
    ensures
        balance_of(s.push(e), owner) == balance_of(s, owner),
    decreases s.len(),
{
    if s.len() == 0 {
        assert(s.push(e)[0] == e);
        assert(s.push(e).drop_first() =~= s);
    } else {
        assert(s.push(e)[0] == s[0]);
        if s[0].owner != owner {
            lemma_balance_of_push_other(s.drop_first(), e, owner);
            assert(s.push(e).drop_first() =~= s.drop_first().push(e));
        }
    }
}

/// The token application's durable state: the account balances of one chain.
pub struct MyFungibleState {
    pub accounts: Vec<AccountEntry>,
}

impl MyFungibleState {
    /// A chain with no accounts.
    pub fn new() -> (s: Self)
        ensures
            s.accounts@.len() == 0,
    {
        MyFungibleState { accounts: Vec::new() }
    }

    /// Set an owner's balance outright, creating the entry if absent.
    fn set_balance(&mut self, owner: u64, amount: u128)
        ensures
            balance_of(final(self).accounts@, owner) == amount,
            forall|w2: u64|
                w2 != owner ==> balance_of(final(self).accounts@, w2) == balance_of(
                    old(self).accounts@,
                    w2,
                ),
    {
        let n = self.accounts.len();
        let mut i: usize = 0;
        while i < n
            invariant
                n == self.accounts@.len(),
                0 <= i <= n,
                *self == *old(self),
                forall|j: int| 0 <= j < i ==> (#[trigger] self.accounts@[j]).owner != owner,
            decreases n - i,
        {
            let e = self.accounts[i];
            if e.owner == owner {
                let updated = AccountEntry { owner: e.owner, amount };
                proof {
                    lemma_balance_of_skip(
                        self.accounts@.update(i as int, updated),
                        i as int,
                        owner,
                    );
                    assert forall|w2: u64| w2 != owner implies balance_of(
                        self.accounts@.update(i as int, updated),
                        w2,
                    ) == balance_of(self.accounts@, w2) by {
                        lemma_balance_of_update_other(self.accounts@, i as int, updated, w2);
                    };
                }
                self.accounts[i] = updated;
                return ;
            }
            i += 1;
        }
        let fresh = AccountEntry { owner, amount };
        proof {
            lemma_balance_of_skip(self.accounts@.push(fresh), n as int, owner);
            assert(self.accounts@.push(fresh).skip(n as int) =~= seq![fresh]);
            assert forall|w2: u64| w2 != owner implies balance_of(
                self.accounts@.push(fresh),
                w2,
            ) == balance_of(self.accounts@, w2) by {
                lemma_balance_of_push_other(self.accounts@, fresh, w2);
            };
        }
        self.accounts.push(fresh);
    }

    /// Install an account with an initial balance, overwriting any earlier
    /// entry of the same owner.
    pub fn initialize_accounts(&mut self, account: u64, amount: u128)
        ensures
            balance_of(final(self).accounts@, account) == amount,
            forall|w2: u64|
                w2 != account ==> balance_of(final(self).accounts@, w2) == balance_of(
                    old(self).accounts@,
                    w2,
                ),
    {
        self.set_balance(account, amount);
    }

    /// Read an owner's balance; a missing entry reads as zero.
    pub fn balance(&self, account: u64) -> (r: u128)
        ensures
            r as nat == balance_of(self.accounts@, account),
    {
        let n = self.accounts.len();
        let mut i: usize = 0;
        while i < n
            invariant
                n == self.accounts@.len(),
                0 <= i <= n,
                forall|j: int| 0 <= j < i ==> (#[trigger] self.accounts@[j]).owner != account,
            decreases n - i,
        {
            let e = self.accounts[i];
            if e.owner == account {
                proof {
                    lemma_balance_of_skip(self.accounts@, i as int, account);
                }
                return e.amount;
            }
            i += 1;
        }
        proof {
            lemma_balance_of_skip(self.accounts@, n as int, account);
            assert(self.accounts@.skip(n as int) =~= Seq::<AccountEntry>::empty());
        }
        0
    }

    /// Credit an account, clamping at the largest `u128`.
    pub fn credit(&mut self, account: u64, amount: u128)
        ensures
            balance_of(final(self).accounts@, account) == sat_add_u128(
                (balance_of(old(self).accounts@, account)) as u128,
                amount,
            ),
            forall|w2: u64|
                w2 != account ==> balance_of(final(self).accounts@, w2) == balance_of(
                    old(self).accounts@,
                    w2,
                ),
    {
        let balance = self.balance(account);
        let new_balance = if amount > u128::MAX - balance {
            u128::MAX
        } else {
            balance + amount
        };
        self.set_balance(account, new_balance);
    }

    /// Debit an account; fails exactly when the balance is insufficient,
    /// leaving it untouched.
    pub fn debit(&mut self, account: u64, amount: u128) -> (r: Result<(), Error>)
        ensures
            match r {
                Ok(()) => {
                    &&& amount <= balance_of(old(self).accounts@, account)
                    &&& balance_of(final(self).accounts@, account) == balance_of(
                        old(self).accounts@,
                        account,
                    ) - amount
                    &&& forall|w2: u64|
                        w2 != account ==> balance_of(final(self).accounts@, w2) == balance_of(
                            old(self).accounts@,
                            w2,
                        )
                },
                Err(e) => {
                    &&& e == Error::InsufficientBalance
                    &&& amount > balance_of(old(self).accounts@, account)
                    &&& *final(self) == *old(self)
                },
            },
    {
        let balance = self.balance(account);
        if amount > balance {
            return Err(Error::InsufficientBalance);
        }
        self.set_balance(account, balance - amount);
        Ok(())
    }
}

/// The token application on one chain.
pub struct MyFungibleContract {
    pub state: MyFungibleState,
}

impl MyFungibleContract {
    /// A fresh token application state.
    pub fn new() -> (c: Self)
        ensures
            c.state.accounts@.len() == 0,
    {
        MyFungibleContract { state: MyFungibleState::new() }
    }

    /// Reject an operation whose authenticated signer is not the claimed
    /// owner.
    pub fn check_account_authentication(ctx: &RuntimeContext, owner: u64) -> (r: Result<(), Error>)
        ensures
            match r {
                Ok(()) => ctx.authenticated_signer == Some(owner),
                Err(e) => e == Error::WrongSigner && ctx.authenticated_signer != Some(owner),
            },
    {
        match ctx.authenticated_signer {
            Some(signer) => {
                if signer == owner {
                    Ok(())
                } else {
                    Err(Error::WrongSigner)
                }
            },
            None => Err(Error::WrongSigner),
        }
    }

    /// Deliver already-debited funds: credit locally when the target is on
    /// this chain, otherwise send a `Credit` message to the target chain.
    pub fn finish_transfer_to_account(
        &mut self,
        ctx: &RuntimeContext,
        amount: u128,
        account: Account,
    ) -> (actions: Vec<FungibleAction>)
        ensures
            if account.chain_id == ctx.chain_id {
                &&& balance_of(final(self).state.accounts@, account.owner) == sat_add_u128(
                    (balance_of(old(self).state.accounts@, account.owner)) as u128,
                    amount,
                )
                &&& forall|w2: u64|
                    w2 != account.owner ==> balance_of(final(self).state.accounts@, w2)
                        == balance_of(old(self).state.accounts@, w2)
                &&& actions@ == Seq::<FungibleAction>::empty()
            } else {
                &&& *final(self) == *old(self)
                &&& actions@ == seq![
                    (FungibleAction::SendMessage {
                        destination: account.chain_id,
                        message: Message::Credit { owner: account.owner, amount },
                    }),
                ]
            },
    {
        let mut actions: Vec<FungibleAction> = Vec::new();
        if account.chain_id == ctx.chain_id {
            self.state.credit(account.owner, amount);
        } else {
            actions.push(
                FungibleAction::SendMessage {
                    destination: account.chain_id,
                    message: Message::Credit { owner: account.owner, amount },
                },
            );
            proof {
                assert(actions@ =~= seq![
                    (FungibleAction::SendMessage {
                        destination: account.chain_id,
                        message: Message::Credit { owner: account.owner, amount },
                    }),
                ]);
            }
        }
        actions
    }

    /// Dispatch a caller-initiated token operation.
    pub fn execute_operation(&mut self, ctx: &RuntimeContext, operation: Operation) -> (r: Result<
        Vec<FungibleAction>,
        Error,
    >)
        ensures
            match operation {
                Operation::Transfer { owner, amount, target_account } => {
                    if ctx.authenticated_signer != Some(owner) {
                        r == Err::<Vec<FungibleAction>, Error>(Error::WrongSigner) && *final(self)
                            == *old(self)
                    } else if amount > balance_of(old(self).state.accounts@, owner) {
                        r == Err::<Vec<FungibleAction>, Error>(Error::InsufficientBalance)
                            && *final(self) == *old(self)
                    } else {
                        let debited = balance_of(old(self).state.accounts@, owner) - amount;
                        match r {
                            Ok(actions) => {
                                if target_account.chain_id == ctx.chain_id {
                                    &&& actions@ == Seq::<FungibleAction>::empty()
                                    &&& if target_account.owner == owner {
                                        balance_of(final(self).state.accounts@, owner) == sat_add_u128(
                                            debited as u128,
                                            amount,
                                        )
                                    } else {
                                        &&& balance_of(final(self).state.accounts@, owner)
                                            == debited
                                        &&& balance_of(
                                            final(self).state.accounts@,
                                            target_account.owner,
                                        ) == sat_add_u128(
                                            (balance_of(
                                                old(self).state.accounts@,
                                                target_account.owner,
                                            )) as u128,
                                            amount,
                                        )
                                    }
                                    &&& forall|w2: u64|
                                        w2 != owner && w2 != target_account.owner ==> balance_of(
                                            final(self).state.accounts@,
                                            w2,
                                        ) == balance_of(old(self).state.accounts@, w2)
                                } else {
                                    &&& balance_of(final(self).state.accounts@, owner) == debited
                                    &&& forall|w2: u64|
                                        w2 != owner ==> balance_of(final(self).state.accounts@, w2)
                                            == balance_of(old(self).state.accounts@, w2)
                                    &&& actions@ == seq![
                                        (FungibleAction::SendMessage {
                                            destination: target_account.chain_id,
                                            message: Message::Credit {
                                                owner: target_account.owner,
                                                amount,
                                            },
                                        }),
                                    ]
                                }
                            },
                            Err(_) => false,
                        }
                    }
                },
                Operation::Mint { owner, amount } => match r {
                    Ok(actions) => {
                        &&& actions@ == Seq::<FungibleAction>::empty()
                        &&& balance_of(final(self).state.accounts@, owner) == sat_add_u128(
                            (balance_of(old(self).state.accounts@, owner)) as u128,
                            amount,
                        )
                        &&& forall|w2: u64|
                            w2 != owner ==> balance_of(final(self).state.accounts@, w2)
                                == balance_of(old(self).state.accounts@, w2)
                    },
                    Err(_) => false,
                },
            },
    {
        match operation {
            Operation::Transfer { owner, amount, target_account } => {
                match Self::check_account_authentication(ctx, owner) {
                    Ok(()) => {},
                    Err(e) => {
                        return Err(e);
                    },
                }
                match self.state.debit(owner, amount) {
                    Ok(()) => {},
                    Err(e) => {
                        return Err(e);
                    },
                }
                Ok(self.finish_transfer_to_account(ctx, amount, target_account))
            },
            Operation::Mint { owner, amount } => {
                // Open minting: credit the requested owner.
                self.state.credit(owner, amount);
                Ok(Vec::new())
            },
        }
    }

    /// Handle an incoming `Credit` message: credit the named owner.
    pub fn execute_message(&mut self, ctx: &RuntimeContext, message: Message)
        ensures
            match message {
                Message::Credit { owner, amount } => {
                    &&& balance_of(final(self).state.accounts@, owner) == sat_add_u128(
                        (balance_of(old(self).state.accounts@, owner)) as u128,
                        amount,
                    )
                    &&& forall|w2: u64|
                        w2 != owner ==> balance_of(final(self).state.accounts@, w2) == balance_of(
                            old(self).state.accounts@,
                            w2,
                        )
                },
            },
    {
        let _ = ctx;
        match message {
            Message::Credit { owner, amount } => {
                self.state.credit(owner, amount);
            },
        }
    }
}

} // verus!
