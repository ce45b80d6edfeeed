//! The balance ledger and the token registry: per-(token, account) balances
//! with checked arithmetic, each token's tracked supply, and minting.
use vstd::prelude::*;
use crate::alist::{
    find, keys_unique, lemma_index, lemma_push, lemma_sum_push,
    lemma_sum_update, lemma_update, sum_values, to_map,
};
use crate::ids::{decimal, decimal_string, lemma_decimal_injective};

verus! {

/// Identity of a principal that can hold balances or be called.
pub type AccountId = String;

/// Identity of one asset class within the ledger.
pub type TokenId = String;

/// Why an operation of the ledger was refused. A refused operation leaves
/// the ledger as it was.
#[derive(Clone, Copy, Debug, PartialEq, Eq, Structural)]
pub enum MtError {
    InvalidArgument,
    NotFound,
    NotRegistered,
    AlreadyRegistered,
    Unauthorized,
    ApprovalMismatch,
    Overflow,
    Underflow,
    InsufficientBalance,
    PrecheckFailed,
    IdSpaceExhausted,
    InvalidMetadata,
}

/// A grant that lets a non-owner move funds of a token.
#[derive(Clone, Copy, Debug, PartialEq, Eq, Structural)]
pub struct Approval {
    pub approval_id: u64,
    pub amount: u128,
}

/// Descriptive data of a token; the ledger stores it and hands it back.
#[derive(Clone, Debug)]
pub struct TokenMetadata {
    pub title: Option<String>,
    pub description: Option<String>,
    pub media: Option<String>,
    pub reference: Option<String>,
}

fn copy_text(s: &Option<String>) -> (r: Option<String>)
    ensures
        r == *s,
{
    match s {
        Some(t) => Some(t.clone()),
        None => None,
    }
}

impl TokenMetadata {
    pub fn duplicate(&self) -> (r: TokenMetadata)
        ensures
            r == *self,
    {
        TokenMetadata {
            title: copy_text(&self.title),
            description: copy_text(&self.description),
            media: copy_text(&self.media),
            reference: copy_text(&self.reference),
        }
    }
}

pub fn copy_metadata(m: &Option<TokenMetadata>) -> (r: Option<TokenMetadata>)
    ensures
        r == *m,
{
    match m {
        Some(t) => Some(t.duplicate()),
        None => None,
    }
}

/// A token as handed out by minting and by the token view.
pub struct Token {
    pub token_id: TokenId,
    pub owner_id: AccountId,
    pub supply: u128,
    pub metadata: Option<TokenMetadata>,
    pub approvals: Option<Vec<(AccountId, Approval)>>,
    pub next_approval_id: Option<u64>,
}

/// Everything the ledger records of one token.
pub struct TokenState {
    pub owner_id: AccountId,
    pub supply: u128,
    pub metadata: Option<TokenMetadata>,
    /// Registered accounts and their balances.
    pub balances: Vec<(AccountId, u128)>,
    /// The approvals recorded for the token; `None` once they were removed.
    pub approvals: Option<Vec<(AccountId, Approval)>>,
    pub next_approval_id: u64,
}

pub struct TokenView {
    pub owner: Seq<char>,
    pub supply: u128,
    pub metadata: Option<TokenMetadata>,
    pub balances: Map<Seq<char>, u128>,
    pub approvals: Option<Map<Seq<char>, Approval>>,
    pub next_approval_id: u64,
}

pub open spec fn approvals_view(a: Option<Vec<(AccountId, Approval)>>) -> Option<
    Map<Seq<char>, Approval>,
> {
    match a {
        Some(v) => Some(to_map(v@)),
        None => None,
    }
}

impl View for TokenState {
    type V = TokenView;

    open spec fn view(&self) -> TokenView {
        TokenView {
            owner: self.owner_id@,
            supply: self.supply,
            metadata: self.metadata,
            balances: to_map(self.balances@),
            approvals: approvals_view(self.approvals),
            next_approval_id: self.next_approval_id,
        }
    }
}

impl TokenState {
    /// Balances are keyed uniquely, and the tracked supply is the sum of
    /// all registered balances.
    pub open spec fn wf(&self) -> bool {
        &&& keys_unique(self.balances@)
        &&& match self.approvals {
            Some(a) => keys_unique(a@),
            None => true,
        }
        &&& self.supply == sum_values(self.balances@)
    }
}

/// The ledger: every token, its balances, and the instance's options.
pub struct MultiToken {
    pub owner_id: AccountId,
    pub extra_storage_in_bytes_per_emission: u64,
    /// Token `i` (from zero) has the id `i + 1` in decimal.
    pub tokens: Vec<(TokenId, TokenState)>,
    pub next_token_id: u64,
    pub metadata_enabled: bool,
    pub approvals_enabled: bool,
}

pub struct MultiTokenView {
    pub owner: Seq<char>,
    pub tokens: Map<Seq<char>, TokenView>,
    pub next_token_id: u64,
    pub metadata_enabled: bool,
    pub approvals_enabled: bool,
}

pub open spec fn tokens_view(s: Seq<(TokenId, TokenState)>) -> Map<Seq<char>, TokenView> {
    to_map(s).map_values(|t: TokenState| t@)
}

impl View for MultiToken {
    type V = MultiTokenView;

    open spec fn view(&self) -> MultiTokenView {
        MultiTokenView {
            owner: self.owner_id@,
            tokens: tokens_view(self.tokens@),
            next_token_id: self.next_token_id,
            metadata_enabled: self.metadata_enabled,
            approvals_enabled: self.approvals_enabled,
        }
    }
}

impl MultiTokenView {
    pub open spec fn has_token(self, t: Seq<char>) -> bool {
        self.tokens.contains_key(t)
    }

    pub open spec fn registered(self, t: Seq<char>, a: Seq<char>) -> bool {
        self.tokens.contains_key(t) && self.tokens[t].balances.contains_key(a)
    }

    pub open spec fn balance(self, t: Seq<char>, a: Seq<char>) -> u128 {
        self.tokens[t].balances[a]
    }

    pub open spec fn supply(self, t: Seq<char>) -> u128 {
        self.tokens[t].supply
    }

    /// The error of looking up an account's entry that does not exist.
    pub open spec fn lookup_error(self, t: Seq<char>) -> MtError {
        if !self.has_token(t) {
            MtError::NotFound
        } else {
            MtError::NotRegistered
        }
    }

    /// The ledger with one balance and the token's supply set.
    pub open spec fn with_balance(self, t: Seq<char>, a: Seq<char>, b: u128, supply: u128) -> Self {
        MultiTokenView {
            tokens: self.tokens.insert(
                t,
                TokenView { balances: self.tokens[t].balances.insert(a, b), supply, ..self.tokens[t] },
            ),
            ..self
        }
    }

    pub open spec fn deposit_error(self, t: Seq<char>, a: Seq<char>, amount: u128) -> Option<
        MtError,
    > {
        if !self.registered(t, a) {
            Some(self.lookup_error(t))
        } else if self.balance(t, a) + amount > u128::MAX || self.supply(t) + amount > u128::MAX {
            Some(MtError::Overflow)
        } else {
            None
        }
    }

    pub open spec fn deposited(self, t: Seq<char>, a: Seq<char>, amount: u128) -> Self {
        self.with_balance(
            t,
            a,
            (self.balance(t, a) + amount) as u128,
            (self.supply(t) + amount) as u128,
        )
    }

    pub open spec fn withdraw_error(self, t: Seq<char>, a: Seq<char>, amount: u128) -> Option<
        MtError,
    > {
        if !self.registered(t, a) {
            Some(self.lookup_error(t))
        } else if amount > self.balance(t, a) {
            Some(MtError::InsufficientBalance)
        } else if amount > self.supply(t) {
            Some(MtError::Underflow)
        } else {
            None
        }
    }

    pub open spec fn withdrawn(self, t: Seq<char>, a: Seq<char>, amount: u128) -> Self {
        self.with_balance(
            t,
            a,
            (self.balance(t, a) - amount) as u128,
            (self.supply(t) - amount) as u128,
        )
    }

    pub open spec fn register_error(self, t: Seq<char>, a: Seq<char>) -> Option<MtError> {
        if !self.has_token(t) {
            Some(MtError::NotFound)
        } else if self.registered(t, a) {
            Some(MtError::AlreadyRegistered)
        } else {
            None
        }
    }

    pub open spec fn mint_error(self, metadata: Option<TokenMetadata>) -> Option<MtError> {
        if self.metadata_enabled && metadata is None {
            Some(MtError::InvalidMetadata)
        } else if self.next_token_id == u64::MAX {
            Some(MtError::IdSpaceExhausted)
        } else {
            None
        }
    }

    /// The id that the next mint hands out.
    pub open spec fn next_id(self) -> Seq<char> {
        decimal((self.next_token_id + 1) as nat)
    }

    pub open spec fn minted(self, owner: Seq<char>, amount: u128, metadata: Option<TokenMetadata>) -> Self {
        MultiTokenView {
            tokens: self.tokens.insert(
                self.next_id(),
                TokenView {
                    owner,
                    supply: amount,
                    metadata: if self.metadata_enabled {
                        metadata
                    } else {
                        None
                    },
                    balances: map![owner => amount],
                    approvals: None,
                    next_approval_id: 0,
                },
            ),
            next_token_id: (self.next_token_id + 1) as u64,
            ..self
        }
    }
}

pub proof fn lemma_tokens_view_update(s: Seq<(TokenId, TokenState)>, i: int, k: TokenId, ts: TokenState)
    requires
        keys_unique(s),
        0 <= i < s.len(),
        k@ == s[i].0@,
    ensures
        keys_unique(s.update(i, (k, ts))),
        tokens_view(s.update(i, (k, ts))) == tokens_view(s).insert(k@, ts@),
{
    lemma_update(s, i, k, ts);
    assert(tokens_view(s.update(i, (k, ts))) =~= tokens_view(s).insert(k@, ts@));
}

impl MultiToken {
    pub open spec fn token_ok(&self, i: int) -> bool {
        &&& self.tokens@[i].0@ == decimal((i + 1) as nat)
        &&& self.tokens@[i].1.wf()
    }

    /// Token ids are the decimal forms of one to `next_token_id`, in order;
    /// each token's supply is the sum of its balances.
    pub open spec fn wf(&self) -> bool {
        &&& self.tokens@.len() == self.next_token_id
        &&& keys_unique(self.tokens@)
        &&& forall|i: int| 0 <= i < self.tokens@.len() ==> #[trigger] self.token_ok(i)
    }

    pub fn new(owner_id: AccountId, with_metadata: bool, with_approvals: bool) -> (r: MultiToken)
        ensures
            r.wf(),
            r@.owner == owner_id@,
            r@.tokens == Map::<Seq<char>, TokenView>::empty(),
            r@.next_token_id == 0,
            r@.metadata_enabled == with_metadata,
            r@.approvals_enabled == with_approvals,
    {
        let r = MultiToken {
            owner_id,
            extra_storage_in_bytes_per_emission: 0,
            tokens: Vec::new(),
            next_token_id: 0,
            metadata_enabled: with_metadata,
            approvals_enabled: with_approvals,
        };
        assert(r@.tokens =~= Map::<Seq<char>, TokenView>::empty());
        r
    }

    /// Position of the token and of the account's entry in it.
    fn locate(&self, token_id: &TokenId, account_id: &AccountId) -> (r: Result<(usize, usize), MtError>)
        requires
            self.wf(),
        ensures
            match r {
                Ok((ti, ai)) => {
                    &&& self@.registered(token_id@, account_id@)
                    &&& ti < self.tokens@.len()
                    &&& self.tokens@[ti as int].0@ == token_id@
                    &&& ai < self.tokens@[ti as int].1.balances@.len()
                    &&& self.tokens@[ti as int].1.balances@[ai as int].0@ == account_id@
                    &&& self@.balance(token_id@, account_id@) == self.tokens@[ti as int].1.balances@[ai as int].1
                    &&& self@.supply(token_id@) == self.tokens@[ti as int].1.supply
                },
                Err(e) => !self@.registered(token_id@, account_id@) && e == self@.lookup_error(token_id@),
            },
    {
        let ti = match find(&self.tokens, token_id) {
            Some(i) => i,
            None => {
                return Err(MtError::NotFound);
            },
        };
        proof {
            lemma_index(self.tokens@, ti as int);
            assert(self.token_ok(ti as int));
        }
        match find(&self.tokens[ti].1.balances, account_id) {
            Some(ai) => {
                proof {
                    lemma_index(self.tokens@[ti as int].1.balances@, ai as int);
                }
                Ok((ti, ai))
            },
            None => Err(MtError::NotRegistered),
        }
    }

    /// Balance of an account in a token; the account must be registered.
    pub fn internal_unwrap_balance_of(&self, token_id: &TokenId, account_id: &AccountId) -> (r:
        Result<u128, MtError>)
        requires
            self.wf(),
        ensures
            match r {
                Ok(b) => self@.registered(token_id@, account_id@) && b == self@.balance(
                    token_id@,
                    account_id@,
                ),
                Err(e) => !self@.registered(token_id@, account_id@) && e == self@.lookup_error(
                    token_id@,
                ),
            },
    {
        let (ti, ai) = self.locate(token_id, account_id)?;
        Ok(self.tokens[ti].1.balances[ai].1)
    }

    /// Adds `amount` to an account's balance and to the token's supply.
    pub fn internal_deposit(&mut self, token_id: &TokenId, account_id: &AccountId, amount: u128) -> (r:
        Result<(), MtError>)
        requires
            old(self).wf(),
        ensures
            final(self).wf(),
            match r {
                Ok(()) => old(self)@.deposit_error(token_id@, account_id@, amount) is None
                    && final(self)@ == old(self)@.deposited(token_id@, account_id@, amount),
                Err(e) => old(self)@.deposit_error(token_id@, account_id@, amount) == Some(e)
                    && final(self)@ == old(self)@,
            },
    {
        let (ti, ai) = self.locate(token_id, account_id)?;
        let balance = self.tokens[ti].1.balances[ai].1;
        let supply = self.tokens[ti].1.supply;
        let new_balance = match balance.checked_add(amount) {
            Some(x) => x,
            None => {
                return Err(MtError::Overflow);
            },
        };
        let new_supply = match supply.checked_add(amount) {
            Some(x) => x,
            None => {
                return Err(MtError::Overflow);
            },
        };
        proof {
            assert(self.token_ok(ti as int));
        }
        self.set_balance(ti, ai, new_balance, new_supply);
        Ok(())
    }

    /// Takes `amount` from an account's balance and from the token's supply.
    pub fn internal_withdraw(&mut self, token_id: &TokenId, account_id: &AccountId, amount: u128) -> (r:
        Result<(), MtError>)
        requires
            old(self).wf(),
        ensures
            final(self).wf(),
            match r {
                Ok(()) => old(self)@.withdraw_error(token_id@, account_id@, amount) is None
                    && final(self)@ == old(self)@.withdrawn(token_id@, account_id@, amount),
                Err(e) => old(self)@.withdraw_error(token_id@, account_id@, amount) == Some(e)
                    && final(self)@ == old(self)@,
            },
    {
        let (ti, ai) = self.locate(token_id, account_id)?;
        let balance = self.tokens[ti].1.balances[ai].1;
        let supply = self.tokens[ti].1.supply;
        let new_balance = match balance.checked_sub(amount) {
            Some(x) => x,
            None => {
                return Err(MtError::InsufficientBalance);
            },
        };
        let new_supply = match supply.checked_sub(amount) {
            Some(x) => x,
            None => {
                return Err(MtError::Underflow);
            },
        };
        proof {
            assert(self.token_ok(ti as int));
        }
        self.set_balance(ti, ai, new_balance, new_supply);
        Ok(())
    }

    /// Creates a zero balance entry for an account.
    pub fn internal_register_account(&mut self, token_id: &TokenId, account_id: &AccountId) -> (r:
        Result<(), MtError>)
        requires
            old(self).wf(),
        ensures
            final(self).wf(),
            match r {
                Ok(()) => old(self)@.register_error(token_id@, account_id@) is None
                    && final(self)@ == old(self)@.with_balance(
                    token_id@,
                    account_id@,
                    0,
                    old(self)@.supply(token_id@),
                ),
                Err(e) => old(self)@.register_error(token_id@, account_id@) == Some(e)
                    && final(self)@ == old(self)@,
            },
    {
        let ti = match find(&self.tokens, token_id) {
            Some(i) => i,
            None => {
                return Err(MtError::NotFound);
            },
        };
        let ghost s0 = self.tokens@;
        let ghost ts0 = s0[ti as int].1;
        proof {
            lemma_index(s0, ti as int);
            assert(self.token_ok(ti as int));
        }
        if find(&self.tokens[ti].1.balances, account_id).is_some() {
            return Err(MtError::AlreadyRegistered);
        }
        let entry = (account_id.clone(), 0u128);
        proof {
            lemma_push(ts0.balances@, entry.0, 0u128);
            lemma_sum_push(ts0.balances@, entry.0, 0u128);
        }
        self.tokens[ti].1.balances.push(entry);
        proof {
            let ts1 = self.tokens@[ti as int].1;
            assert(ts1.balances@ == ts0.balances@.push(entry));
            assert(self.tokens@ == s0.update(ti as int, (s0[ti as int].0, ts1)));
            lemma_tokens_view_update(s0, ti as int, s0[ti as int].0, ts1);
            assert forall|i: int| 0 <= i < self.tokens@.len() implies #[trigger] self.token_ok(i) by {
                assert(old(self).token_ok(i));
            }
            assert(ts1@ == TokenView { balances: ts0@.balances.insert(account_id@, 0), ..ts0@ });
            assert(self@.tokens =~= old(self)@.with_balance(
                token_id@,
                account_id@,
                0,
                old(self)@.supply(token_id@),
            ).tokens);
        }
        Ok(())
    }

    /// Mints a new token owned by `owner_id`, who is registered with
    /// `owner_amount` (zero when absent). The id is the decimal form of the
    /// incremented counter.
    pub fn internal_mint(
        &mut self,
        owner_id: AccountId,
        owner_amount: Option<u128>,
        metadata: Option<TokenMetadata>,
    ) -> (r: Result<Token, MtError>)
        requires
            old(self).wf(),
        ensures
            final(self).wf(),
            match r {
                Ok(token) => {
                    let amount = match owner_amount {
                        Some(a) => a,
                        None => 0,
                    };
                    &&& old(self)@.mint_error(metadata) is None
                    &&& final(self)@ == old(self)@.minted(owner_id@, amount, metadata)
                    &&& token.token_id@ == old(self)@.next_id()
                    &&& token.owner_id@ == owner_id@
                    &&& token.supply == amount
                    &&& token.metadata == metadata
                    &&& token.next_approval_id == Some(0u64)
                    &&& (token.approvals is Some) == old(self).approvals_enabled
                    &&& (token.approvals matches Some(a) ==> a@.len() == 0)
                },
                Err(e) => old(self)@.mint_error(metadata) == Some(e) && final(self)@ == old(self)@,
            },
    {
        if self.metadata_enabled && metadata.is_none() {
            return Err(MtError::InvalidMetadata);
        }
        if self.next_token_id == u64::MAX {
            return Err(MtError::IdSpaceExhausted);
        }
        let amount: u128 = match owner_amount {
            Some(a) => a,
            None => 0,
        };
        let ghost s0 = self.tokens@;
        let ghost v0 = self@;
        let next: u64 = self.next_token_id + 1;
        let token_id = decimal_string(next);
        proof {
            assert forall|i: int| 0 <= i < s0.len() implies #[trigger] s0[i].0@ != token_id@ by {
                assert(old(self).token_ok(i));
                if s0[i].0@ == token_id@ {
                    lemma_decimal_injective((i + 1) as nat, next as nat);
                }
            }
        }
        let stored = if self.metadata_enabled {
            copy_metadata(&metadata)
        } else {
            None
        };
        let mut balances: Vec<(AccountId, u128)> = Vec::new();
        balances.push((owner_id.clone(), 0u128));
        let state = TokenState {
            owner_id: owner_id.clone(),
            supply: 0,
            metadata: stored,
            balances,
            approvals: None,
            next_approval_id: 0,
        };
        proof {
            assert(state.balances@.drop_last() =~= Seq::<(AccountId, u128)>::empty());
            assert(keys_unique(state.balances@));
            lemma_index(state.balances@, 0);
            lemma_push(s0, token_id, state);
            assert(tokens_view(s0.push((token_id, state))) =~= tokens_view(s0).insert(
                token_id@,
                state@,
            ));
        }
        self.tokens.push((token_id.clone(), state));
        self.next_token_id = next;
        proof {
            assert(state.balances@ =~= Seq::<(AccountId, u128)>::empty().push(state.balances@[0]));
            lemma_sum_push(Seq::<(AccountId, u128)>::empty(), state.balances@[0].0, 0u128);
            assert(state.wf());
            assert forall|i: int| 0 <= i < self.tokens@.len() implies #[trigger] self.token_ok(i) by {
                if i < s0.len() {
                    assert(old(self).token_ok(i));
                    assert(self.tokens@[i] == s0[i]);
                } else {
                    assert(self.tokens@[i] == (token_id, state));
                }
            }
            assert(state@.balances =~= map![owner_id@ => 0u128]);
        }
        let deposited = self.internal_deposit(&token_id, &owner_id, amount);
        proof {
            assert(deposited is Ok);
            let tv = self@.tokens[token_id@];
            assert(tv.balances =~= map![owner_id@ => amount]);
            assert(tv == v0.minted(owner_id@, amount, metadata).tokens[token_id@]);
            assert(self@.tokens =~= v0.minted(owner_id@, amount, metadata).tokens);
            assert(self@ == v0.minted(owner_id@, amount, metadata));
        }
        let approvals = if self.approvals_enabled {
            Some(Vec::new())
        } else {
            None
        };
        Ok(Token {
            token_id,
            owner_id,
            supply: amount,
            metadata,
            approvals,
            next_approval_id: Some(0),
        })
    }

    /// Sets the balance at `(ti, ai)` and the token's supply.
    fn set_balance(&mut self, ti: usize, ai: usize, b: u128, supply: u128)
        requires
            old(self).wf(),
            ti < old(self).tokens@.len(),
            ai < old(self).tokens@[ti as int].1.balances@.len(),
            supply == sum_values(old(self).tokens@[ti as int].1.balances@)
                - old(self).tokens@[ti as int].1.balances@[ai as int].1 + b,
        ensures
            final(self).wf(),
            final(self)@ == old(self)@.with_balance(
                old(self).tokens@[ti as int].0@,
                old(self).tokens@[ti as int].1.balances@[ai as int].0@,
                b,
                supply,
            ),
    {
        let ghost s0 = self.tokens@;
        let ghost ts0 = s0[ti as int].1;
        proof {
            assert(self.token_ok(ti as int));
            lemma_index(s0, ti as int);
            lemma_update(ts0.balances@, ai as int, ts0.balances@[ai as int].0, b);
            lemma_sum_update(ts0.balances@, ai as int, ts0.balances@[ai as int].0, b);
        }
        self.tokens[ti].1.balances[ai].1 = b;
        self.tokens[ti].1.supply = supply;
        proof {
            let ts1 = self.tokens@[ti as int].1;
            assert(ts1.balances@ == ts0.balances@.update(ai as int, (ts0.balances@[ai as int].0, b)));
            assert(self.tokens@ == s0.update(ti as int, (s0[ti as int].0, ts1)));
            lemma_tokens_view_update(s0, ti as int, s0[ti as int].0, ts1);
            assert(ts1@ == TokenView {
                balances: ts0@.balances.insert(ts0.balances@[ai as int].0@, b),
                supply,
                ..ts0@
            });
            assert forall|i: int| 0 <= i < self.tokens@.len() implies #[trigger] self.token_ok(i) by {
                assert(old(self).token_ok(i));
            }
            assert(self@.tokens =~= old(self)@.with_balance(
                s0[ti as int].0@,
                ts0.balances@[ai as int].0@,
                b,
                supply,
            ).tokens);
        }
    }
}

} // verus!
