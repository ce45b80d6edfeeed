//! Read-only queries: balances, supplies and tokens.
use vstd::prelude::*;
use crate::alist::{copy_entries, find, lemma_index};
use crate::ledger::{
    approvals_view, copy_metadata, AccountId, Approval, MtError, MultiToken, MultiTokenView, Token,
    TokenId,
};

verus! {

impl MultiTokenView {
    /// The balance a query reports: zero for an account without an entry.
    pub open spec fn reported_balance(self, t: Seq<char>, a: Seq<char>) -> u128 {
        if self.registered(t, a) {
            self.balance(t, a)
        } else {
            0
        }
    }

    /// The approvals a token query reports: none where the instance keeps no
    /// approvals, and an empty set where the token has none recorded.
    pub open spec fn reported_approvals(self, t: Seq<char>) -> Option<Map<Seq<char>, Approval>> {
        if !self.approvals_enabled {
            None
        } else {
            match self.tokens[t].approvals {
                Some(m) => Some(m),
                None => Some(Map::empty()),
            }
        }
    }
}

impl MultiToken {
    pub fn internal_balance_of(&self, account_id: &AccountId, token_id: &TokenId) -> (r: Result<u128, MtError>)
        requires
            self.wf(),
        ensures
            match r {
                Ok(b) => self@.has_token(token_id@) && b == self@.reported_balance(token_id@, account_id@),
                Err(e) => !self@.has_token(token_id@) && e == MtError::NotFound,
            },
    {
        match self.internal_unwrap_balance_of(token_id, account_id) {
            Ok(b) => Ok(b),
            Err(MtError::NotRegistered) => Ok(0),
            Err(e) => Err(e),
        }
    }

    pub fn internal_supply(&self, token_id: &TokenId) -> (r: Option<u128>)
        requires
            self.wf(),
        ensures
            match r {
                Some(s) => self@.has_token(token_id@) && s == self@.supply(token_id@),
                None => !self@.has_token(token_id@),
            },
    {
        match find(&self.tokens, token_id) {
            Some(i) => {
                proof {
                    lemma_index(self.tokens@, i as int);
                }
                Some(self.tokens[i].1.supply)
            },
            None => None,
        }
    }

    /// The token as recorded, if it exists.
    pub fn internal_get_token_metadata(&self, token_id: &TokenId) -> (r: Option<Token>)
        requires
            self.wf(),
        ensures
            match r {
                Some(tok) => {
                    let tv = self@.tokens[token_id@];
                    &&& self@.has_token(token_id@)
                    &&& tok.token_id@ == token_id@
                    &&& tok.owner_id@ == tv.owner
                    &&& tok.supply == tv.supply
                    &&& tok.metadata == tv.metadata
                    &&& approvals_view(tok.approvals) == self@.reported_approvals(token_id@)
                    &&& tok.next_approval_id == if self.approvals_enabled {
                        Some(tv.next_approval_id)
                    } else {
                        None
                    }
                },
                None => !self@.has_token(token_id@),
            },
    {
        let i = match find(&self.tokens, token_id) {
            Some(i) => i,
            None => {
                return None;
            },
        };
        proof {
            lemma_index(self.tokens@, i as int);
            assert(self.token_ok(i as int));
        }
        let state = &self.tokens[i].1;
        let (approvals, next_approval_id) = if self.approvals_enabled {
            let list: Vec<(AccountId, Approval)> = match &state.approvals {
                Some(a) => copy_entries(a),
                None => Vec::new(),
            };
            proof {
                assert(crate::alist::to_map(Seq::<(AccountId, Approval)>::empty()) =~= Map::<Seq<char>, Approval>::empty());
            }
            (Some(list), Some(state.next_approval_id))
        } else {
            (None, None)
        };
        Some(Token {
            token_id: token_id.clone(),
            owner_id: state.owner_id.clone(),
            supply: state.supply,
            metadata: copy_metadata(&state.metadata),
            approvals,
            next_approval_id,
        })
    }

    pub fn mt_token(&self, token_ids: &Vec<TokenId>) -> (r: Vec<Option<Token>>)
        requires
            self.wf(),
        ensures
            r@.len() == token_ids@.len(),
            forall|i: int|
                0 <= i < token_ids@.len() ==> (#[trigger] r@[i] is Some) == self@.has_token(token_ids@[i]@),
            forall|i: int|
                0 <= i < token_ids@.len() && #[trigger] r@[i] is Some ==> {
                    let tok = r@[i]->0;
                    let tv = self@.tokens[token_ids@[i]@];
                    &&& tok.token_id@ == token_ids@[i]@
                    &&& tok.owner_id@ == tv.owner
                    &&& tok.supply == tv.supply
                    &&& tok.metadata == tv.metadata
                },
    {
        let mut r: Vec<Option<Token>> = Vec::new();
        let mut i: usize = 0;
        while i < token_ids.len()
            invariant
                i <= token_ids@.len(),
                r@.len() == i,
                self.wf(),
                forall|k: int| 0 <= k < i ==> (#[trigger] r@[k] is Some) == self@.has_token(token_ids@[k]@),
                forall|k: int|
                    0 <= k < i && #[trigger] r@[k] is Some ==> {
                        let tok = r@[k]->0;
                        let tv = self@.tokens[token_ids@[k]@];
                        &&& tok.token_id@ == token_ids@[k]@
                        &&& tok.owner_id@ == tv.owner
                        &&& tok.supply == tv.supply
                        &&& tok.metadata == tv.metadata
                    },
            decreases token_ids@.len() - i,
        {
            r.push(self.internal_get_token_metadata(&token_ids[i]));
            i = i + 1;
        }
        r
    }

    /// Balance of an account in a token: zero where the account has no
    /// entry; the token must exist.
    pub fn mt_balance_of(&self, account_id: &AccountId, token_id: &TokenId) -> (r: Result<u128, MtError>)
        requires
            self.wf(),
        ensures
            match r {
                Ok(b) => self@.has_token(token_id@) && b == self@.reported_balance(token_id@, account_id@),
                Err(e) => !self@.has_token(token_id@) && e == MtError::NotFound,
            },
    {
        self.internal_balance_of(account_id, token_id)
    }

    pub fn mt_batch_balance_of(&self, account_id: &AccountId, token_ids: &Vec<TokenId>) -> (r: Result<
        Vec<u128>,
        MtError,
    >)
        requires
            self.wf(),
        ensures
            match r {
                Ok(v) => {
                    &&& v@.len() == token_ids@.len()
                    &&& forall|i: int|
                        0 <= i < token_ids@.len() ==> self@.has_token(#[trigger] token_ids@[i]@) && v@[i]
                            == self@.reported_balance(token_ids@[i]@, account_id@)
                },
                Err(e) => e == MtError::NotFound && exists|i: int|
                    0 <= i < token_ids@.len() && !self@.has_token(#[trigger] token_ids@[i]@),
            },
    {
        let mut v: Vec<u128> = Vec::new();
        let mut i: usize = 0;
        while i < token_ids.len()
            invariant
                i <= token_ids@.len(),
                v@.len() == i,
                self.wf(),
                forall|k: int|
                    0 <= k < i ==> self@.has_token(#[trigger] token_ids@[k]@) && v@[k]
                        == self@.reported_balance(token_ids@[k]@, account_id@),
            decreases token_ids@.len() - i,
        {
            let b = self.internal_balance_of(account_id, &token_ids[i])?;
            v.push(b);
            i = i + 1;
        }
        Ok(v)
    }

    pub fn mt_supply(&self, token_id: &TokenId) -> (r: Option<u128>)
        requires
            self.wf(),
        ensures
            match r {
                Some(s) => self@.has_token(token_id@) && s == self@.supply(token_id@),
                None => !self@.has_token(token_id@),
            },
    {
        self.internal_supply(token_id)
    }

    pub fn mt_batch_supply(&self, token_ids: &Vec<TokenId>) -> (r: Vec<Option<u128>>)
        requires
            self.wf(),
        ensures
            r@.len() == token_ids@.len(),
            forall|i: int|
                0 <= i < token_ids@.len() ==> match #[trigger] r@[i] {
                    Some(s) => self@.has_token(token_ids@[i]@) && s == self@.supply(token_ids@[i]@),
                    None => !self@.has_token(token_ids@[i]@),
                },
    {
        let mut r: Vec<Option<u128>> = Vec::new();
        let mut i: usize = 0;
        while i < token_ids.len()
            invariant
                i <= token_ids@.len(),
                r@.len() == i,
                self.wf(),
                forall|k: int|
                    0 <= k < i ==> match #[trigger] r@[k] {
                        Some(s) => self@.has_token(token_ids@[k]@) && s == self@.supply(token_ids@[k]@),
                        None => !self@.has_token(token_ids@[k]@),
                    },
            decreases token_ids@.len() - i,
        {
            r.push(self.internal_supply(&token_ids[i]));
            i = i + 1;
        }
        r
    }
}

} // verus!
