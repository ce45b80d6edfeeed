//! Transfers: the single transfer with its authorization rules, the
//! all-or-nothing batch, and the granting of approvals that transfers consume.
use vstd::prelude::*;
use crate::alist::{
    copy_entries, find, has_key, index_of, keys_unique, lemma_index, lemma_push, lemma_sum_bounds,
    lemma_update, to_map,
};
use crate::ledger::{
    approvals_view, lemma_tokens_view_update, tokens_view, AccountId, Approval, MtError,
    MultiToken, MultiTokenView, TokenId, TokenState, TokenView, copy_metadata,
};

verus! {

/// The deposit that a transfer must carry, as a confirmation by its caller.
pub const ONE_YOCTO: u128 = 1;

/// The principal that a transfer record names as authorizing it: the sender,
/// where it acted as a delegated spender rather than as the owner of record.
pub fn authorized_id(sender_id: &AccountId, owner_of_record: &AccountId) -> (r: Option<AccountId>)
    ensures
        match r {
            Some(a) => a@ == sender_id@ && sender_id@ != owner_of_record@,
            None => sender_id@ == owner_of_record@,
        },
{
    if *sender_id == *owner_of_record {
        None
    } else {
        Some(sender_id.clone())
    }
}

/// Whether `sender` holds an approval in the recorded set.
pub open spec fn approved(approvals: Option<Map<Seq<char>, Approval>>, sender: Seq<char>) -> bool {
    match approvals {
        Some(m) => m.contains_key(sender),
        None => false,
    }
}

impl MultiTokenView {
    /// Why a transfer is refused, if it is.
    pub open spec fn transfer_error(
        self,
        sender: Seq<char>,
        receiver: Seq<char>,
        t: Seq<char>,
        amount: u128,
        approval_id: Option<u64>,
    ) -> Option<MtError> {
        if sender == receiver || amount == 0 {
            Some(MtError::InvalidArgument)
        } else if !self.has_token(t) {
            Some(MtError::NotFound)
        } else if sender != self.tokens[t].owner && !approved(self.tokens[t].approvals, sender) {
            Some(MtError::Unauthorized)
        } else if sender != self.tokens[t].owner && approval_id is Some && approval_id->0
            != self.tokens[t].approvals->0[sender].approval_id {
            Some(MtError::ApprovalMismatch)
        } else if !self.registered(t, receiver) {
            Some(MtError::NotRegistered)
        } else if self.withdraw_error(t, sender, amount) is Some {
            self.withdraw_error(t, sender, amount)
        } else {
            self.withdrawn(t, sender, amount).deposit_error(t, receiver, amount)
        }
    }

    /// The token's recorded approvals removed.
    pub open spec fn approvals_cleared(self, t: Seq<char>) -> Self {
        MultiTokenView {
            tokens: self.tokens.insert(t, TokenView { approvals: None, ..self.tokens[t] }),
            ..self
        }
    }

    /// The ledger after a transfer that was not refused: `amount` moves from
    /// the sender's balance to the receiver's, and every approval recorded for
    /// the token is removed.
    pub open spec fn transferred(
        self,
        sender: Seq<char>,
        receiver: Seq<char>,
        t: Seq<char>,
        amount: u128,
    ) -> Self {
        self.withdrawn(t, sender, amount).deposited(t, receiver, amount).approvals_cleared(t)
    }

    /// The first `n` legs of a batch applied in order, or the first refusal.
    pub open spec fn batch_outcome(
        self,
        sender: Seq<char>,
        receiver: Seq<char>,
        ts: Seq<TokenId>,
        amounts: Seq<u128>,
        ids: Seq<Option<u64>>,
        n: nat,
    ) -> Result<Self, MtError>
        decreases n,
    {
        if n == 0 {
            Ok(self)
        } else {
            match self.batch_outcome(sender, receiver, ts, amounts, ids, (n - 1) as nat) {
                Err(e) => Err(e),
                Ok(w) => {
                    let k = n - 1;
                    match w.transfer_error(sender, receiver, ts[k]@, amounts[k], ids[k]) {
                        Some(e) => Err(e),
                        None => Ok(w.transferred(sender, receiver, ts[k]@, amounts[k])),
                    }
                },
            }
        }
    }

    pub open spec fn approve_error(self, t: Seq<char>) -> Option<MtError> {
        if !self.approvals_enabled {
            Some(MtError::InvalidArgument)
        } else if !self.has_token(t) {
            Some(MtError::NotFound)
        } else if self.tokens[t].next_approval_id == u64::MAX {
            Some(MtError::IdSpaceExhausted)
        } else {
            None
        }
    }

    /// The ledger with an approval for `account` recorded under the token's
    /// next approval id.
    pub open spec fn approval_granted(self, t: Seq<char>, account: Seq<char>, amount: u128) -> Self {
        let tv = self.tokens[t];
        let granted = Approval { approval_id: tv.next_approval_id, amount };
        let recorded = match tv.approvals {
            Some(m) => m,
            None => Map::empty(),
        };
        MultiTokenView {
            tokens: self.tokens.insert(
                t,
                TokenView {
                    approvals: Some(recorded.insert(account, granted)),
                    next_approval_id: (tv.next_approval_id + 1) as u64,
                    ..tv
                },
            ),
            ..self
        }
    }
}

/// The approval ids of a batch: those given, or none for every leg.
pub open spec fn batch_ids(approval_ids: Option<Vec<Option<u64>>>, n: nat) -> Seq<Option<u64>> {
    match approval_ids {
        Some(v) => v@,
        None => Seq::new(n, |i: int| None),
    }
}

/// Once a prefix of a batch is refused, every longer prefix is refused the
/// same way.
pub proof fn batch_outcome_stops(
    v: MultiTokenView,
    sender: Seq<char>,
    receiver: Seq<char>,
    ts: Seq<TokenId>,
    amounts: Seq<u128>,
    ids: Seq<Option<u64>>,
    i: nat,
    n: nat,
)
    requires
        i <= n,
        v.batch_outcome(sender, receiver, ts, amounts, ids, i) is Err,
    ensures
        v.batch_outcome(sender, receiver, ts, amounts, ids, n) == v.batch_outcome(
            sender,
            receiver,
            ts,
            amounts,
            ids,
            i,
        ),
    decreases n - i,
{
    if i < n {
        batch_outcome_stops(v, sender, receiver, ts, amounts, ids, i, (n - 1) as nat);
    }
}

/// A registered balance never exceeds the token's supply.
pub proof fn lemma_balance_le_supply(mt: &MultiToken, t: Seq<char>, a: Seq<char>)
    requires
        mt.wf(),
        mt@.registered(t, a),
    ensures
        mt@.balance(t, a) <= mt@.supply(t),
{
    let ti = index_of(mt.tokens@, t);
    lemma_index(mt.tokens@, ti);
    assert(mt.token_ok(ti));
    let bs = mt.tokens@[ti].1.balances@;
    let ai = index_of(bs, a);
    lemma_index(bs, ai);
    lemma_sum_bounds(bs, ai);
}

impl TokenState {
    pub fn duplicate(&self) -> (r: TokenState)
        ensures
            r@ == self@,
            r.wf() == self.wf(),
    {
        let approvals = match &self.approvals {
            Some(a) => Some(copy_entries(a)),
            None => None,
        };
        TokenState {
            owner_id: self.owner_id.clone(),
            supply: self.supply,
            metadata: copy_metadata(&self.metadata),
            balances: copy_entries(&self.balances),
            approvals,
            next_approval_id: self.next_approval_id,
        }
    }
}

impl MultiToken {
    /// An independent copy of the ledger.
    pub fn duplicate(&self) -> (r: MultiToken)
        requires
            self.wf(),
        ensures
            r.wf(),
            r@ == self@,
    {
        let mut tokens: Vec<(TokenId, TokenState)> = Vec::new();
        let mut i: usize = 0;
        while i < self.tokens.len()
            invariant
                i <= self.tokens@.len(),
                tokens@.len() == i,
                forall|j: int|
                    0 <= j < i ==> #[trigger] tokens@[j].0 == self.tokens@[j].0 && tokens@[j].1@
                        == self.tokens@[j].1@ && tokens@[j].1.wf() == self.tokens@[j].1.wf(),
            decreases self.tokens@.len() - i,
        {
            tokens.push((self.tokens[i].0.clone(), self.tokens[i].1.duplicate()));
            i = i + 1;
        }
        let r = MultiToken {
            owner_id: self.owner_id.clone(),
            extra_storage_in_bytes_per_emission: self.extra_storage_in_bytes_per_emission,
            tokens,
            next_token_id: self.next_token_id,
            metadata_enabled: self.metadata_enabled,
            approvals_enabled: self.approvals_enabled,
        };
        proof {
            let s = self.tokens@;
            let c = r.tokens@;
            assert(keys_unique(c)) by {
                assert forall|a: int, b: int|
                    0 <= a < c.len() && 0 <= b < c.len() && #[trigger] c[a].0@ == #[trigger] c[b].0@ implies a
                    == b by {
                    assert(c[a].0 == s[a].0);
                    assert(c[b].0 == s[b].0);
                }
            }
            assert forall|i: int| 0 <= i < c.len() implies #[trigger] r.token_ok(i) by {
                assert(self.token_ok(i));
                assert(c[i].0 == s[i].0);
            }
            assert forall|k: Seq<char>| #[trigger] has_key(c, k) == has_key(s, k) by {
                if has_key(s, k) {
                    let j = index_of(s, k);
                    assert(c[j].0 == s[j].0);
                }
                if has_key(c, k) {
                    let j = index_of(c, k);
                    assert(c[j].0 == s[j].0);
                }
            }
            assert forall|k: Seq<char>| has_key(s, k) implies #[trigger] tokens_view(c)[k]
                == tokens_view(s)[k] by {
                let j = index_of(s, k);
                lemma_index(s, j);
                assert(c[j].0 == s[j].0);
                lemma_index(c, j);
            }
            assert(tokens_view(c) =~= tokens_view(s));
        }
        r
    }

    /// Moves `amount` of a token from `sender_id` to `receiver_id`. The
    /// sender is the token's owner of record or holds a recorded approval
    /// (whose id must match `approval_id` when one is given). Every approval
    /// recorded for the token is removed; they are handed back with the
    /// account whose balance was debited.
    pub fn internal_transfer(
        &mut self,
        sender_id: &AccountId,
        receiver_id: &AccountId,
        token_id: &TokenId,
        amount: u128,
        approval_id: Option<u64>,
    ) -> (r: Result<(AccountId, Option<Vec<(AccountId, Approval)>>), MtError>)
        requires
            old(self).wf(),
        ensures
            final(self).wf(),
            match r {
                Ok((owner, removed)) => {
                    &&& old(self)@.transfer_error(sender_id@, receiver_id@, token_id@, amount, approval_id) is None
                    &&& final(self)@ == old(self)@.transferred(sender_id@, receiver_id@, token_id@, amount)
                    &&& owner@ == sender_id@
                    &&& approvals_view(removed) == old(self)@.tokens[token_id@].approvals
                },
                Err(e) => old(self)@.transfer_error(sender_id@, receiver_id@, token_id@, amount, approval_id)
                    == Some(e) && final(self)@ == old(self)@,
            },
    {
        if *sender_id == *receiver_id || amount == 0 {
            return Err(MtError::InvalidArgument);
        }
        let ti = match find(&self.tokens, token_id) {
            Some(i) => i,
            None => {
                return Err(MtError::NotFound);
            },
        };
        proof {
            lemma_index(self.tokens@, ti as int);
            assert(self.token_ok(ti as int));
        }
        if self.tokens[ti].1.owner_id != *sender_id {
            match &self.tokens[ti].1.approvals {
                None => {
                    return Err(MtError::Unauthorized);
                },
                Some(list) => {
                    match find(list, sender_id) {
                        None => {
                            return Err(MtError::Unauthorized);
                        },
                        Some(k) => {
                            proof {
                                lemma_index(list@, k as int);
                            }
                            if let Some(id) = approval_id {
                                if list[k].1.approval_id != id {
                                    return Err(MtError::ApprovalMismatch);
                                }
                            }
                        },
                    }
                },
            }
        }
        if find(&self.tokens[ti].1.balances, receiver_id).is_none() {
            return Err(MtError::NotRegistered);
        }
        proof {
            let bs = self.tokens@[ti as int].1.balances@;
            assert(self@.registered(token_id@, receiver_id@)) by {
                let j = choose|j: int| 0 <= j < bs.len() && bs[j].0@ == receiver_id@;
                assert(has_key(bs, receiver_id@));
            }
        }
        self.internal_withdraw(token_id, sender_id, amount)?;
        proof {
            lemma_balance_le_supply(self, token_id@, receiver_id@);
        }
        let deposited = self.internal_deposit(token_id, receiver_id, amount);
        proof {
            assert(deposited is Ok);
        }
        let removed = self.take_approvals(token_id);
        Ok((sender_id.clone(), removed))
    }

    /// Applies every leg of a batch, in order, or none of them: the first
    /// refused leg refuses the whole batch and leaves the ledger unchanged.
    /// The token and amount lists must be of one non-zero length, as must the
    /// approval ids when they are given.
    pub fn internal_batch_transfer(
        &mut self,
        sender_id: &AccountId,
        receiver_id: &AccountId,
        token_ids: &Vec<TokenId>,
        amounts: &Vec<u128>,
        approval_ids: Option<Vec<Option<u64>>>,
    ) -> (r: Result<(Vec<AccountId>, Vec<Option<Vec<(AccountId, Approval)>>>), MtError>)
        requires
            old(self).wf(),
        ensures
            final(self).wf(),
            ({
                let n = token_ids@.len();
                let ids = batch_ids(approval_ids, n);
                let shape_ok = n == amounts@.len() && n > 0 && ids.len() == n;
                match r {
                    Ok((owners, removed)) => {
                        &&& shape_ok
                        &&& old(self)@.batch_outcome(sender_id@, receiver_id@, token_ids@, amounts@, ids, n)
                            == Ok::<MultiTokenView, MtError>(final(self)@)
                        &&& owners@.len() == n
                        &&& removed@.len() == n
                        &&& forall|i: int| 0 <= i < n ==> #[trigger] owners@[i]@ == sender_id@
                    },
                    Err(e) => {
                        &&& final(self)@ == old(self)@
                        &&& !shape_ok ==> e == MtError::InvalidArgument
                        &&& shape_ok ==> old(self)@.batch_outcome(
                            sender_id@,
                            receiver_id@,
                            token_ids@,
                            amounts@,
                            ids,
                            n,
                        ) == Err::<MultiTokenView, MtError>(e)
                    },
                }
            }),
    {
        let n = token_ids.len();
        if n != amounts.len() || n == 0 {
            return Err(MtError::InvalidArgument);
        }
        let ids: Vec<Option<u64>> = match approval_ids {
            Some(v) => v,
            None => {
                let mut v: Vec<Option<u64>> = Vec::new();
                let mut i: usize = 0;
                while i < n
                    invariant
                        i <= n,
                        v@ == Seq::new(i as nat, |k: int| None::<u64>),
                    decreases n - i,
                {
                    v.push(None);
                    i = i + 1;
                    assert(v@ =~= Seq::new(i as nat, |k: int| None::<u64>));
                }
                v
            },
        };
        if ids.len() != n {
            return Err(MtError::InvalidArgument);
        }
        let ghost start = self@;
        let mut work = self.duplicate();
        let mut owners: Vec<AccountId> = Vec::new();
        let mut removed: Vec<Option<Vec<(AccountId, Approval)>>> = Vec::new();
        let mut i: usize = 0;
        while i < n
            invariant
                i <= n,
                n == token_ids@.len(),
                n == amounts@.len(),
                n == ids@.len(),
                ids@ == batch_ids(approval_ids, n as nat),
                work.wf(),
                *self == *old(self),
                self.wf(),
                start == old(self)@,
                start.batch_outcome(sender_id@, receiver_id@, token_ids@, amounts@, ids@, i as nat)
                    == Ok::<MultiTokenView, MtError>(work@),
                owners@.len() == i,
                removed@.len() == i,
                forall|k: int| 0 <= k < i ==> #[trigger] owners@[k]@ == sender_id@,
            decreases n - i,
        {
            let leg = work.internal_transfer(sender_id, receiver_id, &token_ids[i], amounts[i], ids[i]);
            match leg {
                Ok((owner, gone)) => {
                    owners.push(owner);
                    removed.push(gone);
                },
                Err(e) => {
                    proof {
                        batch_outcome_stops(start, sender_id@, receiver_id@, token_ids@, amounts@, ids@, (i + 1) as nat, n as nat);
                    }
                    return Err(e);
                },
            }
            i = i + 1;
        }
        *self = work;
        Ok((owners, removed))
    }

    /// A transfer of one token by `sender_id`, who attached
    /// `attached_deposit`; exactly one unit must be attached.
    pub fn mt_transfer(
        &mut self,
        sender_id: &AccountId,
        attached_deposit: u128,
        receiver_id: AccountId,
        token_id: TokenId,
        amount: u128,
        approval: Option<u64>,
    ) -> (r: Result<(), MtError>)
        requires
            old(self).wf(),
        ensures
            final(self).wf(),
            attached_deposit != ONE_YOCTO ==> r == Err::<(), MtError>(MtError::PrecheckFailed),
            match r {
                Ok(()) => attached_deposit == ONE_YOCTO && old(self)@.transfer_error(
                    sender_id@,
                    receiver_id@,
                    token_id@,
                    amount,
                    approval,
                ) is None && final(self)@ == old(self)@.transferred(
                    sender_id@,
                    receiver_id@,
                    token_id@,
                    amount,
                ),
                Err(e) => final(self)@ == old(self)@ && (attached_deposit == ONE_YOCTO ==> Some(e)
                    == old(self)@.transfer_error(sender_id@, receiver_id@, token_id@, amount, approval)),
            },
    {
        let ghost t = token_id@;
        let mut token_ids: Vec<TokenId> = Vec::new();
        token_ids.push(token_id);
        let mut amounts: Vec<u128> = Vec::new();
        amounts.push(amount);
        let mut ids: Vec<Option<u64>> = Vec::new();
        ids.push(approval);
        let r = self.mt_batch_transfer(sender_id, attached_deposit, receiver_id, token_ids, amounts, Some(ids));
        proof {
            reveal_with_fuel(MultiTokenView::batch_outcome, 2);
            assert(token_ids@[0]@ == t);
        }
        r
    }

    /// A batch transfer by `sender_id`, who attached `attached_deposit`;
    /// exactly one unit must be attached.
    pub fn mt_batch_transfer(
        &mut self,
        sender_id: &AccountId,
        attached_deposit: u128,
        receiver_id: AccountId,
        token_ids: Vec<TokenId>,
        amounts: Vec<u128>,
        approval_ids: Option<Vec<Option<u64>>>,
    ) -> (r: Result<(), MtError>)
        requires
            old(self).wf(),
        ensures
            final(self).wf(),
            ({
                let n = token_ids@.len();
                let ids = batch_ids(approval_ids, n);
                let shape_ok = n == amounts@.len() && n > 0 && ids.len() == n;
                match r {
                    Ok(()) => {
                        &&& attached_deposit == ONE_YOCTO
                        &&& shape_ok
                        &&& old(self)@.batch_outcome(sender_id@, receiver_id@, token_ids@, amounts@, ids, n)
                            == Ok::<MultiTokenView, MtError>(final(self)@)
                    },
                    Err(e) => {
                        &&& final(self)@ == old(self)@
                        &&& attached_deposit != ONE_YOCTO ==> e == MtError::PrecheckFailed
                        &&& attached_deposit == ONE_YOCTO && !shape_ok ==> e == MtError::InvalidArgument
                        &&& attached_deposit == ONE_YOCTO && shape_ok ==> old(self)@.batch_outcome(
                            sender_id@,
                            receiver_id@,
                            token_ids@,
                            amounts@,
                            ids,
                            n,
                        ) == Err::<MultiTokenView, MtError>(e)
                    },
                }
            }),
    {
        if attached_deposit != ONE_YOCTO {
            return Err(MtError::PrecheckFailed);
        }
        match self.internal_batch_transfer(sender_id, &receiver_id, &token_ids, &amounts, approval_ids) {
            Ok(_) => Ok(()),
            Err(e) => Err(e),
        }
    }

    /// Records an approval for `account_id` on a token, under the token's
    /// next approval id, and hands it back.
    pub fn internal_approve(&mut self, token_id: &TokenId, account_id: &AccountId, amount: u128) -> (r:
        Result<Approval, MtError>)
        requires
            old(self).wf(),
        ensures
            final(self).wf(),
            match r {
                Ok(a) => {
                    &&& old(self)@.approve_error(token_id@) is None
                    &&& a == Approval { approval_id: old(self)@.tokens[token_id@].next_approval_id, amount }
                    &&& final(self)@ == old(self)@.approval_granted(token_id@, account_id@, amount)
                },
                Err(e) => old(self)@.approve_error(token_id@) == Some(e) && final(self)@ == old(self)@,
            },
    {
        if !self.approvals_enabled {
            return Err(MtError::InvalidArgument);
        }
        let ti = match find(&self.tokens, token_id) {
            Some(i) => i,
            None => {
                return Err(MtError::NotFound);
            },
        };
        let ghost s0 = self.tokens@;
        let ghost ts0 = s0[ti as int].1;
        proof {
            lemma_index(s0, ti as int);
            assert(self.token_ok(ti as int));
        }
        let id = self.tokens[ti].1.next_approval_id;
        if id == u64::MAX {
            return Err(MtError::IdSpaceExhausted);
        }
        let granted = Approval { approval_id: id, amount };
        let mut list: Option<Vec<(AccountId, Approval)>> = None;
        std::mem::swap(&mut self.tokens[ti].1.approvals, &mut list);
        let mut list: Vec<(AccountId, Approval)> = match list {
            Some(v) => v,
            None => Vec::new(),
        };
        let ghost l0 = list@;
        proof {
            assert(keys_unique(l0));
            assert(to_map(l0) =~= match ts0.approvals {
                Some(v) => to_map(v@),
                None => Map::<Seq<char>, Approval>::empty(),
            });
        }
        match find(&list, account_id) {
            Some(k) => {
                proof {
                    lemma_update(l0, k as int, l0[k as int].0, granted);
                }
                list[k].1 = granted;
                proof {
                    assert(list@ == l0.update(k as int, (l0[k as int].0, granted)));
                }
            },
            None => {
                let entry = (account_id.clone(), granted);
                proof {
                    lemma_push(l0, entry.0, granted);
                }
                list.push(entry);
            },
        }
        let mut some_list = Some(list);
        std::mem::swap(&mut self.tokens[ti].1.approvals, &mut some_list);
        self.tokens[ti].1.next_approval_id = id + 1;
        proof {
            let ts1 = self.tokens@[ti as int].1;
            assert(self.tokens@ == s0.update(ti as int, (s0[ti as int].0, ts1)));
            lemma_tokens_view_update(s0, ti as int, s0[ti as int].0, ts1);
            assert forall|i: int| 0 <= i < self.tokens@.len() implies #[trigger] self.token_ok(i) by {
                assert(old(self).token_ok(i));
            }
            assert(ts1@ == old(self)@.approval_granted(token_id@, account_id@, amount).tokens[token_id@]);
            assert(self@.tokens =~= old(self)@.approval_granted(token_id@, account_id@, amount).tokens);
        }
        Ok(granted)
    }

    /// Removes the token's recorded approvals and hands them back.
    fn take_approvals(&mut self, token_id: &TokenId) -> (r: Option<Vec<(AccountId, Approval)>>)
        requires
            old(self).wf(),
            old(self)@.has_token(token_id@),
        ensures
            final(self).wf(),
            final(self)@ == old(self)@.approvals_cleared(token_id@),
            approvals_view(r) == old(self)@.tokens[token_id@].approvals,
            r matches Some(a) ==> keys_unique(a@),
    {
        let ghost s0 = self.tokens@;
        let ti = match find(&self.tokens, token_id) {
            Some(i) => i,
            None => {
                return None;
            },
        };
        proof {
            lemma_index(s0, ti as int);
            assert(self.token_ok(ti as int));
        }
        let mut removed: Option<Vec<(AccountId, Approval)>> = None;
        std::mem::swap(&mut self.tokens[ti].1.approvals, &mut removed);
        proof {
            let ts1 = self.tokens@[ti as int].1;
            assert(self.tokens@ == s0.update(ti as int, (s0[ti as int].0, ts1)));
            lemma_tokens_view_update(s0, ti as int, s0[ti as int].0, ts1);
            assert forall|i: int| 0 <= i < self.tokens@.len() implies #[trigger] self.token_ok(i) by {
                assert(old(self).token_ok(i));
            }
            assert(ts1@ == TokenView { approvals: None, ..s0[ti as int].1@ });
            assert(self@.tokens =~= old(self)@.approvals_cleared(token_id@).tokens);
        }
        removed
    }
}

} // verus!
