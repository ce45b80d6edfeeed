//! Transfer-and-notify: the optimistic transfer that starts it, what the
//! receiver's reply means, and the settlement that refunds what the receiver
//! did not use.
use vstd::prelude::*;
use crate::ledger::{AccountId, MtError, MultiToken, MultiTokenView, TokenId};
use crate::transfer::{lemma_balance_le_supply, ONE_YOCTO};

verus! {

/// Gas kept back for the settlement step.
pub const GAS_FOR_RESOLVE_TRANSFER: u64 = 5_000_000_000_000;

/// Gas that a transfer-and-notify keeps for itself, settlement included.
pub const GAS_FOR_MT_TRANSFER_CALL: u64 = 25_000_000_000_000 + GAS_FOR_RESOLVE_TRANSFER;

/// How the receiver's notification call ended.
pub enum NotifyOutcome {
    /// The call returned these bytes.
    Successful(Vec<u8>),
    /// The call failed.
    Failed,
}

/// What the receiver's reply says about the amounts it did not use.
pub enum ReceiverReply {
    /// The call failed: nothing was used.
    Failed,
    /// One unused amount per token.
    Unused(Vec<u128>),
    /// The call succeeded without a readable reply: everything was used.
    Malformed,
}

/// The notification to send to the receiver.
pub struct NotifyCall {
    pub sender_id: AccountId,
    pub previous_owner_ids: Vec<AccountId>,
    pub token_ids: Vec<TokenId>,
    pub amounts: Vec<u128>,
    pub msg: String,
    pub receiver_id: AccountId,
    pub gas: u64,
}

/// The settlement to schedule after the notification, on the ledger itself.
pub struct ResolveCall {
    pub previous_owner_id: AccountId,
    pub receiver_id: AccountId,
    pub token_ids: Vec<TokenId>,
    pub amounts: Vec<u128>,
}

/// The two calls that follow a transfer-and-notify.
pub struct TransferCallPlan {
    pub notify: NotifyCall,
    pub resolve: ResolveCall,
}

/// The amounts that a reply in bytes lists, if it is a JSON array of decimal
/// strings.
pub uninterp spec fn unused_reply_of(bytes: Seq<u8>) -> Option<Seq<u128>>;

/// Relies on `near_sdk::serde_json::from_slice` into a vector of
/// `near_sdk::json_types::U128`: the amounts that the reply lists, or none
/// where it does not parse.
#[verifier::external_body]
fn parse_unused_reply(bytes: &Vec<u8>) -> (r: Option<Vec<u128>>)
    ensures
        match r {
            Some(v) => unused_reply_of(bytes@) == Some(v@),
            None => unused_reply_of(bytes@) is None,
        },
{
    near_sdk::serde_json::from_slice::<Vec<near_sdk::json_types::U128>>(bytes).ok().map(
        |v| v.into_iter().map(|x| x.0).collect(),
    )
}

/// The reading of a notification's outcome for a call that sent `n` amounts.
pub open spec fn reply_matches(outcome: NotifyOutcome, n: nat, reply: ReceiverReply) -> bool {
    match outcome {
        NotifyOutcome::Failed => reply is Failed,
        NotifyOutcome::Successful(bytes) => match unused_reply_of(bytes@) {
            Some(u) => if u.len() == n {
                reply matches ReceiverReply::Unused(v) && v@ == u
            } else {
                reply is Malformed
            },
            None => reply is Malformed,
        },
    }
}

/// Reads the notification's outcome: a failure, or a reply that lists one
/// amount per token, or anything else.
pub fn classify_reply(outcome: &NotifyOutcome, n: usize) -> (r: ReceiverReply)
    ensures
        reply_matches(*outcome, n as nat, r),
{
    match outcome {
        NotifyOutcome::Failed => ReceiverReply::Failed,
        NotifyOutcome::Successful(bytes) => match parse_unused_reply(bytes) {
            Some(v) => {
                if v.len() == n {
                    ReceiverReply::Unused(v)
                } else {
                    ReceiverReply::Malformed
                }
            },
            None => ReceiverReply::Malformed,
        },
    }
}

/// The unused part of leg `i`: all of it after a failure, the reply's value
/// capped at the amount sent, or none after an unreadable reply.
pub open spec fn unused_for(reply: ReceiverReply, amounts: Seq<u128>, i: int) -> u128 {
    match reply {
        ReceiverReply::Failed => amounts[i],
        ReceiverReply::Unused(v) => if v@.len() == amounts.len() {
            if v@[i] < amounts[i] {
                v@[i]
            } else {
                amounts[i]
            }
        } else {
            0
        },
        ReceiverReply::Malformed => 0,
    }
}

pub fn unused_amounts(amounts: &Vec<u128>, reply: &ReceiverReply) -> (r: Vec<u128>)
    ensures
        r@.len() == amounts@.len(),
        forall|i: int| 0 <= i < amounts@.len() ==> #[trigger] r@[i] == unused_for(*reply, amounts@, i),
{
    let mut r: Vec<u128> = Vec::new();
    let mut i: usize = 0;
    while i < amounts.len()
        invariant
            i <= amounts@.len(),
            r@.len() == i,
            forall|k: int| 0 <= k < i ==> #[trigger] r@[k] == unused_for(*reply, amounts@, k),
        decreases amounts@.len() - i,
    {
        let u: u128 = match reply {
            ReceiverReply::Failed => amounts[i],
            ReceiverReply::Unused(v) => {
                if v.len() == amounts.len() {
                    if v[i] < amounts[i] {
                        v[i]
                    } else {
                        amounts[i]
                    }
                } else {
                    0
                }
            },
            ReceiverReply::Malformed => 0,
        };
        r.push(u);
        i = i + 1;
    }
    r
}

impl MultiTokenView {
    /// What the receiver can give back of `unused`: no more than its balance.
    pub open spec fn refund_amount(self, t: Seq<char>, receiver: Seq<char>, unused: u128) -> u128 {
        let held = if self.registered(t, receiver) {
            self.balance(t, receiver)
        } else {
            0
        };
        if held < unused {
            held
        } else {
            unused
        }
    }

    /// The ledger after settling one leg: the refund leaves the receiver, and
    /// reaches the previous owner where that account is still registered, or
    /// leaves the token's supply where it is not.
    pub open spec fn resolved(self, t: Seq<char>, owner: Seq<char>, receiver: Seq<char>, unused: u128) -> Self {
        let refund = self.refund_amount(t, receiver, unused);
        if refund == 0 {
            self
        } else {
            let w = self.withdrawn(t, receiver, refund);
            if w.registered(t, owner) {
                w.deposited(t, owner, refund)
            } else {
                w
            }
        }
    }

    /// The amount the receiver keeps of one leg, and the amount burned.
    pub open spec fn settlement(
        self,
        t: Seq<char>,
        owner: Seq<char>,
        receiver: Seq<char>,
        amount: u128,
        unused: u128,
    ) -> (u128, u128) {
        let refund = self.refund_amount(t, receiver, unused);
        if refund == 0 {
            (amount, 0)
        } else if self.withdrawn(t, receiver, refund).registered(t, owner) {
            ((amount - refund) as u128, 0)
        } else {
            (amount, refund)
        }
    }

    /// The first `n` legs settled in order.
    pub open spec fn resolve_all(
        self,
        owner: Seq<char>,
        receiver: Seq<char>,
        ts: Seq<TokenId>,
        unused: Seq<u128>,
        n: nat,
    ) -> Self
        decreases n,
    {
        if n == 0 {
            self
        } else {
            self.resolve_all(owner, receiver, ts, unused, (n - 1) as nat).resolved(
                ts[n - 1]@,
                owner,
                receiver,
                unused[n - 1],
            )
        }
    }
}

impl MultiToken {
    /// Settles one leg: gives back to `owner_id` what the receiver did not
    /// use, as far as the receiver's balance allows. Returns the amount the
    /// receiver keeps and the amount burned because the owner's entry is gone.
    pub fn internal_resolve_single_transfer(
        &mut self,
        owner_id: &AccountId,
        receiver_id: &AccountId,
        token_id: &TokenId,
        amount: u128,
        unused: u128,
    ) -> (r: (u128, u128))
        requires
            old(self).wf(),
            unused <= amount,
        ensures
            final(self).wf(),
            final(self)@ == old(self)@.resolved(token_id@, owner_id@, receiver_id@, unused),
            r == old(self)@.settlement(token_id@, owner_id@, receiver_id@, amount, unused),
    {
        if unused == 0 {
            return (amount, 0);
        }
        let held: u128 = match self.internal_unwrap_balance_of(token_id, receiver_id) {
            Ok(b) => b,
            Err(_) => 0,
        };
        if held == 0 {
            return (amount, 0);
        }
        let refund: u128 = if held < unused {
            held
        } else {
            unused
        };
        proof {
            lemma_balance_le_supply(self, token_id@, receiver_id@);
        }
        let taken = self.internal_withdraw(token_id, receiver_id, refund);
        proof {
            assert(taken is Ok);
            if self@.registered(token_id@, owner_id@) {
                lemma_balance_le_supply(self, token_id@, owner_id@);
            }
        }
        match self.internal_deposit(token_id, owner_id, refund) {
            Ok(()) => (amount - refund, 0),
            Err(_) => (amount, refund),
        }
    }

    /// Settles every leg of a transfer-and-notify against the receiver's
    /// reply. Returns, per leg, the amount the receiver keeps and the amount
    /// burned.
    pub fn internal_resolve_transfers(
        &mut self,
        owner_id: &AccountId,
        receiver_id: &AccountId,
        token_ids: &Vec<TokenId>,
        amounts: &Vec<u128>,
        reply: &ReceiverReply,
    ) -> (r: (Vec<u128>, Vec<u128>))
        requires
            old(self).wf(),
            token_ids@.len() == amounts@.len(),
        ensures
            final(self).wf(),
            ({
                let n = token_ids@.len();
                let unused = Seq::new(n, |i: int| unused_for(*reply, amounts@, i));
                &&& final(self)@ == old(self)@.resolve_all(owner_id@, receiver_id@, token_ids@, unused, n)
                &&& r.0@.len() == n
                &&& r.1@.len() == n
                &&& forall|i: int|
                    0 <= i < n ==> (#[trigger] r.0@[i], r.1@[i]) == old(self)@.resolve_all(
                        owner_id@,
                        receiver_id@,
                        token_ids@,
                        unused,
                        i as nat,
                    ).settlement(token_ids@[i]@, owner_id@, receiver_id@, amounts@[i], unused[i])
            }),
    {
        let unused = unused_amounts(amounts, reply);
        let ghost n = token_ids@.len();
        let ghost spec_unused = Seq::new(n, |i: int| unused_for(*reply, amounts@, i));
        proof {
            assert(unused@ =~= spec_unused);
            assert forall|k: int| 0 <= k < n implies #[trigger] spec_unused[k] <= amounts@[k] by {
                assert(spec_unused[k] == unused_for(*reply, amounts@, k));
            }
        }
        let ghost start = self@;
        let mut kept: Vec<u128> = Vec::new();
        let mut burned: Vec<u128> = Vec::new();
        let mut i: usize = 0;
        while i < token_ids.len()
            invariant
                i <= token_ids@.len(),
                n == token_ids@.len(),
                n == amounts@.len(),
                unused@ == spec_unused,
                spec_unused.len() == n,
                forall|k: int| 0 <= k < n ==> #[trigger] spec_unused[k] <= amounts@[k],
                self.wf(),
                start == old(self)@,
                self@ == start.resolve_all(owner_id@, receiver_id@, token_ids@, spec_unused, i as nat),
                kept@.len() == i,
                burned@.len() == i,
                forall|k: int|
                    0 <= k < i ==> (#[trigger] kept@[k], burned@[k]) == start.resolve_all(
                        owner_id@,
                        receiver_id@,
                        token_ids@,
                        spec_unused,
                        k as nat,
                    ).settlement(token_ids@[k]@, owner_id@, receiver_id@, amounts@[k], spec_unused[k]),
            decreases token_ids@.len() - i,
        {
            let (k, b) = self.internal_resolve_single_transfer(
                owner_id,
                receiver_id,
                &token_ids[i],
                amounts[i],
                unused[i],
            );
            kept.push(k);
            burned.push(b);
            i = i + 1;
        }
        (kept, burned)
    }

    /// Starts a transfer-and-notify by `sender_id`, who attached
    /// `attached_deposit` and `prepaid_gas`: exactly one unit must be attached,
    /// and more gas than the call and its settlement keep. The transfer is
    /// made at once; the result says which calls follow.
    pub fn mt_transfer_call(
        &mut self,
        sender_id: &AccountId,
        attached_deposit: u128,
        prepaid_gas: u64,
        receiver_id: AccountId,
        token_id: TokenId,
        amount: u128,
        approval_id: Option<u64>,
        msg: String,
    ) -> (r: Result<TransferCallPlan, MtError>)
        requires
            old(self).wf(),
        ensures
            final(self).wf(),
            ({
                let prechecked = attached_deposit == ONE_YOCTO && prepaid_gas
                    > GAS_FOR_MT_TRANSFER_CALL + GAS_FOR_RESOLVE_TRANSFER;
                let err = old(self)@.transfer_error(sender_id@, receiver_id@, token_id@, amount, approval_id);
                match r {
                    Ok(plan) => {
                        &&& prechecked
                        &&& err is None
                        &&& final(self)@ == old(self)@.transferred(sender_id@, receiver_id@, token_id@, amount)
                        &&& plan.notify.sender_id@ == sender_id@
                        &&& plan.notify.previous_owner_ids@.len() == 1
                        &&& plan.notify.previous_owner_ids@[0]@ == sender_id@
                        &&& plan.notify.token_ids@.len() == 1
                        &&& plan.notify.token_ids@[0]@ == token_id@
                        &&& plan.notify.amounts@ == seq![amount]
                        &&& plan.notify.msg@ == msg@
                        &&& plan.notify.receiver_id@ == receiver_id@
                        &&& plan.notify.gas == prepaid_gas - GAS_FOR_MT_TRANSFER_CALL
                        &&& plan.resolve.previous_owner_id@ == sender_id@
                        &&& plan.resolve.receiver_id@ == receiver_id@
                        &&& plan.resolve.token_ids@.len() == 1
                        &&& plan.resolve.token_ids@[0]@ == token_id@
                        &&& plan.resolve.amounts@ == seq![amount]
                    },
                    Err(e) => {
                        &&& final(self)@ == old(self)@
                        &&& !prechecked ==> e == MtError::PrecheckFailed
                        &&& prechecked ==> err == Some(e)
                    },
                }
            }),
    {
        if attached_deposit != ONE_YOCTO || prepaid_gas <= GAS_FOR_MT_TRANSFER_CALL + GAS_FOR_RESOLVE_TRANSFER {
            return Err(MtError::PrecheckFailed);
        }
        let (old_owner, _removed) = self.internal_transfer(
            sender_id,
            &receiver_id,
            &token_id,
            amount,
            approval_id,
        )?;
        let mut previous_owner_ids: Vec<AccountId> = Vec::new();
        previous_owner_ids.push(old_owner.clone());
        let mut notify_tokens: Vec<TokenId> = Vec::new();
        notify_tokens.push(token_id.clone());
        let mut notify_amounts: Vec<u128> = Vec::new();
        notify_amounts.push(amount);
        let mut resolve_tokens: Vec<TokenId> = Vec::new();
        resolve_tokens.push(token_id);
        let mut resolve_amounts: Vec<u128> = Vec::new();
        resolve_amounts.push(amount);
        proof {
            assert(notify_amounts@ =~= seq![amount]);
            assert(resolve_amounts@ =~= seq![amount]);
        }
        Ok(TransferCallPlan {
            notify: NotifyCall {
                sender_id: sender_id.clone(),
                previous_owner_ids,
                token_ids: notify_tokens,
                amounts: notify_amounts,
                msg,
                receiver_id: receiver_id.clone(),
                gas: prepaid_gas - GAS_FOR_MT_TRANSFER_CALL,
            },
            resolve: ResolveCall {
                previous_owner_id: old_owner,
                receiver_id,
                token_ids: resolve_tokens,
                amounts: resolve_amounts,
            },
        })
    }

    /// The settlement step of a transfer-and-notify. Only the ledger itself
    /// may call it (`caller_id` must be `current_account_id`). Returns, per
    /// leg, the amount the receiver keeps.
    pub fn mt_resolve_transfer(
        &mut self,
        caller_id: &AccountId,
        current_account_id: &AccountId,
        previous_owner_id: &AccountId,
        receiver_id: &AccountId,
        token_ids: &Vec<TokenId>,
        amounts: &Vec<u128>,
        outcome: &NotifyOutcome,
    ) -> (r: Result<Vec<u128>, MtError>)
        requires
            old(self).wf(),
        ensures
            final(self).wf(),
            match r {
                Ok(kept) => {
                    &&& caller_id@ == current_account_id@
                    &&& token_ids@.len() == amounts@.len()
                    &&& kept@.len() == amounts@.len()
                    &&& exists|reply: ReceiverReply|
                        {
                            &&& #[trigger] reply_matches(*outcome, amounts@.len(), reply)
                            &&& {
                                let n = amounts@.len();
                                let unused = Seq::new(n, |i: int| unused_for(reply, amounts@, i));
                                &&& final(self)@ == old(self)@.resolve_all(
                                    previous_owner_id@,
                                    receiver_id@,
                                    token_ids@,
                                    unused,
                                    n,
                                )
                                &&& forall|i: int|
                                    0 <= i < n ==> #[trigger] kept@[i] == old(self)@.resolve_all(
                                        previous_owner_id@,
                                        receiver_id@,
                                        token_ids@,
                                        unused,
                                        i as nat,
                                    ).settlement(
                                        token_ids@[i]@,
                                        previous_owner_id@,
                                        receiver_id@,
                                        amounts@[i],
                                        unused[i],
                                    ).0
                            }
                        }
                },
                Err(e) => {
                    &&& final(self)@ == old(self)@
                    &&& caller_id@ != current_account_id@ ==> e == MtError::Unauthorized
                    &&& caller_id@ == current_account_id@ ==> e == MtError::InvalidArgument
                        && token_ids@.len() != amounts@.len()
                },
            },
    {
        if *caller_id != *current_account_id {
            return Err(MtError::Unauthorized);
        }
        if token_ids.len() != amounts.len() {
            return Err(MtError::InvalidArgument);
        }
        let reply = classify_reply(outcome, amounts.len());
        let (kept, _burned) = self.internal_resolve_transfers(
            previous_owner_id,
            receiver_id,
            token_ids,
            amounts,
            &reply,
        );
        proof {
            assert(reply_matches(*outcome, amounts@.len(), reply));
        }
        Ok(kept)
    }
}

} // verus!
