//! Properties that relate the ledger's operations to one another.
use vstd::prelude::*;
use crate::alist::{index_of, lemma_index, sum_values, to_map};
use crate::ledger::{MultiToken, MultiTokenView};

verus! {

/// Sum of the balances registered for token `t`.
pub open spec fn balance_total(mt: &MultiToken, t: Seq<char>) -> int {
    sum_values(mt.tokens@[index_of(mt.tokens@, t)].1.balances@)
}

/// For every token, the tracked supply equals the sum of the balances of all
/// registered accounts, whose entries are exactly the token's balances.
pub proof fn lemma_supply_is_sum_of_balances(mt: &MultiToken, t: Seq<char>)
    requires
        mt.wf(),
        mt@.has_token(t),
    ensures
        mt@.supply(t) == balance_total(mt, t),
        to_map(mt.tokens@[index_of(mt.tokens@, t)].1.balances@) == mt@.tokens[t].balances,
{
    let ti = index_of(mt.tokens@, t);
    lemma_index(mt.tokens@, ti);
    assert(mt.token_ok(ti));
}

/// A newly registered account has a zero balance.
pub proof fn lemma_register_then_zero(v: MultiTokenView, t: Seq<char>, a: Seq<char>)
    requires
        v.register_error(t, a) is None,
    ensures
        v.with_balance(t, a, 0, v.supply(t)).registered(t, a),
        v.with_balance(t, a, 0, v.supply(t)).balance(t, a) == 0,
{
}

/// A deposit followed by a withdrawal of the same amount from the same
/// account succeeds and restores the ledger exactly.
pub proof fn lemma_deposit_withdraw_round_trip(v: MultiTokenView, t: Seq<char>, a: Seq<char>, x: u128)
    requires
        v.deposit_error(t, a, x) is None,
    ensures
        v.deposited(t, a, x).withdraw_error(t, a, x) is None,
        v.deposited(t, a, x).withdrawn(t, a, x) == v,
{
    let w = v.deposited(t, a, x).withdrawn(t, a, x);
    assert(w.tokens[t].balances =~= v.tokens[t].balances);
    assert(w.tokens[t] == v.tokens[t]);
    assert(w.tokens =~= v.tokens);
}

/// A transfer from `a` to `b` followed by one of the same amount back from
/// `b` to `a` restores every balance of the token.
pub proof fn lemma_transfer_round_trip(
    v: MultiTokenView,
    a: Seq<char>,
    b: Seq<char>,
    t: Seq<char>,
    x: u128,
    id1: Option<u64>,
    id2: Option<u64>,
)
    requires
        v.transfer_error(a, b, t, x, id1) is None,
        v.transferred(a, b, t, x).transfer_error(b, a, t, x, id2) is None,
    ensures
        v.transferred(a, b, t, x).transferred(b, a, t, x).tokens[t].balances == v.tokens[t].balances,
        v.transferred(a, b, t, x).transferred(b, a, t, x).supply(t) == v.supply(t),
{
    let w = v.transferred(a, b, t, x).transferred(b, a, t, x);
    assert(w.tokens[t].balances =~= v.tokens[t].balances);
}

/// Transfers are not idempotent: the same transfer made twice moves the
/// amount twice.
pub proof fn lemma_transfer_twice(v: MultiTokenView, a: Seq<char>, b: Seq<char>, t: Seq<char>, x: u128, id: Option<u64>)
    requires
        v.transfer_error(a, b, t, x, id) is None,
        v.transferred(a, b, t, x).transfer_error(a, b, t, x, id) is None,
    ensures
        v.transferred(a, b, t, x).transferred(a, b, t, x).balance(t, a) == v.balance(t, a) - 2 * x,
        v.transferred(a, b, t, x).transferred(a, b, t, x).balance(t, b) == v.balance(t, b) + 2 * x,
{
}

} // verus!
