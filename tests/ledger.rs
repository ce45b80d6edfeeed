use multi_token::ledger::{MtError, MultiToken, TokenMetadata};
use multi_token::settlement::{classify_reply, unused_amounts, NotifyOutcome, ReceiverReply};

fn acct(s: &str) -> String {
    s.to_string()
}

fn ledger() -> MultiToken {
    MultiToken::new(acct("ledger.near"), false, true)
}

fn balance(mt: &MultiToken, t: &str, a: &str) -> u128 {
    mt.internal_unwrap_balance_of(&acct(t), &acct(a)).unwrap()
}

fn mint(mt: &mut MultiToken, owner: &str, amount: u128) -> String {
    mt.internal_mint(acct(owner), Some(amount), None).unwrap().token_id
}

#[test]
fn mint_assigns_increasing_ids_and_balance() {
    let mut mt = ledger();
    let t1 = mt.internal_mint(acct("alice"), Some(1000), None).unwrap();
    assert_eq!(t1.token_id, "1");
    assert_eq!(t1.owner_id, "alice");
    assert_eq!(t1.supply, 1000);
    assert_eq!(t1.next_approval_id, Some(0));
    assert!(t1.approvals.unwrap().is_empty());
    for _ in 0..8 {
        mint(&mut mt, "alice", 1);
    }
    assert_eq!(mint(&mut mt, "bob", 5), "10");
    assert_eq!(balance(&mt, "1", "alice"), 1000);
    assert_eq!(balance(&mt, "10", "bob"), 5);
    assert_eq!(mt.mt_supply(&acct("1")), Some(1000));
    assert_eq!(mt.mt_supply(&acct("11")), None);
}

#[test]
fn mint_without_amount_registers_zero() {
    let mut mt = ledger();
    let t = mt.internal_mint(acct("alice"), None, None).unwrap();
    assert_eq!(t.supply, 0);
    assert_eq!(balance(&mt, "1", "alice"), 0);
}

#[test]
fn mint_requires_metadata_when_enabled() {
    let mut mt = MultiToken::new(acct("ledger.near"), true, false);
    assert_eq!(mt.internal_mint(acct("alice"), Some(1), None).err(), Some(MtError::InvalidMetadata));
    let meta = TokenMetadata {
        title: Some(acct("Gold")),
        description: None,
        media: None,
        reference: None,
    };
    let t = mt.internal_mint(acct("alice"), Some(1), Some(meta)).unwrap();
    assert_eq!(t.token_id, "1");
    assert!(t.approvals.is_none());
    let got = mt.internal_get_token_metadata(&acct("1")).unwrap();
    assert_eq!(got.metadata.unwrap().title, Some(acct("Gold")));
    assert_eq!(got.next_approval_id, None);
}

#[test]
fn approval_ids_can_be_exhausted() {
    let mut mt = ledger();
    let t1 = mint(&mut mt, "alice", 10);
    mt.tokens[0].1.next_approval_id = u64::MAX;
    assert_eq!(mt.internal_approve(&t1, &acct("bob"), 1).err(), Some(MtError::IdSpaceExhausted));
    assert_eq!(mt.internal_approve(&acct("2"), &acct("bob"), 1).err(), Some(MtError::NotFound));
    let mut plain = MultiToken::new(acct("ledger.near"), false, false);
    let t = mint(&mut plain, "alice", 10);
    assert_eq!(plain.internal_approve(&t, &acct("bob"), 1).err(), Some(MtError::InvalidArgument));
}

#[test]
fn scenario_single_transfer() {
    let mut mt = ledger();
    let t1 = mint(&mut mt, "alice", 1000);
    assert_eq!(balance(&mt, &t1, "alice"), 1000);
    mt.internal_register_account(&t1, &acct("bob")).unwrap();
    let (owner, _) = mt.internal_transfer(&acct("alice"), &acct("bob"), &t1, 4, None).unwrap();
    assert_eq!(owner, "alice");
    assert_eq!(balance(&mt, &t1, "alice"), 996);
    assert_eq!(balance(&mt, &t1, "bob"), 4);
}

#[test]
fn scenario_batch_transfer_applies_every_leg() {
    let mut mt = ledger();
    let t1 = mint(&mut mt, "alice", 1000);
    let t2 = mint(&mut mt, "alice", 1000);
    mt.internal_register_account(&t1, &acct("bob")).unwrap();
    mt.internal_register_account(&t2, &acct("bob")).unwrap();
    let r = mt.mt_batch_transfer(&acct("alice"), 1, acct("bob"), vec![t1.clone(), t2.clone()], vec![4, 600], None);
    assert_eq!(r, Ok(()));
    assert_eq!(balance(&mt, &t1, "bob"), 4);
    assert_eq!(balance(&mt, &t2, "bob"), 600);
    assert_eq!(balance(&mt, &t1, "alice"), 996);
    assert_eq!(balance(&mt, &t2, "alice"), 400);
}

#[test]
fn scenario_batch_transfer_is_all_or_nothing() {
    let mut mt = ledger();
    let t1 = mint(&mut mt, "alice", 1000);
    let t2 = mint(&mut mt, "alice", 1000);
    mt.internal_register_account(&t1, &acct("bob")).unwrap();
    let r = mt.mt_batch_transfer(&acct("alice"), 1, acct("bob"), vec![t1.clone(), t2.clone()], vec![4, 600], None);
    assert_eq!(r, Err(MtError::NotRegistered));
    assert_eq!(balance(&mt, &t1, "bob"), 0);
    assert_eq!(balance(&mt, &t1, "alice"), 1000);
    assert_eq!(balance(&mt, &t2, "alice"), 1000);
}

#[test]
fn batch_rejects_bad_shapes_and_deposit() {
    let mut mt = ledger();
    let t1 = mint(&mut mt, "alice", 1000);
    mt.internal_register_account(&t1, &acct("bob")).unwrap();
    assert_eq!(
        mt.mt_batch_transfer(&acct("alice"), 1, acct("bob"), vec![t1.clone()], vec![4, 5], None),
        Err(MtError::InvalidArgument)
    );
    assert_eq!(
        mt.mt_batch_transfer(&acct("alice"), 1, acct("bob"), vec![], vec![], None),
        Err(MtError::InvalidArgument)
    );
    assert_eq!(
        mt.mt_batch_transfer(&acct("alice"), 1, acct("bob"), vec![t1.clone()], vec![4], Some(vec![])),
        Err(MtError::InvalidArgument)
    );
    assert_eq!(
        mt.mt_transfer(&acct("alice"), 0, acct("bob"), t1.clone(), 4, None),
        Err(MtError::PrecheckFailed)
    );
    assert_eq!(mt.mt_transfer(&acct("alice"), 1, acct("bob"), t1.clone(), 4, None), Ok(()));
    assert_eq!(balance(&mt, &t1, "bob"), 4);
}

#[test]
fn scenario_transfer_call_with_partial_use() {
    let mut mt = ledger();
    let t1 = mint(&mut mt, "alice", 1000);
    mt.internal_register_account(&t1, &acct("bob")).unwrap();
    let plan = mt
        .mt_transfer_call(&acct("alice"), 1, 300_000_000_000_000, acct("bob"), t1.clone(), 100, None, acct("hi"))
        .unwrap();
    assert_eq!(plan.notify.receiver_id, "bob");
    assert_eq!(plan.notify.previous_owner_ids, vec![acct("alice")]);
    assert_eq!(plan.notify.amounts, vec![100]);
    assert_eq!(plan.notify.msg, "hi");
    assert_eq!(plan.notify.gas, 270_000_000_000_000);
    assert_eq!(plan.resolve.previous_owner_id, "alice");
    assert_eq!(balance(&mt, &t1, "bob"), 100);
    let outcome = NotifyOutcome::Successful(b"[\"30\"]".to_vec());
    let kept = mt
        .mt_resolve_transfer(
            &acct("ledger.near"),
            &acct("ledger.near"),
            &plan.resolve.previous_owner_id,
            &plan.resolve.receiver_id,
            &plan.resolve.token_ids,
            &plan.resolve.amounts,
            &outcome,
        )
        .unwrap();
    assert_eq!(kept, vec![70]);
    assert_eq!(balance(&mt, &t1, "alice"), 930);
    assert_eq!(balance(&mt, &t1, "bob"), 70);
}

#[test]
fn scenario_transfer_call_after_receiver_spent() {
    let mut mt = ledger();
    let t1 = mint(&mut mt, "alice", 1000);
    mt.internal_register_account(&t1, &acct("bob")).unwrap();
    mt.internal_register_account(&t1, &acct("carol")).unwrap();
    let plan = mt
        .mt_transfer_call(&acct("alice"), 1, 300_000_000_000_000, acct("bob"), t1.clone(), 100, None, acct(""))
        .unwrap();
    mt.internal_approve(&t1, &acct("bob"), 90).unwrap();
    mt.internal_transfer(&acct("bob"), &acct("carol"), &t1, 90, None).unwrap();
    assert_eq!(balance(&mt, &t1, "bob"), 10);
    let outcome = NotifyOutcome::Successful(b"[\"30\"]".to_vec());
    let kept = mt
        .mt_resolve_transfer(
            &acct("ledger.near"),
            &acct("ledger.near"),
            &acct("alice"),
            &acct("bob"),
            &plan.resolve.token_ids,
            &plan.resolve.amounts,
            &outcome,
        )
        .unwrap();
    assert_eq!(kept, vec![90]);
    assert_eq!(balance(&mt, &t1, "alice"), 910);
    assert_eq!(balance(&mt, &t1, "bob"), 0);
    assert_eq!(balance(&mt, &t1, "carol"), 90);
}

#[test]
fn transfer_call_precheck() {
    let mut mt = ledger();
    let t1 = mint(&mut mt, "alice", 1000);
    mt.internal_register_account(&t1, &acct("bob")).unwrap();
    let low = mt.mt_transfer_call(&acct("alice"), 1, 35_000_000_000_000, acct("bob"), t1.clone(), 100, None, acct(""));
    assert_eq!(low.err(), Some(MtError::PrecheckFailed));
    let no_deposit = mt.mt_transfer_call(&acct("alice"), 0, 300_000_000_000_000, acct("bob"), t1.clone(), 100, None, acct(""));
    assert_eq!(no_deposit.err(), Some(MtError::PrecheckFailed));
    assert_eq!(balance(&mt, &t1, "bob"), 0);
}

#[test]
fn resolve_failed_call_refunds_everything() {
    let mut mt = ledger();
    let t1 = mint(&mut mt, "alice", 1000);
    mt.internal_register_account(&t1, &acct("bob")).unwrap();
    mt.internal_transfer(&acct("alice"), &acct("bob"), &t1, 100, None).unwrap();
    let kept = mt
        .mt_resolve_transfer(&acct("me"), &acct("me"), &acct("alice"), &acct("bob"), &vec![t1.clone()], &vec![100], &NotifyOutcome::Failed)
        .unwrap();
    assert_eq!(kept, vec![0]);
    assert_eq!(balance(&mt, &t1, "alice"), 1000);
}

#[test]
fn resolve_unreadable_reply_keeps_everything() {
    let mut mt = ledger();
    let t1 = mint(&mut mt, "alice", 1000);
    mt.internal_register_account(&t1, &acct("bob")).unwrap();
    mt.internal_transfer(&acct("alice"), &acct("bob"), &t1, 100, None).unwrap();
    let outcome = NotifyOutcome::Successful(b"not json".to_vec());
    let kept = mt
        .mt_resolve_transfer(&acct("me"), &acct("me"), &acct("alice"), &acct("bob"), &vec![t1.clone()], &vec![100], &outcome)
        .unwrap();
    assert_eq!(kept, vec![100]);
    assert_eq!(balance(&mt, &t1, "bob"), 100);
}

#[test]
fn resolve_caps_unused_at_amount_sent() {
    let mut mt = ledger();
    let t1 = mint(&mut mt, "alice", 1000);
    mt.internal_register_account(&t1, &acct("bob")).unwrap();
    mt.internal_transfer(&acct("alice"), &acct("bob"), &t1, 100, None).unwrap();
    let outcome = NotifyOutcome::Successful(b"[\"500\"]".to_vec());
    let kept = mt
        .mt_resolve_transfer(&acct("me"), &acct("me"), &acct("alice"), &acct("bob"), &vec![t1.clone()], &vec![100], &outcome)
        .unwrap();
    assert_eq!(kept, vec![0]);
    assert_eq!(balance(&mt, &t1, "alice"), 1000);
}

#[test]
fn resolve_rejects_other_callers() {
    let mut mt = ledger();
    let t1 = mint(&mut mt, "alice", 1000);
    let r = mt.mt_resolve_transfer(&acct("mallory"), &acct("me"), &acct("alice"), &acct("bob"), &vec![t1], &vec![1], &NotifyOutcome::Failed);
    assert_eq!(r, Err(MtError::Unauthorized));
}

#[test]
fn resolve_burns_when_owner_entry_is_gone() {
    let mut mt = ledger();
    let t1 = mint(&mut mt, "alice", 1000);
    mt.internal_register_account(&t1, &acct("bob")).unwrap();
    mt.internal_transfer(&acct("alice"), &acct("bob"), &t1, 100, None).unwrap();
    let (kept, burned) = mt.internal_resolve_single_transfer(&acct("zed"), &acct("bob"), &t1, 100, 40);
    assert_eq!((kept, burned), (100, 40));
    assert_eq!(balance(&mt, &t1, "bob"), 60);
    assert_eq!(mt.mt_supply(&t1), Some(960));
}

#[test]
fn reply_reading() {
    let ok = classify_reply(&NotifyOutcome::Successful(b"[\"30\",\"7\"]".to_vec()), 2);
    match &ok {
        ReceiverReply::Unused(v) => assert_eq!(v, &vec![30, 7]),
        _ => panic!("expected amounts"),
    }
    assert_eq!(unused_amounts(&vec![20, 20], &ok), vec![20, 7]);
    let short = classify_reply(&NotifyOutcome::Successful(b"[\"30\"]".to_vec()), 2);
    assert!(matches!(short, ReceiverReply::Malformed));
    let numbers = classify_reply(&NotifyOutcome::Successful(b"[30]".to_vec()), 1);
    assert!(matches!(numbers, ReceiverReply::Malformed));
    assert!(matches!(classify_reply(&NotifyOutcome::Failed, 1), ReceiverReply::Failed));
    assert_eq!(unused_amounts(&vec![5, 6], &ReceiverReply::Failed), vec![5, 6]);
    assert_eq!(unused_amounts(&vec![5, 6], &ReceiverReply::Malformed), vec![0, 0]);
}

#[test]
fn scenario_approvals_gate_non_owner_transfers() {
    let mut mt = ledger();
    let t1 = mint(&mut mt, "alice", 1000);
    mt.internal_register_account(&t1, &acct("bob")).unwrap();
    mt.internal_register_account(&t1, &acct("carol")).unwrap();
    mt.internal_transfer(&acct("alice"), &acct("bob"), &t1, 100, None).unwrap();
    assert_eq!(
        mt.internal_transfer(&acct("bob"), &acct("carol"), &t1, 10, None).err(),
        Some(MtError::Unauthorized)
    );
    let a = mt.internal_approve(&t1, &acct("bob"), 50).unwrap();
    assert_eq!(a.approval_id, 0);
    assert_eq!(a.amount, 50);
    assert_eq!(
        mt.internal_transfer(&acct("bob"), &acct("carol"), &t1, 10, Some(7)).err(),
        Some(MtError::ApprovalMismatch)
    );
    let (_, removed) = mt.internal_transfer(&acct("bob"), &acct("carol"), &t1, 10, Some(0)).unwrap();
    assert_eq!(removed.unwrap().len(), 1);
    assert_eq!(balance(&mt, &t1, "bob"), 90);
    assert_eq!(balance(&mt, &t1, "carol"), 10);
    // every approval of the token was consumed by that transfer
    assert_eq!(
        mt.internal_transfer(&acct("bob"), &acct("carol"), &t1, 10, None).err(),
        Some(MtError::Unauthorized)
    );
    let b = mt.internal_approve(&t1, &acct("bob"), 50).unwrap();
    assert_eq!(b.approval_id, 1);
}

#[test]
fn transfer_boundaries() {
    let mut mt = ledger();
    let t1 = mint(&mut mt, "alice", 1000);
    mt.internal_register_account(&t1, &acct("bob")).unwrap();
    assert_eq!(mt.internal_transfer(&acct("alice"), &acct("bob"), &t1, 0, None).err(), Some(MtError::InvalidArgument));
    assert_eq!(mt.internal_transfer(&acct("alice"), &acct("alice"), &t1, 5, None).err(), Some(MtError::InvalidArgument));
    assert_eq!(mt.internal_transfer(&acct("alice"), &acct("bob"), &acct("9"), 5, None).err(), Some(MtError::NotFound));
    assert_eq!(mt.internal_transfer(&acct("alice"), &acct("carol"), &t1, 5, None).err(), Some(MtError::NotRegistered));
    assert_eq!(
        mt.internal_transfer(&acct("alice"), &acct("bob"), &t1, 1001, None).err(),
        Some(MtError::InsufficientBalance)
    );
    assert_eq!(balance(&mt, &t1, "alice"), 1000);
}

#[test]
fn ledger_boundaries() {
    let mut mt = ledger();
    let t1 = mint(&mut mt, "alice", u128::MAX);
    mt.internal_register_account(&t1, &acct("bob")).unwrap();
    assert_eq!(mt.internal_deposit(&t1, &acct("bob"), 1), Err(MtError::Overflow));
    assert_eq!(mt.internal_deposit(&t1, &acct("alice"), 1), Err(MtError::Overflow));
    assert_eq!(mt.internal_withdraw(&t1, &acct("bob"), 1), Err(MtError::InsufficientBalance));
    assert_eq!(mt.internal_withdraw(&t1, &acct("carol"), 1), Err(MtError::NotRegistered));
    assert_eq!(mt.internal_withdraw(&acct("2"), &acct("bob"), 1), Err(MtError::NotFound));
    assert_eq!(mt.internal_register_account(&t1, &acct("bob")), Err(MtError::AlreadyRegistered));
    assert_eq!(mt.internal_register_account(&acct("2"), &acct("bob")), Err(MtError::NotFound));
    assert_eq!(mt.internal_unwrap_balance_of(&t1, &acct("carol")), Err(MtError::NotRegistered));
    assert_eq!(mt.mt_balance_of(&acct("carol"), &t1), Ok(0));
    assert_eq!(mt.mt_balance_of(&acct("carol"), &acct("2")), Err(MtError::NotFound));
}

#[test]
fn register_then_balance_is_zero() {
    let mut mt = ledger();
    let t1 = mint(&mut mt, "alice", 10);
    mt.internal_register_account(&t1, &acct("bob")).unwrap();
    assert_eq!(balance(&mt, &t1, "bob"), 0);
}

#[test]
fn deposit_then_withdraw_restores() {
    let mut mt = ledger();
    let t1 = mint(&mut mt, "alice", 10);
    mt.internal_deposit(&t1, &acct("alice"), 25).unwrap();
    assert_eq!(balance(&mt, &t1, "alice"), 35);
    assert_eq!(mt.mt_supply(&t1), Some(35));
    mt.internal_withdraw(&t1, &acct("alice"), 25).unwrap();
    assert_eq!(balance(&mt, &t1, "alice"), 10);
    assert_eq!(mt.mt_supply(&t1), Some(10));
}

#[test]
fn transfer_there_and_back_restores() {
    let mut mt = ledger();
    let t1 = mint(&mut mt, "alice", 1000);
    mt.internal_register_account(&t1, &acct("bob")).unwrap();
    mt.internal_transfer(&acct("alice"), &acct("bob"), &t1, 40, None).unwrap();
    mt.internal_approve(&t1, &acct("bob"), 40).unwrap();
    mt.internal_transfer(&acct("bob"), &acct("alice"), &t1, 40, None).unwrap();
    assert_eq!(balance(&mt, &t1, "alice"), 1000);
    assert_eq!(balance(&mt, &t1, "bob"), 0);
}

#[test]
fn same_transfer_twice_moves_twice() {
    let mut mt = ledger();
    let t1 = mint(&mut mt, "alice", 1000);
    mt.internal_register_account(&t1, &acct("bob")).unwrap();
    mt.internal_transfer(&acct("alice"), &acct("bob"), &t1, 7, None).unwrap();
    mt.internal_transfer(&acct("alice"), &acct("bob"), &t1, 7, None).unwrap();
    assert_eq!(balance(&mt, &t1, "alice"), 986);
    assert_eq!(balance(&mt, &t1, "bob"), 14);
}

#[test]
fn supply_tracks_sum_of_balances() {
    let mut mt = ledger();
    let t1 = mint(&mut mt, "alice", 500);
    mt.internal_register_account(&t1, &acct("bob")).unwrap();
    mt.internal_register_account(&t1, &acct("carol")).unwrap();
    mt.internal_transfer(&acct("alice"), &acct("bob"), &t1, 120, None).unwrap();
    mt.internal_deposit(&t1, &acct("carol"), 30).unwrap();
    mt.internal_withdraw(&t1, &acct("bob"), 20).unwrap();
    let sum = balance(&mt, &t1, "alice") + balance(&mt, &t1, "bob") + balance(&mt, &t1, "carol");
    assert_eq!(mt.mt_supply(&t1), Some(sum));
    assert_eq!(sum, 510);
}

#[test]
fn batch_queries() {
    let mut mt = ledger();
    let t1 = mint(&mut mt, "alice", 5);
    let t2 = mint(&mut mt, "bob", 6);
    assert_eq!(mt.mt_batch_balance_of(&acct("alice"), &vec![t1.clone(), t2.clone()]), Ok(vec![5, 0]));
    assert_eq!(mt.mt_batch_balance_of(&acct("alice"), &vec![t1.clone(), acct("3")]), Err(MtError::NotFound));
    assert_eq!(mt.mt_batch_supply(&vec![t2.clone(), acct("3")]), vec![Some(6), None]);
    let toks = mt.mt_token(&vec![t2.clone(), acct("3")]);
    assert_eq!(toks.len(), 2);
    assert_eq!(toks[0].as_ref().unwrap().owner_id, "bob");
    assert!(toks[1].is_none());
}
