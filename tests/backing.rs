use ergo_cf::{
    BackingAction, BackingEvent, BackingFlow, BackingPhase, BackingTx, Campaign, CampaignError,
    CampaignRecord, CrowdfundingCampaign,
};

fn campaign() -> Campaign {
    Campaign::new(
        &"Roof".to_string(),
        &"9hOwner".to_string(),
        &"650000".to_string(),
        &"150".to_string(),
    )
    .unwrap()
}

fn started(record: CampaignRecord, amount: u64) -> BackingFlow {
    let (flow, action) = BackingFlow::start(record, amount);
    assert!(matches!(action, BackingAction::ListAddresses));
    flow
}

#[test]
fn full_backing_of_unbacked_campaign() {
    let c = campaign();
    let mut flow = started(CampaignRecord::Unbacked(c.clone()), 3);
    let a = flow.step(BackingEvent::AddressesListed("[\"9fBacker\"]".to_string()));
    let script = match a {
        BackingAction::ResolveDeposit(s) => s,
        _ => panic!("expected a script"),
    };
    assert_eq!(Ok(script), c.build_script("9fBacker"));
    let a = flow.step(BackingEvent::DepositReply(200, "{\"address\":\"3WDeposit\"}".to_string()));
    match a {
        BackingAction::SendPayment(to, body) => {
            assert_eq!(to, "3WDeposit");
            assert_eq!(body, "[{\"address\":\"3WDeposit\",\"value\":3000000000 }]");
        }
        _ => panic!("expected a payment"),
    }
    let a = flow.step(BackingEvent::PaymentReply("\"txid01\"".to_string()));
    let saved = match a {
        BackingAction::Save(b) => b,
        _ => panic!("expected a save"),
    };
    assert_eq!(saved.campaign, c);
    assert_eq!(saved.backer_address, "9fBacker");
    assert_eq!(saved.p2s_address, "3WDeposit");
    assert_eq!(saved.backer_txs, vec![BackingTx::new("txid01".to_string(), 3)]);
    match flow.step(BackingEvent::Saved(true)) {
        BackingAction::Done(b) => assert_eq!(b, saved),
        _ => panic!("expected done"),
    }
    assert!(matches!(flow.phase, BackingPhase::Finished));
}

#[test]
fn backing_again_keeps_earlier_transactions() {
    let c = campaign();
    let b = c.back_campaign("9fBacker".to_string(), "3WDeposit".to_string(), BackingTx::new("tx1".to_string(), 1));
    let mut flow = started(CampaignRecord::Backed(b), 2);
    flow.step(BackingEvent::AddressesListed("[\"9fBacker\"]".to_string()));
    flow.step(BackingEvent::DepositReply(200, "{\"address\":\"3WDeposit\"}".to_string()));
    match flow.step(BackingEvent::PaymentReply("tx2".to_string())) {
        BackingAction::Save(b) => assert_eq!(
            b.backer_txs,
            vec![BackingTx::new("tx1".to_string(), 1), BackingTx::new("tx2".to_string(), 2)]
        ),
        _ => panic!("expected a save"),
    }
}

#[test]
fn empty_wallet_stops_backing_with_no_addresses_found() {
    let mut flow = started(CampaignRecord::Unbacked(campaign()), 3);
    let a = flow.step(BackingEvent::AddressesListed("[]".to_string()));
    assert!(matches!(a, BackingAction::Fail(CampaignError::NoAddressesFound)));
    assert!(matches!(flow.phase, BackingPhase::Finished));
}

#[test]
fn several_addresses_ask_for_a_choice() {
    let mut flow = started(CampaignRecord::Unbacked(campaign()), 3);
    match flow.step(BackingEvent::AddressesListed("[\"9fA\",\"9fB\"]".to_string())) {
        BackingAction::ChooseAddress(list) => assert_eq!(list, vec!["9fA".to_string(), "9fB".to_string()]),
        _ => panic!("expected a choice"),
    }
    assert!(matches!(flow.step(BackingEvent::AddressChosen(5)), BackingAction::ChooseAddress(_)));
    match flow.step(BackingEvent::AddressChosen(2)) {
        BackingAction::ResolveDeposit(s) => assert!(s.contains("9fB")),
        _ => panic!("expected a script"),
    }
    match &flow.phase {
        BackingPhase::AwaitDeposit(b) => assert_eq!(b, "9fB"),
        _ => panic!("expected to wait for the deposit address"),
    }
}

#[test]
fn unrecorded_payment_is_reported() {
    let mut flow = started(CampaignRecord::Unbacked(campaign()), 3);
    flow.step(BackingEvent::AddressesListed("[\"9fBacker\"]".to_string()));
    flow.step(BackingEvent::DepositReply(200, "{\"address\":\"3WDeposit\"}".to_string()));
    flow.step(BackingEvent::PaymentReply("txid01".to_string()));
    let a = flow.step(BackingEvent::Saved(false));
    assert!(matches!(a, BackingAction::Fail(CampaignError::TransactionSubmittedButNotRecorded)));
}

#[test]
fn unreachable_node_stops_backing() {
    let mut flow = started(CampaignRecord::Unbacked(campaign()), 3);
    flow.step(BackingEvent::AddressesListed("[\"9fBacker\"]".to_string()));
    let a = flow.step(BackingEvent::Unreachable);
    assert!(matches!(a, BackingAction::Fail(CampaignError::NodeUnreachable)));
}

#[test]
fn node_errors_are_surfaced() {
    let mut flow = started(CampaignRecord::Unbacked(campaign()), 3);
    flow.step(BackingEvent::AddressesListed("[\"9fBacker\"]".to_string()));
    let a = flow.step(BackingEvent::DepositReply(400, "{}".to_string()));
    assert!(matches!(a, BackingAction::Fail(CampaignError::ScriptRejected)));

    let mut flow = started(CampaignRecord::Unbacked(campaign()), 3);
    flow.step(BackingEvent::AddressesListed("[\"9fBacker\"]".to_string()));
    flow.step(BackingEvent::DepositReply(200, "{\"address\":\"3WDeposit\"}".to_string()));
    let a = flow.step(BackingEvent::PaymentReply("bad.request: not enough funds".to_string()));
    assert!(matches!(a, BackingAction::Fail(CampaignError::InsufficientFunds)));
}

#[test]
fn zero_or_huge_amount_is_invalid_input() {
    let (_, a) = BackingFlow::start(CampaignRecord::Unbacked(campaign()), 0);
    assert!(matches!(a, BackingAction::Fail(CampaignError::InvalidInput)));
    let (_, a) = BackingFlow::start(CampaignRecord::Unbacked(campaign()), 18446744074);
    assert!(matches!(a, BackingAction::Fail(CampaignError::InvalidInput)));
}

#[test]
fn finished_flow_refuses_more_events() {
    let mut flow = started(CampaignRecord::Unbacked(campaign()), 3);
    flow.step(BackingEvent::AddressesListed("[]".to_string()));
    let a = flow.step(BackingEvent::Saved(true));
    assert!(matches!(a, BackingAction::Fail(CampaignError::InvalidInput)));
}
