use ergo_cf::{
    BackedCampaign, BackingTx, Campaign, CampaignError, CampaignRecord, CrowdfundingCampaign,
};

fn s(x: &str) -> String {
    x.to_string()
}

fn sample() -> Campaign {
    Campaign::new(&s("Solar Roof"), &s("9hOwner1"), &s("650000"), &s("150")).unwrap()
}

#[test]
fn new_campaign_keeps_its_terms() {
    let c = sample();
    assert_eq!(c.name, "Solar Roof");
    assert_eq!(c.address, "9hOwner1");
    assert_eq!(c.deadline, 650000);
    assert_eq!(c.goal, 150);
}

#[test]
fn non_numeric_deadline_is_invalid_input() {
    let r = Campaign::new(&s("Solar"), &s("9hOwner1"), &s("soon"), &s("150"));
    assert_eq!(r, Err(CampaignError::InvalidInput));
}

#[test]
fn non_numeric_goal_is_invalid_input() {
    let r = Campaign::new(&s("Solar"), &s("9hOwner1"), &s("650000"), &s("1.5"));
    assert_eq!(r, Err(CampaignError::InvalidInput));
    let r = Campaign::new(&s("Solar"), &s("9hOwner1"), &s("650000"), &s(""));
    assert_eq!(r, Err(CampaignError::InvalidInput));
}

#[test]
fn zero_deadline_or_goal_is_invalid_input() {
    let r = Campaign::new(&s("Solar"), &s("9hOwner1"), &s("0"), &s("150"));
    assert_eq!(r, Err(CampaignError::InvalidInput));
    let r = Campaign::new(&s("Solar"), &s("9hOwner1"), &s("650000"), &s("0"));
    assert_eq!(r, Err(CampaignError::InvalidInput));
}

#[test]
fn overflowing_deadline_is_invalid_input() {
    let r = Campaign::new(&s("Solar"), &s("9hOwner1"), &s("18446744073709551616"), &s("1"));
    assert_eq!(r, Err(CampaignError::InvalidInput));
}

#[test]
fn empty_or_unsafe_name_is_invalid_input() {
    let r = Campaign::new(&s(""), &s("9hOwner1"), &s("10"), &s("1"));
    assert_eq!(r, Err(CampaignError::InvalidInput));
    let r = Campaign::new(&s(" \n "), &s("9hOwner1"), &s("10"), &s("1"));
    assert_eq!(r, Err(CampaignError::InvalidInput));
    let r = Campaign::new(&s("../etc"), &s("9hOwner1"), &s("10"), &s("1"));
    assert_eq!(r, Err(CampaignError::InvalidInput));
}

#[test]
fn file_name_strips_blanks() {
    let c = sample();
    assert_eq!(c.file_name(), "SolarRoof.campaign");
    let b = c.back_campaign(s("9hBacker"), s("P2S"), BackingTx::new(s("tx1"), 5));
    assert_eq!(b.file_name(), "SolarRoof.campaign");
}

#[test]
fn backing_a_campaign_gives_exactly_one_transaction() {
    let c = sample();
    let b = c.back_campaign(s("9hBacker"), s("P2Saddr"), BackingTx::new(s("tx1"), 5));
    assert_eq!(b.campaign, c);
    assert_eq!(b.backer_address, "9hBacker");
    assert_eq!(b.p2s_address, "P2Saddr");
    assert_eq!(b.backer_txs, vec![BackingTx::new(s("tx1"), 5)]);
}

#[test]
fn backing_again_appends_one_transaction() {
    let c = sample();
    let b1 = c.back_campaign(s("9hBacker"), s("P2Saddr"), BackingTx::new(s("tx1"), 5));
    let b2 = b1.back_campaign(s("9hOther"), s("P2Snew"), BackingTx::new(s("tx2"), 7));
    assert_eq!(b2.campaign, c);
    assert_eq!(b2.backer_address, "9hOther");
    assert_eq!(b2.p2s_address, "P2Snew");
    assert_eq!(
        b2.backer_txs,
        vec![BackingTx::new(s("tx1"), 5), BackingTx::new(s("tx2"), 7)]
    );
    assert_eq!(b1.backer_txs.len(), 1);
}

#[test]
fn record_dispatches_on_its_shape() {
    let c = sample();
    let rec = CampaignRecord::Unbacked(c.clone());
    let b = rec.back_campaign(s("9hBacker"), s("P2S"), BackingTx::new(s("tx1"), 1));
    assert_eq!(b.backer_txs.len(), 1);
    let rec2 = CampaignRecord::Backed(b);
    let b2 = rec2.back_campaign(s("9hBacker"), s("P2S"), BackingTx::new(s("tx2"), 2));
    assert_eq!(b2.backer_txs.len(), 2);
    assert_eq!(b2.backer_txs[0].tx_id, "tx1");
    assert_eq!(b2.backer_txs[1].tx_id, "tx2");
}

#[test]
fn backed_campaign_new_keeps_fields() {
    let c = sample();
    let txs = vec![BackingTx::new(s("a"), 1), BackingTx::new(s("b"), 2)];
    let b = BackedCampaign::new(c.clone(), s("9hBacker"), s("P2S"), txs.clone());
    assert_eq!(b.campaign, c);
    assert_eq!(b.backer_txs, txs);
    let d = b.duplicate();
    assert_eq!(d, b);
}

#[test]
fn info_text_lists_terms() {
    let c = sample();
    assert_eq!(
        c.info_text(),
        "Campaign Name: Solar Roof\nCampaign Address: 9hOwner1\nCampaign Deadline Block: 650000\nCampaign Goal: 150"
    );
}

#[test]
fn backed_info_text_lists_transactions() {
    let c = sample();
    let b = c
        .back_campaign(s("9hBacker"), s("P2S"), BackingTx::new(s("tx1"), 5))
        .back_campaign(s("9hBacker"), s("P2S"), BackingTx::new(s("tx2"), 12));
    assert_eq!(
        b.info_text(),
        "Campaign Name: Solar Roof\nCampaign Address: 9hOwner1\nCampaign Deadline Block: 650000\nCampaign Goal: 150\nAddress You Used To Back: 9hBacker\nP2S Address Paid To: P2S\nBacking Txs:\n   - tx1: 5 Erg\n   - tx2: 12 Erg"
    );
}

#[test]
fn choice_text_marks_backed_campaigns() {
    let c = sample();
    assert_eq!(c.choice_text(3), "3. Solar Roof");
    let b = c.back_campaign(s("9hBacker"), s("P2S"), BackingTx::new(s("tx1"), 5));
    assert_eq!(b.choice_text(1), "1. Solar Roof - (You Backed This Campaign Previously)");
    assert_eq!(CampaignRecord::Backed(b).choice_text(12), "12. Solar Roof - (You Backed This Campaign Previously)");
}

#[test]
fn total_backed_sums_amounts() {
    let c = sample();
    let b = c
        .back_campaign(s("9hBacker"), s("P2S"), BackingTx::new(s("tx1"), 5))
        .back_campaign(s("9hBacker"), s("P2S"), BackingTx::new(s("tx2"), u64::MAX));
    assert_eq!(b.total_backed(), 5u128 + u64::MAX as u128);
}
