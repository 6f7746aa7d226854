use ergo_cf::{
    crowdfund_script, payment_request_body, Campaign, CampaignError, CrowdfundingCampaign,
    CROWDFUND_TEMPLATE,
};

fn camp(name: &str, address: &str) -> Campaign {
    Campaign::new(&name.to_string(), &address.to_string(), &"650000".to_string(), &"150".to_string())
        .unwrap()
}

#[test]
fn script_carries_all_four_values() {
    let c = camp("Roof", "9hOwnerAddr");
    let script = c.build_script("9fBackerAddr").unwrap();
    assert_ne!(script, CROWDFUND_TEMPLATE);
    assert!(script.contains("PK(\\\"9fBackerAddr\\\")"));
    assert!(script.contains("PK(\\\"9hOwnerAddr\\\")"));
    assert!(script.contains("val deadline = 650000 "));
    assert!(script.contains("val minToRaise = 150L * 1000000000"));
    assert!(!script.contains("{{"));
    assert!(script.starts_with("{\"source\": \"{ val backerPubKey"));
}

#[test]
fn script_is_deterministic() {
    let a = camp("Roof", "9hOwnerAddr");
    let b = camp("Another name", "9hOwnerAddr");
    let s1 = crowdfund_script(&a, "9fBacker").unwrap();
    let s2 = crowdfund_script(&a, "9fBacker").unwrap();
    let s3 = crowdfund_script(&b, "9fBacker").unwrap();
    assert_eq!(s1, s2);
    assert_eq!(s1, s3);
    assert_ne!(s1, crowdfund_script(&a, "9fOther").unwrap());
}

#[test]
fn quoted_values_are_refused() {
    let c = camp("Roof", "9hOwner\"x");
    assert_eq!(c.build_script("9fBacker"), Err(CampaignError::TemplateRenderError));
    let c = camp("Roof", "9hOwner");
    assert_eq!(c.build_script("9f\") || true"), Err(CampaignError::TemplateRenderError));
}

#[test]
fn payment_body_lists_one_output() {
    let body = payment_request_body("3WxDeposit", 5000000000).unwrap();
    assert_eq!(body, "[{\"address\":\"3WxDeposit\",\"value\":5000000000 }]");
    assert_eq!(
        payment_request_body("3Wx\"", 1),
        Err(CampaignError::TemplateRenderError)
    );
}
