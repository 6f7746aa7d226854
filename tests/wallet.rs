use ergo_cf::{
    addresses_from_list, deposit_from_entries, get_p2s_address, parse_wallet_addresses,
    payment_tx, select_wallet_address, BackingTx, CampaignError,
};

fn strings(v: &[&str]) -> Vec<String> {
    v.iter().map(|x| x.to_string()).collect()
}

#[test]
fn address_list_is_read_as_json() {
    let r = parse_wallet_addresses("[\"9fAddrOne\", \"9gAddrTwo\"]");
    assert_eq!(r, Ok(strings(&["9fAddrOne", "9gAddrTwo"])));
}

#[test]
fn empty_address_list_is_no_addresses_found() {
    assert_eq!(parse_wallet_addresses("[]"), Err(CampaignError::NoAddressesFound));
    assert_eq!(addresses_from_list(Some(vec![])), Err(CampaignError::NoAddressesFound));
}

#[test]
fn malformed_address_list_is_invalid_response() {
    assert_eq!(parse_wallet_addresses("9fAddr 9gAddr"), Err(CampaignError::InvalidNodeResponse));
    assert_eq!(parse_wallet_addresses("{\"error\": 403}"), Err(CampaignError::InvalidNodeResponse));
    assert_eq!(addresses_from_list(None), Err(CampaignError::InvalidNodeResponse));
}

#[test]
fn single_address_needs_no_choice() {
    let one = strings(&["9fOnly"]);
    assert_eq!(select_wallet_address(&one, None), Ok("9fOnly".to_string()));
    assert_eq!(select_wallet_address(&one, Some(7)), Ok("9fOnly".to_string()));
}

#[test]
fn choice_is_counted_from_one() {
    let two = strings(&["9fA", "9fB"]);
    assert_eq!(select_wallet_address(&two, Some(1)), Ok("9fA".to_string()));
    assert_eq!(select_wallet_address(&two, Some(2)), Ok("9fB".to_string()));
    assert_eq!(select_wallet_address(&two, Some(0)), Err(CampaignError::InvalidInput));
    assert_eq!(select_wallet_address(&two, Some(3)), Err(CampaignError::InvalidInput));
    assert_eq!(select_wallet_address(&two, None), Err(CampaignError::InvalidInput));
}

#[test]
fn no_address_to_select_is_no_addresses_found() {
    let none: Vec<String> = vec![];
    assert_eq!(select_wallet_address(&none, None), Err(CampaignError::NoAddressesFound));
    assert_eq!(select_wallet_address(&none, Some(1)), Err(CampaignError::NoAddressesFound));
}

#[test]
fn deposit_address_is_read_from_reply() {
    assert_eq!(get_p2s_address(200, "{\"address\": \"3WwDeposit\"}"), Ok("3WwDeposit".to_string()));
}

#[test]
fn refused_script_is_script_rejected() {
    let body = "{\"error\": 400, \"reason\": \"bad.request\", \"detail\": \"Script compile error\"}";
    assert_eq!(get_p2s_address(400, body), Err(CampaignError::ScriptRejected));
    assert_eq!(get_p2s_address(500, "{\"address\": \"3Ww\"}"), Err(CampaignError::ScriptRejected));
}

#[test]
fn reply_without_address_is_invalid_response() {
    assert_eq!(get_p2s_address(200, "{\"addr\": \"3Ww\"}"), Err(CampaignError::InvalidNodeResponse));
    assert_eq!(get_p2s_address(200, "{\"address\": \"\"}"), Err(CampaignError::InvalidNodeResponse));
    assert_eq!(get_p2s_address(200, "not json"), Err(CampaignError::InvalidNodeResponse));
    assert_eq!(deposit_from_entries(None), Err(CampaignError::InvalidNodeResponse));
    let entries = vec![("a".to_string(), "x".to_string()), ("address".to_string(), "3Wz".to_string())];
    assert_eq!(deposit_from_entries(Some(entries)), Ok("3Wz".to_string()));
}

#[test]
fn payment_reply_gives_unquoted_tx_id() {
    let tx = payment_tx("\"b3f1c0ffee\"", 5);
    assert_eq!(tx, Ok(BackingTx::new("b3f1c0ffee".to_string(), 5)));
}

#[test]
fn bad_request_reply_is_payment_rejected() {
    let body = "{\"error\":400,\"reason\":\"bad.request\",\"detail\":\"Wallet is locked\"}";
    assert_eq!(payment_tx(body, 5), Err(CampaignError::PaymentRejected));
}

#[test]
fn low_balance_reply_is_insufficient_funds() {
    let body = "{\"error\":400,\"reason\":\"bad.request\",\"detail\":\"not enough boxes to meet ERG needs\"}";
    assert_eq!(payment_tx(body, 5), Err(CampaignError::InsufficientFunds));
}

#[test]
fn empty_payment_reply_is_invalid_response() {
    assert_eq!(payment_tx("\"\"", 5), Err(CampaignError::InvalidNodeResponse));
    assert_eq!(payment_tx("", 5), Err(CampaignError::InvalidNodeResponse));
}
