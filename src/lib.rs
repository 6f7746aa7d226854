//! Crowdfunding campaigns on a UTXO chain, funded from a local node wallet.
//!
//! The library holds the campaign data model, the contract script that a
//! backer pays into, the reading of the node's replies, and the state machine
//! that turns a tracked campaign into a backed one. Talking to the node and to
//! the disk is left to the caller, which hands the replies back as plain values.

mod amount;
mod backing;
mod campaign;
mod error;
mod script;
mod text;
mod wallet;

pub use amount::{erg_to_nanoerg, NANOERGS_PER_ERG};
pub use backing::{BackingAction, BackingEvent, BackingFlow, BackingPhase};
pub use campaign::{BackedCampaign, BackingTx, Campaign, CampaignRecord, CrowdfundingCampaign};
pub use error::CampaignError;
pub use script::{
    crowdfund_script, is_embeddable, payment_request_body, CROWDFUND_TEMPLATE,
    SEND_PAYMENT_TEMPLATE,
};
pub use text::{clean_path_name, contains_text, decimal_text, parse_u64, remove_quotes};
pub use wallet::{
    addresses_from_list, deposit_from_entries, get_p2s_address, parse_wallet_addresses,
    payment_tx, select_wallet_address,
};
