use vstd::prelude::*;

verus! {

/// Every way in which an operation of the library can fail.
#[derive(Clone, Copy, Debug, PartialEq, Eq, Structural)]
pub enum CampaignError {
    /// Text given for a name, a number or an amount is not acceptable.
    InvalidInput,
    /// The node could not be reached or did not answer in time.
    NodeUnreachable,
    /// The node's wallet holds no address (most often: it is locked).
    NoAddressesFound,
    /// The node refused to derive an address from the script.
    ScriptRejected,
    /// The node or its wallet refused the payment.
    PaymentRejected,
    /// The wallet's balance does not cover the payment.
    InsufficientFunds,
    /// The payment went out, but its record could not be stored.
    TransactionSubmittedButNotRecorded,
    /// A record could not be read, written or understood.
    StorageError,
    /// A value cannot be placed into a template without altering its syntax.
    TemplateRenderError,
    /// The node answered with something other than the expected shape.
    InvalidNodeResponse,
}

} // verus!
