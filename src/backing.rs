use vstd::prelude::*;

use crate::amount::NANOERGS_PER_ERG;
use crate::campaign::{BackedCampaign, BackedView, CampaignRecord, CrowdfundingCampaign, TxView};
use crate::error::CampaignError;
use crate::script::{payment_outcome, payment_request_body, script_outcome};
use crate::wallet::{
    addresses_outcome,
    get_p2s_address,
    json_string_list,
    json_string_object,
    p2s_outcome,
    parse_wallet_addresses,
    payment_reply_outcome,
    payment_tx,
    select_wallet_address,
    selection,
    strings_view,
};

verus! {

/// Where a backing stands.
pub enum BackingPhase {
    /// Waiting for the wallet's address list.
    AwaitAddresses,
    /// Waiting for the user to pick one of these addresses.
    AwaitChoice(Vec<String>),
    /// Waiting for the deposit address of the script built for this backer address.
    AwaitDeposit(String),
    /// Waiting for the node to acknowledge the payment from the backer address
    /// (first) to the deposit address (second).
    AwaitPayment(String, String),
    /// Waiting to hear whether this backed record was stored.
    AwaitSave(BackedCampaign),
    /// Nothing more to do.
    Finished,
}

/// What the caller reports back after carrying out an action.
pub enum BackingEvent {
    /// The body of the node's reply to the address request.
    AddressesListed(String),
    /// The position, counted from 1, of the address the user picked.
    AddressChosen(usize),
    /// The status and the body of the node's reply to the script.
    DepositReply(u16, String),
    /// The body of the node's reply to the payment request.
    PaymentReply(String),
    /// Whether the backed record was stored.
    Saved(bool),
    /// The node could not be reached or did not answer in time.
    Unreachable,
}

/// What the caller is asked to do next.
pub enum BackingAction {
    /// Request the wallet's address list.
    ListAddresses,
    /// Ask the user to pick one of these addresses.
    ChooseAddress(Vec<String>),
    /// Send this script to the node to learn its deposit address.
    ResolveDeposit(String),
    /// Send this payment request body; the payment goes to the deposit address given first.
    SendPayment(String, String),
    /// Store this backed record, then report whether that worked.
    Save(BackedCampaign),
    /// The backing is complete: this is the backed record.
    Done(BackedCampaign),
    /// The backing stopped; the record as it was before is still the valid one.
    Fail(CampaignError),
}

/// One backing of a campaign record with `amount` display units.
pub struct BackingFlow {
    pub record: CampaignRecord,
    pub amount: u64,
    pub phase: BackingPhase,
}

/// The amount is one that can be paid: positive, and within 64 bits once
/// written in smallest units.
pub open spec fn payable(amount: u64) -> bool {
    0 < amount && amount * NANOERGS_PER_ERG <= u64::MAX
}

/// The result of `back_campaign` on `record`: the terms stay, `tx` comes after
/// the earlier transactions.
pub open spec fn backed_from(
    record: CampaignRecord,
    backer: Seq<char>,
    deposit: Seq<char>,
    tx: TxView,
    b: BackedCampaign,
) -> bool {
    &&& b@.campaign == record.terms()
    &&& b@.backer_address == backer
    &&& b@.deposit_address == deposit
    &&& b@.txs == record.history().push(tx)
    &&& record.record_wf() ==> b.wf()
}

pub open spec fn fails_with(next: BackingPhase, action: BackingAction, e: CampaignError) -> bool {
    next is Finished && action == BackingAction::Fail(e)
}

/// Once the backer address is known: render the script and ask for its deposit address.
pub open spec fn proceeds_with_backer(
    record: CampaignRecord,
    backer: Seq<char>,
    next: BackingPhase,
    action: BackingAction,
) -> bool {
    match script_outcome(record.terms(), backer) {
        Some(script) => {
            &&& next is AwaitDeposit
            &&& next->AwaitDeposit_0@ == backer
            &&& action is ResolveDeposit
            &&& action->ResolveDeposit_0@ == script
        },
        None => fails_with(next, action, CampaignError::TemplateRenderError),
    }
}

/// A request for the user to pick among `list`.
pub open spec fn asks_choice(list: Seq<Seq<char>>, next: BackingPhase, action: BackingAction) -> bool {
    &&& next is AwaitChoice
    &&& strings_view(next->AwaitChoice_0@) == list
    &&& action is ChooseAddress
    &&& strings_view(action->ChooseAddress_0@) == list
}

/// The one step from `phase` on `event` to `next`, asking for `action`.
pub open spec fn step_spec(
    record: CampaignRecord,
    amount: u64,
    phase: BackingPhase,
    event: BackingEvent,
    next: BackingPhase,
    action: BackingAction,
) -> bool {
    match phase {
        BackingPhase::AwaitAddresses => match event {
            BackingEvent::AddressesListed(body) => match addresses_outcome(
                json_string_list(body@),
            ) {
                Err(e) => fails_with(next, action, e),
                Ok(list) => if list.len() == 1 {
                    proceeds_with_backer(record, list[0], next, action)
                } else {
                    asks_choice(list, next, action)
                },
            },
            BackingEvent::Unreachable => fails_with(next, action, CampaignError::NodeUnreachable),
            _ => fails_with(next, action, CampaignError::InvalidInput),
        },
        BackingPhase::AwaitChoice(list) => match event {
            BackingEvent::AddressChosen(n) => match selection(strings_view(list@), Some(n)) {
                Ok(backer) => proceeds_with_backer(record, backer, next, action),
                Err(_) => asks_choice(strings_view(list@), next, action),
            },
            BackingEvent::Unreachable => fails_with(next, action, CampaignError::NodeUnreachable),
            _ => fails_with(next, action, CampaignError::InvalidInput),
        },
        BackingPhase::AwaitDeposit(backer) => match event {
            BackingEvent::DepositReply(status, body) => match p2s_outcome(
                status,
                json_string_object(body@),
            ) {
                Err(e) => fails_with(next, action, e),
                Ok(deposit) => if !payable(amount) {
                    fails_with(next, action, CampaignError::InvalidInput)
                } else {
                    match payment_outcome(deposit, (amount * NANOERGS_PER_ERG) as u64) {
                        None => fails_with(next, action, CampaignError::TemplateRenderError),
                        Some(request) => {
                            &&& next is AwaitPayment
                            &&& next->AwaitPayment_0@ == backer@
                            &&& next->AwaitPayment_1@ == deposit
                            &&& action is SendPayment
                            &&& action->SendPayment_0@ == deposit
                            &&& action->SendPayment_1@ == request
                        },
                    }
                },
            },
            BackingEvent::Unreachable => fails_with(next, action, CampaignError::NodeUnreachable),
            _ => fails_with(next, action, CampaignError::InvalidInput),
        },
        BackingPhase::AwaitPayment(backer, deposit) => match event {
            BackingEvent::PaymentReply(body) => match payment_reply_outcome(body@) {
                Err(e) => fails_with(next, action, e),
                Ok(id) => {
                    &&& next is AwaitSave
                    &&& action is Save
                    &&& backed_from(
                        record,
                        backer@,
                        deposit@,
                        TxView { tx_id: id, amount },
                        action->Save_0,
                    )
                    &&& next->AwaitSave_0@ == action->Save_0@
                },
            },
            BackingEvent::Unreachable => fails_with(next, action, CampaignError::NodeUnreachable),
            _ => fails_with(next, action, CampaignError::InvalidInput),
        },
        BackingPhase::AwaitSave(backed) => match event {
            BackingEvent::Saved(true) => {
                &&& next is Finished
                &&& action is Done
                &&& action->Done_0@ == backed@
            },
            _ => fails_with(next, action, CampaignError::TransactionSubmittedButNotRecorded),
        },
        BackingPhase::Finished => fails_with(next, action, CampaignError::InvalidInput),
    }
}

/// A copy of a list of strings, in the same order.
fn copy_strings(v: &Vec<String>) -> (r: Vec<String>)
    ensures
        strings_view(r@) == strings_view(v@),
{
    let mut out: Vec<String> = Vec::new();
    let mut i: usize = 0;
    while i < v.len()
        invariant
            0 <= i <= v.len(),
            strings_view(out@) =~= strings_view(v@.subrange(0, i as int)),
        decreases v.len() - i,
    {
        let s = v[i].clone();
        let ghost before = out@;
        out.push(s);
        proof {
            assert(out@ =~= before.push(s));
            assert(v@.subrange(0, i as int + 1) =~= v@.subrange(0, i as int).push(v@[i as int]));
            assert(strings_view(out@) =~= strings_view(before).push(s@));
        }
        i = i + 1;
    }
    assert(v@.subrange(0, v.len() as int) =~= v@);
    out
}

impl BackingFlow {
    /// Begins backing `record` with `amount` display units: first the wallet's
    /// addresses are needed. An amount that is zero, or too large to write in
    /// smallest units, stops the backing at once.
    pub fn start(record: CampaignRecord, amount: u64) -> (r: (BackingFlow, BackingAction))
        ensures
            r.0.record == record,
            r.0.amount == amount,
            payable(amount) ==> r.0.phase is AwaitAddresses && r.1 is ListAddresses,
            !payable(amount) ==> fails_with(r.0.phase, r.1, CampaignError::InvalidInput),
    {
        if amount == 0 || amount > u64::MAX / NANOERGS_PER_ERG {
            let flow = BackingFlow { record, amount, phase: BackingPhase::Finished };
            (flow, BackingAction::Fail(CampaignError::InvalidInput))
        } else {
            let flow = BackingFlow { record, amount, phase: BackingPhase::AwaitAddresses };
            (flow, BackingAction::ListAddresses)
        }
    }

    fn with_backer(&mut self, backer: String) -> (action: BackingAction)
        ensures
            final(self).record == old(self).record,
            final(self).amount == old(self).amount,
            proceeds_with_backer(old(self).record, backer@, final(self).phase, action),
    {
        match self.record.build_script(backer.as_str()) {
            Ok(script) => {
                self.phase = BackingPhase::AwaitDeposit(backer);
                BackingAction::ResolveDeposit(script)
            },
            Err(e) => {
                self.phase = BackingPhase::Finished;
                BackingAction::Fail(e)
            },
        }
    }

    fn fail(&mut self, e: CampaignError) -> (action: BackingAction)
        ensures
            final(self).record == old(self).record,
            final(self).amount == old(self).amount,
            fails_with(final(self).phase, action, e),
    {
        self.phase = BackingPhase::Finished;
        BackingAction::Fail(e)
    }

    /// Takes the caller's report of what came of the last action, and says what
    /// to do next.
    pub fn step(&mut self, event: BackingEvent) -> (action: BackingAction)
        ensures
            final(self).record == old(self).record,
            final(self).amount == old(self).amount,
            step_spec(
                old(self).record,
                old(self).amount,
                old(self).phase,
                event,
                final(self).phase,
                action,
            ),
    {
        match &self.phase {
            BackingPhase::AwaitAddresses => match event {
                BackingEvent::AddressesListed(body) => match parse_wallet_addresses(
                    body.as_str(),
                ) {
                    Err(e) => self.fail(e),
                    Ok(list) => match select_wallet_address(&list, None) {
                        Ok(backer) => self.with_backer(backer),
                        Err(_) => {
                            let shown = copy_strings(&list);
                            self.phase = BackingPhase::AwaitChoice(list);
                            BackingAction::ChooseAddress(shown)
                        },
                    },
                },
                BackingEvent::Unreachable => self.fail(CampaignError::NodeUnreachable),
                _ => self.fail(CampaignError::InvalidInput),
            },
            BackingPhase::AwaitChoice(list) => match event {
                BackingEvent::AddressChosen(n) => match select_wallet_address(list, Some(n)) {
                    Ok(backer) => self.with_backer(backer),
                    Err(_) => BackingAction::ChooseAddress(copy_strings(list)),
                },
                BackingEvent::Unreachable => self.fail(CampaignError::NodeUnreachable),
                _ => self.fail(CampaignError::InvalidInput),
            },
            BackingPhase::AwaitDeposit(backer) => match event {
                BackingEvent::DepositReply(status, body) => match get_p2s_address(
                    status,
                    body.as_str(),
                ) {
                    Err(e) => self.fail(e),
                    Ok(deposit) => {
                        if self.amount == 0 || self.amount > u64::MAX / NANOERGS_PER_ERG {
                            return self.fail(CampaignError::InvalidInput);
                        }
                        let nanoergs = self.amount * NANOERGS_PER_ERG;
                        match payment_request_body(deposit.as_str(), nanoergs) {
                            Err(e) => self.fail(e),
                            Ok(request) => {
                                let backer = backer.clone();
                                let to = deposit.clone();
                                self.phase = BackingPhase::AwaitPayment(backer, deposit);
                                BackingAction::SendPayment(to, request)
                            },
                        }
                    },
                },
                BackingEvent::Unreachable => self.fail(CampaignError::NodeUnreachable),
                _ => self.fail(CampaignError::InvalidInput),
            },
            BackingPhase::AwaitPayment(backer, deposit) => match event {
                BackingEvent::PaymentReply(body) => match payment_tx(body.as_str(), self.amount) {
                    Err(e) => self.fail(e),
                    Ok(tx) => {
                        let backed = self.record.back_campaign(backer.clone(), deposit.clone(), tx);
                        let kept = backed.duplicate();
                        self.phase = BackingPhase::AwaitSave(kept);
                        BackingAction::Save(backed)
                    },
                },
                BackingEvent::Unreachable => self.fail(CampaignError::NodeUnreachable),
                _ => self.fail(CampaignError::InvalidInput),
            },
            BackingPhase::AwaitSave(backed) => match event {
                BackingEvent::Saved(true) => {
                    let done = backed.duplicate();
                    self.phase = BackingPhase::Finished;
                    BackingAction::Done(done)
                },
                _ => self.fail(CampaignError::TransactionSubmittedButNotRecorded),
            },
            BackingPhase::Finished => self.fail(CampaignError::InvalidInput),
        }
    }
}

/// A wallet whose address list is empty stops a backing with `NoAddressesFound`,
/// whatever address the user would pick.
pub proof fn lemma_no_addresses_stops_backing(
    record: CampaignRecord,
    amount: u64,
    reply: String,
    next: BackingPhase,
    action: BackingAction,
    choice: Option<usize>,
)
    requires
        json_string_list(reply@) == Some(Seq::<Seq<char>>::empty()),
        step_spec(
            record,
            amount,
            BackingPhase::AwaitAddresses,
            BackingEvent::AddressesListed(reply),
            next,
            action,
        ),
    ensures
        next is Finished,
        action == BackingAction::Fail(CampaignError::NoAddressesFound),
        selection(Seq::empty(), choice) == Err::<Seq<char>, CampaignError>(
            CampaignError::NoAddressesFound,
        ),
{
}

/// An acknowledged payment gives a backed record with exactly one more
/// transaction than before: the earlier ones in their order, then the new one.
/// An unbacked campaign thus becomes a backed one with exactly one transaction.
pub proof fn lemma_payment_appends_one_tx(
    record: CampaignRecord,
    amount: u64,
    backer: String,
    deposit: String,
    reply: String,
    next: BackingPhase,
    action: BackingAction,
)
    requires
        payment_reply_outcome(reply@) is Ok,
        step_spec(
            record,
            amount,
            BackingPhase::AwaitPayment(backer, deposit),
            BackingEvent::PaymentReply(reply),
            next,
            action,
        ),
    ensures
        action is Save,
        ({
            let txs = action->Save_0@.txs;
            &&& txs.len() == record.history().len() + 1
            &&& forall|i: int| 0 <= i < record.history().len() ==> txs[i] == record.history()[i]
            &&& txs.last() == (TxView { tx_id: payment_reply_outcome(reply@)->Ok_0, amount })
            &&& record is Unbacked ==> txs.len() == 1
        }),
{
}

} // verus!
