use vstd::prelude::*;

use crate::error::CampaignError;
use crate::script::{crowdfund_script, script_outcome};
use crate::text::{
    clean_path_name, decimal_of, decimal_text, is_numeral, parse_u64, strip_blanks, u64_of_text,
};

verus! {

/// What a `Campaign` holds, as mathematical values.
pub struct CampaignView {
    pub name: Seq<char>,
    pub address: Seq<char>,
    pub deadline: u64,
    pub goal: u64,
}

/// What a `BackingTx` holds, as mathematical values.
pub struct TxView {
    pub tx_id: Seq<char>,
    pub amount: u64,
}

/// What a `BackedCampaign` holds, as mathematical values.
pub struct BackedView {
    pub campaign: CampaignView,
    pub backer_address: Seq<char>,
    pub deposit_address: Seq<char>,
    pub txs: Seq<TxView>,
}

/// Datatype which holds relevant information about a Crowdfunding Campaign.
#[derive(Debug, Clone, PartialEq, Eq)]
pub struct Campaign {
    pub name: String,
    pub address: String,
    pub deadline: u64,
    pub goal: u64,
}

/// Datatype which holds a `Campaign` and what the current user did to back it.
/// Only created once a payment towards the campaign was acknowledged.
#[derive(Debug, Clone, PartialEq, Eq)]
pub struct BackedCampaign {
    pub campaign: Campaign,
    pub backer_address: String,
    pub p2s_address: String,
    pub backer_txs: Vec<BackingTx>,
}

/// Datatype which holds information about a backer's transaction to support a Campaign.
#[derive(Debug, Clone, PartialEq, Eq)]
pub struct BackingTx {
    pub tx_id: String,
    pub backed_amount: u64,
}

/// A stored campaign: tracked only, or backed by the current user.
#[derive(Debug, Clone, PartialEq, Eq)]
pub enum CampaignRecord {
    Unbacked(Campaign),
    Backed(BackedCampaign),
}

impl View for Campaign {
    type V = CampaignView;

    open spec fn view(&self) -> CampaignView {
        CampaignView {
            name: self.name@,
            address: self.address@,
            deadline: self.deadline,
            goal: self.goal,
        }
    }
}

impl View for BackingTx {
    type V = TxView;

    open spec fn view(&self) -> TxView {
        TxView { tx_id: self.tx_id@, amount: self.backed_amount }
    }
}

pub open spec fn txs_view(txs: Seq<BackingTx>) -> Seq<TxView> {
    txs.map_values(|t: BackingTx| t@)
}

impl View for BackedCampaign {
    type V = BackedView;

    open spec fn view(&self) -> BackedView {
        BackedView {
            campaign: self.campaign@,
            backer_address: self.backer_address@,
            deposit_address: self.p2s_address@,
            txs: txs_view(self.backer_txs@),
        }
    }
}

/// A character that cannot change which file a record lands in.
pub open spec fn path_safe_char(c: char) -> bool {
    c != '/' && c != '\\' && c != '\0'
}

/// A campaign name: something is left once blanks are stripped, and no
/// character of it could reach outside the storage folder.
pub open spec fn valid_name(s: Seq<char>) -> bool {
    &&& strip_blanks(s).len() > 0
    &&& forall|i: int| 0 <= i < s.len() ==> path_safe_char(#[trigger] s[i])
}

/// A block height or a goal given as text: a numeral for a positive `u64`.
pub open spec fn valid_positive(s: Seq<char>) -> bool {
    u64_of_text(s) is Some && u64_of_text(s)->0 > 0
}

/// The inputs on which `Campaign::new` succeeds.
pub open spec fn valid_terms(name: Seq<char>, deadline: Seq<char>, goal: Seq<char>) -> bool {
    valid_name(name) && valid_positive(deadline) && valid_positive(goal)
}

/// A deadline or a goal that is not a numeral cannot make a campaign: construction
/// fails (with `InvalidInput`, by the contract of `Campaign::new`) and returns no
/// record at all.
pub proof fn lemma_non_numeric_terms_rejected(
    name: Seq<char>,
    deadline: Seq<char>,
    goal: Seq<char>,
)
    requires
        !is_numeral(deadline) || !is_numeral(goal),
    ensures
        !valid_terms(name, deadline, goal),
{
}

impl CampaignView {
    pub open spec fn wf(self) -> bool {
        valid_name(self.name) && self.deadline > 0 && self.goal > 0
    }
}

/// A transaction identifier as the node hands it out: non-empty and unquoted.
pub open spec fn valid_tx_id(s: Seq<char>) -> bool {
    s.len() > 0 && forall|i: int| 0 <= i < s.len() ==> #[trigger] s[i] != '"'
}

impl TxView {
    pub open spec fn wf(self) -> bool {
        valid_tx_id(self.tx_id)
    }
}

impl BackedView {
    /// A backed campaign has at least one transaction, each of them well formed.
    pub open spec fn wf(self) -> bool {
        &&& self.campaign.wf()
        &&& self.txs.len() > 0
        &&& forall|i: int| 0 <= i < self.txs.len() ==> (#[trigger] self.txs[i]).wf()
    }
}

/// The file name under which a campaign called `name` is stored.
pub open spec fn record_file_name(name: Seq<char>) -> Seq<char> {
    strip_blanks(name + ".campaign"@)
}

/// Relies on str::to_string: the copy holds the same characters.
#[verifier::external_body]
pub(crate) fn owned(s: &str) -> (r: String)
    ensures
        r@ == s@,
{
    s.to_string()
}

fn name_is_valid(name: &str) -> (r: bool)
    ensures
        r == valid_name(name@),
{
    let n = name.unicode_len();
    let mut i: usize = 0;
    while i < n
        invariant
            n == name@.len(),
            0 <= i <= n,
            forall|j: int| 0 <= j < i ==> path_safe_char(#[trigger] name@[j]),
        decreases n - i,
    {
        let c = name.get_char(i);
        if c == '/' || c == '\\' || c == '\0' {
            return false;
        }
        i = i + 1;
    }
    let mut stripped = owned(name);
    clean_path_name(&mut stripped);
    stripped.as_str().unicode_len() > 0
}

impl Campaign {
    pub open spec fn wf(&self) -> bool {
        self@.wf()
    }

    /// Create a new `Campaign`. The deadline and the goal must be numerals of
    /// positive `u64` values, and the name must be usable as a file key.
    pub fn new(name: &String, address: &String, deadline: &String, goal: &String) -> (r: Result<
        Campaign,
        CampaignError,
    >)
        ensures
            r is Ok <==> valid_terms(name@, deadline@, goal@),
            r is Ok ==> r->Ok_0@ == (CampaignView {
                name: name@,
                address: address@,
                deadline: u64_of_text(deadline@)->0,
                goal: u64_of_text(goal@)->0,
            }),
            r is Ok ==> r->Ok_0.wf(),
            r is Err ==> r->Err_0 == CampaignError::InvalidInput,
    {
        if !name_is_valid(name.as_str()) {
            return Err(CampaignError::InvalidInput);
        }
        let deadline = match parse_u64(deadline.as_str()) {
            Some(d) if d > 0 => d,
            _ => return Err(CampaignError::InvalidInput),
        };
        let goal = match parse_u64(goal.as_str()) {
            Some(g) if g > 0 => g,
            _ => return Err(CampaignError::InvalidInput),
        };
        Ok(Campaign { name: name.clone(), address: address.clone(), deadline, goal })
    }

    /// A copy with the same fields.
    pub fn duplicate(&self) -> (r: Campaign)
        ensures
            r@ == self@,
    {
        Campaign {
            name: self.name.clone(),
            address: self.address.clone(),
            deadline: self.deadline,
            goal: self.goal,
        }
    }
}

impl BackingTx {
    pub fn new(tx_id: String, backed_amount: u64) -> (r: BackingTx)
        ensures
            r@ == (TxView { tx_id: tx_id@, amount: backed_amount }),
    {
        BackingTx { tx_id, backed_amount }
    }

    /// A copy with the same fields.
    pub fn duplicate(&self) -> (r: BackingTx)
        ensures
            r@ == self@,
    {
        BackingTx { tx_id: self.tx_id.clone(), backed_amount: self.backed_amount }
    }
}

/// A copy of a list of transactions, in the same order.
fn copy_txs(txs: &Vec<BackingTx>) -> (r: Vec<BackingTx>)
    ensures
        txs_view(r@) == txs_view(txs@),
{
    let mut out: Vec<BackingTx> = Vec::new();
    let mut i: usize = 0;
    while i < txs.len()
        invariant
            0 <= i <= txs.len(),
            txs_view(out@) =~= txs_view(txs@.subrange(0, i as int)),
        decreases txs.len() - i,
    {
        let t = txs[i].duplicate();
        let ghost before = out@;
        out.push(t);
        proof {
            assert(out@ =~= before.push(t));
            assert(txs@.subrange(0, i as int + 1) =~= txs@.subrange(0, i as int).push(txs@[i as int]));
            assert(txs_view(out@) =~= txs_view(before).push(t@));
        }
        i = i + 1;
    }
    assert(txs@.subrange(0, txs.len() as int) =~= txs@);
    out
}

impl BackedCampaign {
    pub open spec fn wf(&self) -> bool {
        self@.wf()
    }

    /// Create a new `BackedCampaign`; a backed campaign has at least one transaction.
    pub fn new(
        campaign: Campaign,
        backer_address: String,
        p2s_address: String,
        backer_txs: Vec<BackingTx>,
    ) -> (r: BackedCampaign)
        requires
            backer_txs@.len() > 0,
        ensures
            r@ == (BackedView {
                campaign: campaign@,
                backer_address: backer_address@,
                deposit_address: p2s_address@,
                txs: txs_view(backer_txs@),
            }),
    {
        BackedCampaign { campaign, backer_address, p2s_address, backer_txs }
    }

    /// A copy with the same fields.
    pub fn duplicate(&self) -> (r: BackedCampaign)
        ensures
            r@ == self@,
    {
        BackedCampaign {
            campaign: self.campaign.duplicate(),
            backer_address: self.backer_address.clone(),
            p2s_address: self.p2s_address.clone(),
            backer_txs: copy_txs(&self.backer_txs),
        }
    }

    /// The cumulative contribution: the sum of the amounts of all the backing
    /// transactions, in display units.
    pub fn total_backed(&self) -> (r: u128)
        ensures
            r == total_amount(self@.txs),
    {
        let mut total: u128 = 0;
        let mut i: usize = 0;
        while i < self.backer_txs.len()
            invariant
                0 <= i <= self.backer_txs.len(),
                total == total_amount(txs_view(self.backer_txs@).subrange(0, i as int)),
                total <= i * (u64::MAX as int),
            decreases self.backer_txs.len() - i,
        {
            let ghost all = txs_view(self.backer_txs@);
            assert(all.subrange(0, i + 1).drop_last() =~= all.subrange(0, i as int));
            assert(all.subrange(0, i + 1).last() == self.backer_txs@[i as int]@);
            let amount = self.backer_txs[i].backed_amount;
            assert(total + amount <= (i + 1) * (u64::MAX as int)) by (nonlinear_arith)
                requires
                    total <= i * (u64::MAX as int),
                    amount <= u64::MAX,
            ;
            assert((i + 1) * (u64::MAX as int) <= u128::MAX) by (nonlinear_arith)
                requires
                    i < usize::MAX,
                    usize::MAX <= u64::MAX,
            ;
            total = total + amount as u128;
            i = i + 1;
        }
        assert(txs_view(self.backer_txs@).subrange(0, i as int) =~= txs_view(self.backer_txs@));
        total
    }
}

/// What every stored campaign offers, backed or not.
pub trait CrowdfundingCampaign {
    /// The terms of the campaign.
    spec fn terms(&self) -> CampaignView;

    /// The backing transactions made so far, oldest first.
    spec fn history(&self) -> Seq<TxView>;

    /// The record's invariant.
    spec fn record_wf(&self) -> bool;

    /// Builds the crowdfunding script with the required fields filled in.
    fn build_script(&self, backer_address: &str) -> (r: Result<String, CampaignError>)
        ensures
            r is Ok <==> script_outcome(self.terms(), backer_address@) is Some,
            r is Ok ==> script_outcome(self.terms(), backer_address@) == Some(r->Ok_0@),
            r is Err ==> r->Err_0 == CampaignError::TemplateRenderError,
    ;

    /// The record after one more acknowledged payment `tx`, made from
    /// `backer_address` to the deposit address `p2s_address`: the terms stay, the
    /// transaction is appended to those made before.
    fn back_campaign(&self, backer_address: String, p2s_address: String, tx: BackingTx) -> (r:
        BackedCampaign)
        ensures
            r@.campaign == self.terms(),
            r@.backer_address == backer_address@,
            r@.deposit_address == p2s_address@,
            r@.txs == self.history().push(tx@),
            self.record_wf() && tx@.wf() ==> r.wf(),
    ;

    /// The name of the file that holds the record.
    fn file_name(&self) -> (r: String)
        ensures
            r@ == record_file_name(self.terms().name),
    ;

    /// Whether the current user backed the campaign before.
    spec fn was_backed(&self) -> bool;

    /// What the record shows about itself: the terms, and for a backed campaign
    /// the addresses used and every backing transaction.
    spec fn info(&self) -> Seq<char>;

    /// Info about the campaign, one fact per line.
    fn info_text(&self) -> (r: String)
        ensures
            r@ == self.info(),
    ;

    /// The line that offers the record as choice `n` of a list.
    fn choice_text(&self, n: u32) -> (r: String)
        ensures
            r@ == choice_line(n, self.terms().name, self.was_backed()),
    ;
}

pub open spec fn campaign_info(c: CampaignView) -> Seq<char> {
    "Campaign Name: "@ + c.name + "\nCampaign Address: "@ + c.address + "\nCampaign Deadline Block: "@
        + decimal_of(c.deadline as nat) + "\nCampaign Goal: "@ + decimal_of(c.goal as nat)
}

/// One line per transaction, oldest first.
pub open spec fn tx_lines(txs: Seq<TxView>) -> Seq<char>
    decreases txs.len(),
{
    if txs.len() == 0 {
        Seq::empty()
    } else {
        tx_lines(txs.drop_last()) + "\n   - "@ + txs.last().tx_id + ": "@ + decimal_of(
            txs.last().amount as nat,
        ) + " Erg"@
    }
}

pub open spec fn backed_info(b: BackedView) -> Seq<char> {
    campaign_info(b.campaign) + "\nAddress You Used To Back: "@ + b.backer_address
        + "\nP2S Address Paid To: "@ + b.deposit_address + "\nBacking Txs:"@ + tx_lines(b.txs)
}

pub open spec fn choice_line(n: u32, name: Seq<char>, backed: bool) -> Seq<char> {
    decimal_of(n as nat) + ". "@ + name + if backed {
        " - (You Backed This Campaign Previously)"@
    } else {
        Seq::empty()
    }
}

fn campaign_info_text(c: &Campaign) -> (r: String)
    ensures
        r@ == campaign_info(c@),
{
    let mut out = String::from_str("Campaign Name: ");
    out.append(c.name.as_str());
    out.append("\nCampaign Address: ");
    out.append(c.address.as_str());
    out.append("\nCampaign Deadline Block: ");
    out.append(decimal_text(c.deadline).as_str());
    out.append("\nCampaign Goal: ");
    out.append(decimal_text(c.goal).as_str());
    out
}

fn choice_line_text(n: u32, name: &String, backed: bool) -> (r: String)
    ensures
        r@ == choice_line(n, name@, backed),
{
    let mut out = decimal_text(n as u64);
    out.append(". ");
    out.append(name.as_str());
    if backed {
        out.append(" - (You Backed This Campaign Previously)");
    } else {
        assert(out@ + Seq::<char>::empty() =~= out@);
    }
    out
}

/// The name of the file that holds the campaign called `name`.
fn file_name_of(name: &String) -> (r: String)
    ensures
        r@ == record_file_name(name@),
{
    let mut path = name.clone();
    path.append(".campaign");
    clean_path_name(&mut path);
    path
}

impl CrowdfundingCampaign for Campaign {
    open spec fn terms(&self) -> CampaignView {
        self@
    }

    open spec fn history(&self) -> Seq<TxView> {
        Seq::empty()
    }

    open spec fn record_wf(&self) -> bool {
        self.wf()
    }

    fn build_script(&self, backer_address: &str) -> (r: Result<String, CampaignError>) {
        let r = crowdfund_script(self, backer_address);
        assert(self.terms() == self@);
        r
    }

    fn back_campaign(&self, backer_address: String, p2s_address: String, tx: BackingTx) -> (r:
        BackedCampaign) {
        let mut txs: Vec<BackingTx> = Vec::new();
        txs.push(tx);
        proof {
            assert(txs_view(txs@) =~= seq![tx@]);
        }
        BackedCampaign::new(self.duplicate(), backer_address, p2s_address, txs)
    }

    fn file_name(&self) -> (r: String) {
        file_name_of(&self.name)
    }

    open spec fn was_backed(&self) -> bool {
        false
    }

    open spec fn info(&self) -> Seq<char> {
        campaign_info(self@)
    }

    fn info_text(&self) -> (r: String) {
        campaign_info_text(self)
    }

    fn choice_text(&self, n: u32) -> (r: String) {
        choice_line_text(n, &self.name, false)
    }
}

impl CrowdfundingCampaign for BackedCampaign {
    open spec fn terms(&self) -> CampaignView {
        self@.campaign
    }

    open spec fn history(&self) -> Seq<TxView> {
        self@.txs
    }

    open spec fn record_wf(&self) -> bool {
        self.wf()
    }

    fn build_script(&self, backer_address: &str) -> (r: Result<String, CampaignError>) {
        let r = crowdfund_script(&self.campaign, backer_address);
        assert(self.terms() == self.campaign@);
        r
    }

    fn back_campaign(&self, backer_address: String, p2s_address: String, tx: BackingTx) -> (r:
        BackedCampaign) {
        let mut txs = copy_txs(&self.backer_txs);
        let ghost prior = txs@;
        txs.push(tx);
        proof {
            assert(txs@ =~= prior.push(tx));
            assert(txs_view(txs@) =~= txs_view(prior).push(tx@));
        }
        BackedCampaign::new(self.campaign.duplicate(), backer_address, p2s_address, txs)
    }

    fn file_name(&self) -> (r: String) {
        file_name_of(&self.campaign.name)
    }

    open spec fn was_backed(&self) -> bool {
        true
    }

    open spec fn info(&self) -> Seq<char> {
        backed_info(self@)
    }

    fn info_text(&self) -> (r: String) {
        let mut out = campaign_info_text(&self.campaign);
        out.append("\nAddress You Used To Back: ");
        out.append(self.backer_address.as_str());
        out.append("\nP2S Address Paid To: ");
        out.append(self.p2s_address.as_str());
        out.append("\nBacking Txs:");
        let ghost head = out@;
        let mut i: usize = 0;
        assert(txs_view(self.backer_txs@).subrange(0, 0) =~= Seq::<TxView>::empty());
        while i < self.backer_txs.len()
            invariant
                0 <= i <= self.backer_txs.len(),
                out@ == head + tx_lines(txs_view(self.backer_txs@).subrange(0, i as int)),
            decreases self.backer_txs.len() - i,
        {
            let tx = &self.backer_txs[i];
            out.append("\n   - ");
            out.append(tx.tx_id.as_str());
            out.append(": ");
            out.append(decimal_text(tx.backed_amount).as_str());
            out.append(" Erg");
            proof {
                let all = txs_view(self.backer_txs@);
                assert(all.subrange(0, i + 1).drop_last() =~= all.subrange(0, i as int));
                assert(all.subrange(0, i + 1).last() == tx@);
            }
            i = i + 1;
        }
        assert(txs_view(self.backer_txs@).subrange(0, i as int) =~= txs_view(self.backer_txs@));
        out
    }

    fn choice_text(&self, n: u32) -> (r: String) {
        choice_line_text(n, &self.campaign.name, true)
    }
}

impl CrowdfundingCampaign for CampaignRecord {
    open spec fn terms(&self) -> CampaignView {
        match self {
            CampaignRecord::Unbacked(c) => c@,
            CampaignRecord::Backed(b) => b@.campaign,
        }
    }

    open spec fn history(&self) -> Seq<TxView> {
        match self {
            CampaignRecord::Unbacked(c) => Seq::empty(),
            CampaignRecord::Backed(b) => b@.txs,
        }
    }

    open spec fn record_wf(&self) -> bool {
        match self {
            CampaignRecord::Unbacked(c) => c.wf(),
            CampaignRecord::Backed(b) => b.wf(),
        }
    }

    fn build_script(&self, backer_address: &str) -> (r: Result<String, CampaignError>) {
        match self {
            CampaignRecord::Unbacked(c) => c.build_script(backer_address),
            CampaignRecord::Backed(b) => b.build_script(backer_address),
        }
    }

    fn back_campaign(&self, backer_address: String, p2s_address: String, tx: BackingTx) -> (r:
        BackedCampaign) {
        match self {
            CampaignRecord::Unbacked(c) => c.back_campaign(backer_address, p2s_address, tx),
            CampaignRecord::Backed(b) => b.back_campaign(backer_address, p2s_address, tx),
        }
    }

    fn file_name(&self) -> (r: String) {
        match self {
            CampaignRecord::Unbacked(c) => c.file_name(),
            CampaignRecord::Backed(b) => b.file_name(),
        }
    }

    open spec fn was_backed(&self) -> bool {
        self is Backed
    }

    open spec fn info(&self) -> Seq<char> {
        match self {
            CampaignRecord::Unbacked(c) => c.info(),
            CampaignRecord::Backed(b) => b.info(),
        }
    }

    fn info_text(&self) -> (r: String) {
        match self {
            CampaignRecord::Unbacked(c) => c.info_text(),
            CampaignRecord::Backed(b) => b.info_text(),
        }
    }

    fn choice_text(&self, n: u32) -> (r: String) {
        match self {
            CampaignRecord::Unbacked(c) => c.choice_text(n),
            CampaignRecord::Backed(b) => b.choice_text(n),
        }
    }
}

/// The sum of the amounts of `txs`.
pub open spec fn total_amount(txs: Seq<TxView>) -> int
    decreases txs.len(),
{
    if txs.len() == 0 {
        0
    } else {
        total_amount(txs.drop_last()) + txs.last().amount
    }
}

} // verus!
