use vstd::prelude::*;

use crate::campaign::{Campaign, CampaignView};
use crate::error::CampaignError;
use crate::text::{decimal_of, decimal_text};

verus! {

/// The crowdfunding script, as the JSON body that the node's script endpoint takes.
///
/// Before the deadline the owner may spend a deposit, provided one output pays at
/// least the goal (in the chain's smallest unit) to the owner; from the deadline
/// on the backer may take it back.
pub const CROWDFUND_TEMPLATE: &'static str = r#"{"source": "{ val backerPubKey = PK(\"{{backer}}\") \n val projectPubKey = PK(\"{{address}}\") \n val deadline = {{deadline}} \n val minToRaise = {{goal}}L * 1000000000 \n val fundraisingFailure = HEIGHT >= deadline && backerPubKey \n val enoughRaised = {(outBox: Box) => outBox.value >= minToRaise && outBox.propositionBytes == projectPubKey.propBytes} \n val fundraisingSuccess = HEIGHT < deadline && projectPubKey && OUTPUTS.exists(enoughRaised) \n fundraisingFailure || fundraisingSuccess }"}"#;

/// The body of a wallet payment request: one output of `value` to `address`.
pub const SEND_PAYMENT_TEMPLATE: &'static str = r#"[{"address":"{{address}}","value":{{value}} }]"#;

/// What handlebars renders from `template` with an object that maps each key of
/// `data` to its string, or `None` where rendering fails.
pub uninterp spec fn handlebars_output(
    template: Seq<char>,
    data: Seq<(Seq<char>, Seq<char>)>,
) -> Option<Seq<char>>;

#[verifier::external_type_specification]
#[verifier::external_body]
pub struct ExRenderError(handlebars::RenderError);

pub open spec fn pairs_view(data: Seq<(String, String)>) -> Seq<(Seq<char>, Seq<char>)> {
    data.map_values(|p: (String, String)| (p.0@, p.1@))
}

/// Relies on handlebars' `Registry::render_template`: a fresh registry renders the
/// template against a JSON object of string values; the outcome depends on the
/// template and on the data alone.
#[verifier::external_body]
pub(crate) fn render_template(template: &str, data: &Vec<(String, String)>) -> (r: Result<
    String,
    handlebars::RenderError,
>)
    ensures
        r is Ok ==> handlebars_output(template@, pairs_view(data@)) == Some(r->Ok_0@),
        r is Err ==> handlebars_output(template@, pairs_view(data@)) is None,
{
    let object: serde_json::Map<String, serde_json::Value> = data.iter().map(
        |p| (p.0.clone(), serde_json::Value::String(p.1.clone())),
    ).collect();
    handlebars::Handlebars::new().render_template(template, &object)
}

/// A character that can stand inside a quoted script literal without changing
/// the script's syntax: an ASCII letter or digit.
pub open spec fn embeddable_char(c: char) -> bool {
    ('0' <= c && c <= '9') || ('a' <= c && c <= 'z') || ('A' <= c && c <= 'Z')
}

pub open spec fn embeddable(s: Seq<char>) -> bool {
    forall|i: int| 0 <= i < s.len() ==> embeddable_char(#[trigger] s[i])
}

/// Tells whether every character of `s` is an ASCII letter or digit.
pub fn is_embeddable(s: &str) -> (r: bool)
    ensures
        r == embeddable(s@),
{
    let n = s.unicode_len();
    let mut i: usize = 0;
    while i < n
        invariant
            n == s@.len(),
            0 <= i <= n,
            forall|j: int| 0 <= j < i ==> embeddable_char(#[trigger] s@[j]),
        decreases n - i,
    {
        let c = s.get_char(i);
        if !(('0' <= c && c <= '9') || ('a' <= c && c <= 'z') || ('A' <= c && c <= 'Z')) {
            return false;
        }
        i = i + 1;
    }
    true
}

/// The values put into the crowdfunding script for `campaign` and `backer`.
pub open spec fn script_data(campaign: CampaignView, backer: Seq<char>) -> Seq<
    (Seq<char>, Seq<char>),
> {
    seq![
        ("backer"@, backer),
        ("address"@, campaign.address),
        ("deadline"@, decimal_of(campaign.deadline as nat)),
        ("goal"@, decimal_of(campaign.goal as nat)),
    ]
}

/// The crowdfunding script for `campaign` and `backer`, or `None` where it
/// cannot be produced.
pub open spec fn script_outcome(campaign: CampaignView, backer: Seq<char>) -> Option<Seq<char>> {
    if embeddable(backer) && embeddable(campaign.address) {
        handlebars_output(CROWDFUND_TEMPLATE@, script_data(campaign, backer))
    } else {
        None
    }
}

/// The script depends on the owner's address, the deadline, the goal and the
/// backer's address alone: equal values of these give the same text.
pub proof fn lemma_script_deterministic(
    a: CampaignView,
    backer_a: Seq<char>,
    b: CampaignView,
    backer_b: Seq<char>,
)
    requires
        a.address == b.address,
        a.deadline == b.deadline,
        a.goal == b.goal,
        backer_a == backer_b,
    ensures
        script_outcome(a, backer_a) == script_outcome(b, backer_b),
{
    assert(script_data(a, backer_a) == script_data(b, backer_b));
}

/// Renders the crowdfunding script for `campaign`, backed from `backer_address`.
pub fn crowdfund_script(campaign: &Campaign, backer_address: &str) -> (r: Result<
    String,
    CampaignError,
>)
    ensures
        r is Ok <==> script_outcome(campaign@, backer_address@) is Some,
        r is Ok ==> script_outcome(campaign@, backer_address@) == Some(r->Ok_0@),
        r is Err ==> r->Err_0 == CampaignError::TemplateRenderError,
{
    if !is_embeddable(backer_address) || !is_embeddable(campaign.address.as_str()) {
        return Err(CampaignError::TemplateRenderError);
    }
    let mut data: Vec<(String, String)> = Vec::new();
    data.push((String::from_str("backer"), String::from_str(backer_address)));
    data.push((String::from_str("address"), campaign.address.clone()));
    data.push((String::from_str("deadline"), decimal_text(campaign.deadline)));
    data.push((String::from_str("goal"), decimal_text(campaign.goal)));
    assert(pairs_view(data@) =~= script_data(campaign@, backer_address@));
    match render_template(CROWDFUND_TEMPLATE, &data) {
        Ok(s) => Ok(s),
        Err(_) => Err(CampaignError::TemplateRenderError),
    }
}

/// The values put into a payment request of `nanoergs` to `address`.
pub open spec fn payment_data(address: Seq<char>, nanoergs: u64) -> Seq<(Seq<char>, Seq<char>)> {
    seq![("address"@, address), ("value"@, decimal_of(nanoergs as nat))]
}

/// The body of a payment request, or `None` where it cannot be produced.
pub open spec fn payment_outcome(address: Seq<char>, nanoergs: u64) -> Option<Seq<char>> {
    if embeddable(address) {
        handlebars_output(SEND_PAYMENT_TEMPLATE@, payment_data(address, nanoergs))
    } else {
        None
    }
}

/// Renders the body of a wallet payment of `nanoergs` (the chain's smallest unit)
/// to `address`.
pub fn payment_request_body(address: &str, nanoergs: u64) -> (r: Result<String, CampaignError>)
    ensures
        r is Ok <==> payment_outcome(address@, nanoergs) is Some,
        r is Ok ==> payment_outcome(address@, nanoergs) == Some(r->Ok_0@),
        r is Err ==> r->Err_0 == CampaignError::TemplateRenderError,
{
    if !is_embeddable(address) {
        return Err(CampaignError::TemplateRenderError);
    }
    let mut data: Vec<(String, String)> = Vec::new();
    data.push((String::from_str("address"), String::from_str(address)));
    data.push((String::from_str("value"), decimal_text(nanoergs)));
    assert(pairs_view(data@) =~= payment_data(address@, nanoergs));
    match render_template(SEND_PAYMENT_TEMPLATE, &data) {
        Ok(s) => Ok(s),
        Err(_) => Err(CampaignError::TemplateRenderError),
    }
}

} // verus!
