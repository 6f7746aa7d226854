use vstd::prelude::*;

use crate::campaign::{BackingTx, TxView};
use crate::error::CampaignError;
use crate::text::{contains, contains_text, remove_quotes, strip_quotes};

verus! {

/// The list of strings that serde_json reads from `text` as a JSON array of
/// strings, or `None` where the text is not one.
pub uninterp spec fn json_string_list(text: Seq<char>) -> Option<Seq<Seq<char>>>;

/// The entries, in ascending order of keys, that serde_json reads from `text` as
/// a JSON object whose values are all strings, or `None` where it is not one.
pub uninterp spec fn json_string_object(text: Seq<char>) -> Option<Seq<(Seq<char>, Seq<char>)>>;

#[verifier::external_type_specification]
#[verifier::external_body]
pub struct ExJsonError(serde_json::Error);

pub open spec fn strings_view(v: Seq<String>) -> Seq<Seq<char>> {
    v.map_values(|s: String| s@)
}

pub open spec fn entries_view(v: Seq<(String, String)>) -> Seq<(Seq<char>, Seq<char>)> {
    v.map_values(|p: (String, String)| (p.0@, p.1@))
}

/// Relies on serde_json::from_str, read as a `Vec<String>`: the outcome depends
/// on the text alone.
#[verifier::external_body]
fn decode_string_list(text: &str) -> (r: Result<Vec<String>, serde_json::Error>)
    ensures
        r is Ok ==> json_string_list(text@) == Some(strings_view(r->Ok_0@)),
        r is Err ==> json_string_list(text@) is None,
{
    serde_json::from_str::<Vec<String>>(text)
}

/// Relies on serde_json::from_str, read as a `BTreeMap<String, String>` whose
/// entries are handed out in key order: the outcome depends on the text alone.
#[verifier::external_body]
fn decode_string_object(text: &str) -> (r: Result<Vec<(String, String)>, serde_json::Error>)
    ensures
        r is Ok ==> json_string_object(text@) == Some(entries_view(r->Ok_0@)),
        r is Err ==> json_string_object(text@) is None,
{
    serde_json::from_str::<std::collections::BTreeMap<String, String>>(text).map(
        |m| m.into_iter().collect(),
    )
}

/// What the wallet's address list yields: the addresses, or why there are none.
pub open spec fn addresses_outcome(list: Option<Seq<Seq<char>>>) -> Result<
    Seq<Seq<char>>,
    CampaignError,
> {
    match list {
        None => Err(CampaignError::InvalidNodeResponse),
        Some(l) => if l.len() == 0 {
            Err(CampaignError::NoAddressesFound)
        } else {
            Ok(l)
        },
    }
}

pub open spec fn strings_result_view(r: Result<Vec<String>, CampaignError>) -> Result<
    Seq<Seq<char>>,
    CampaignError,
> {
    match r {
        Ok(v) => Ok(strings_view(v@)),
        Err(e) => Err(e),
    }
}

pub open spec fn string_result_view(r: Result<String, CampaignError>) -> Result<
    Seq<char>,
    CampaignError,
> {
    match r {
        Ok(s) => Ok(s@),
        Err(e) => Err(e),
    }
}

/// The wallet's addresses, from the decoded reply of the address endpoint:
/// `None` is a reply of the wrong shape, an empty list a wallet without addresses.
pub fn addresses_from_list(list: Option<Vec<String>>) -> (r: Result<Vec<String>, CampaignError>)
    ensures
        strings_result_view(r) == addresses_outcome(
            match list {
                Some(v) => Some(strings_view(v@)),
                None => None,
            },
        ),
{
    match list {
        None => Err(CampaignError::InvalidNodeResponse),
        Some(v) => if v.len() == 0 {
            Err(CampaignError::NoAddressesFound)
        } else {
            Ok(v)
        },
    }
}

/// The wallet's addresses, from the body of the node's reply to an address
/// request: a JSON array of address strings.
pub fn parse_wallet_addresses(reply: &str) -> (r: Result<Vec<String>, CampaignError>)
    ensures
        strings_result_view(r) == addresses_outcome(json_string_list(reply@)),
{
    let list = match decode_string_list(reply) {
        Ok(v) => Some(v),
        Err(_) => None,
    };
    addresses_from_list(list)
}

/// The address that backs a campaign: the only one, or else the one the user
/// chose by its position counted from 1.
pub open spec fn selection(addresses: Seq<Seq<char>>, choice: Option<usize>) -> Result<
    Seq<char>,
    CampaignError,
> {
    if addresses.len() == 0 {
        Err(CampaignError::NoAddressesFound)
    } else if addresses.len() == 1 {
        Ok(addresses[0])
    } else {
        match choice {
            Some(n) => if 1 <= n <= addresses.len() {
                Ok(addresses[n - 1])
            } else {
                Err(CampaignError::InvalidInput)
            },
            None => Err(CampaignError::InvalidInput),
        }
    }
}

/// Picks the backer's address among the wallet's `addresses`. With a single
/// address no choice is needed; with several, `choice` is a position counted
/// from 1, and a missing or out-of-range choice is `InvalidInput` (ask again).
pub fn select_wallet_address(addresses: &Vec<String>, choice: Option<usize>) -> (r: Result<
    String,
    CampaignError,
>)
    ensures
        string_result_view(r) == selection(strings_view(addresses@), choice),
{
    if addresses.len() == 0 {
        return Err(CampaignError::NoAddressesFound);
    }
    if addresses.len() == 1 {
        return Ok(addresses[0].clone());
    }
    match choice {
        Some(n) => if 1 <= n && n <= addresses.len() {
            Ok(addresses[n - 1].clone())
        } else {
            Err(CampaignError::InvalidInput)
        },
        None => Err(CampaignError::InvalidInput),
    }
}

/// The value of the first entry under `key`.
pub open spec fn lookup(entries: Seq<(Seq<char>, Seq<char>)>, key: Seq<char>) -> Option<Seq<char>>
    decreases entries.len(),
{
    if entries.len() == 0 {
        None
    } else if entries[0].0 == key {
        Some(entries[0].1)
    } else {
        lookup(entries.drop_first(), key)
    }
}

/// The deposit address in a decoded reply of the script endpoint: the non-empty
/// `address` entry of the object.
pub open spec fn deposit_outcome(object: Option<Seq<(Seq<char>, Seq<char>)>>) -> Result<
    Seq<char>,
    CampaignError,
> {
    match object {
        Some(entries) => match lookup(entries, "address"@) {
            Some(a) => if a.len() > 0 {
                Ok(a)
            } else {
                Err(CampaignError::InvalidNodeResponse)
            },
            None => Err(CampaignError::InvalidNodeResponse),
        },
        None => Err(CampaignError::InvalidNodeResponse),
    }
}

/// An HTTP status that reports success.
pub open spec fn success_status(status: u16) -> bool {
    200 <= status <= 299
}

/// The deposit address, from the status and the decoded body of the node's
/// reply to a script: any status but a success is the node refusing the script.
pub open spec fn p2s_outcome(status: u16, object: Option<Seq<(Seq<char>, Seq<char>)>>) -> Result<
    Seq<char>,
    CampaignError,
> {
    if success_status(status) {
        deposit_outcome(object)
    } else {
        Err(CampaignError::ScriptRejected)
    }
}

/// The deposit address in the entries of a decoded reply of the script endpoint.
pub fn deposit_from_entries(object: Option<Vec<(String, String)>>) -> (r: Result<
    String,
    CampaignError,
>)
    ensures
        string_result_view(r) == deposit_outcome(
            match object {
                Some(v) => Some(entries_view(v@)),
                None => None,
            },
        ),
{
    match object {
        Some(entries) => address_entry(&entries),
        None => Err(CampaignError::InvalidNodeResponse),
    }
}

fn address_entry(entries: &Vec<(String, String)>) -> (r: Result<String, CampaignError>)
    ensures
        string_result_view(r) == deposit_outcome(Some(entries_view(entries@))),
{
    let key = String::from_str("address");
    let mut i: usize = 0;
    assert(entries_view(entries@).skip(0) =~= entries_view(entries@));
    while i < entries.len()
        invariant
            0 <= i <= entries.len(),
            key@ == "address"@,
            lookup(entries_view(entries@), "address"@) == lookup(
                entries_view(entries@).skip(i as int),
                "address"@,
            ),
        decreases entries.len() - i,
    {
        let ghost rest = entries_view(entries@).skip(i as int);
        assert(rest.drop_first() =~= entries_view(entries@).skip(i + 1));
        assert(rest[0] == (entries@[i as int].0@, entries@[i as int].1@));
        if entries[i].0 == key {
            let a = entries[i].1.clone();
            assert(rest.len() > 0 && rest[0].0 == "address"@);
            assert(lookup(rest, "address"@) == Some(a@));
            if a.as_str().unicode_len() > 0 {
                return Ok(a);
            } else {
                return Err(CampaignError::InvalidNodeResponse);
            }
        }
        i = i + 1;
    }
    assert(entries_view(entries@).skip(i as int).len() == 0);
    Err(CampaignError::InvalidNodeResponse)
}

/// The deposit address (a P2S address) that the node derived from a script, from
/// the status and the body of its reply.
pub fn get_p2s_address(status: u16, reply: &str) -> (r: Result<String, CampaignError>)
    ensures
        string_result_view(r) == p2s_outcome(status, json_string_object(reply@)),
{
    if !(200 <= status && status <= 299) {
        return Err(CampaignError::ScriptRejected);
    }
    let object = match decode_string_object(reply) {
        Ok(v) => Some(v),
        Err(_) => None,
    };
    deposit_from_entries(object)
}

/// How the node says that a request was malformed or refused.
pub open spec fn reports_bad_request(s: Seq<char>) -> bool {
    contains(s, "bad.request"@)
}

/// How the node says that the wallet cannot cover a payment.
pub open spec fn reports_low_balance(s: Seq<char>) -> bool {
    contains(s, "not enough"@) || contains(s, "Not enough"@)
}

/// The transaction identifier in the node's reply to a payment, or why there is none.
pub open spec fn payment_reply_outcome(reply: Seq<char>) -> Result<Seq<char>, CampaignError> {
    let text = strip_quotes(reply);
    if reports_bad_request(text) {
        if reports_low_balance(text) {
            Err(CampaignError::InsufficientFunds)
        } else {
            Err(CampaignError::PaymentRejected)
        }
    } else if text.len() == 0 {
        Err(CampaignError::InvalidNodeResponse)
    } else {
        Ok(text)
    }
}

proof fn lemma_strip_quotes_unquoted(s: Seq<char>)
    ensures
        forall|i: int| 0 <= i < strip_quotes(s).len() ==> #[trigger] strip_quotes(s)[i] != '"',
    decreases s.len(),
{
    if s.len() > 0 {
        lemma_strip_quotes_unquoted(s.drop_last());
        let t = strip_quotes(s.drop_last());
        if s.last() != '"' {
            assert forall|i: int| 0 <= i < t.push(s.last()).len() implies #[trigger] t.push(
                s.last(),
            )[i] != '"' by {
                if i < t.len() {
                    assert(t.push(s.last())[i] == t[i]);
                }
            }
        }
    }
}

/// The record of a payment of `amount`, from the body of the node's reply to the
/// payment request: the transaction identifier, its quotes removed.
pub fn payment_tx(reply: &str, amount: u64) -> (r: Result<BackingTx, CampaignError>)
    ensures
        match payment_reply_outcome(reply@) {
            Ok(id) => r is Ok && r->Ok_0@ == (TxView { tx_id: id, amount }),
            Err(e) => r == Err::<BackingTx, CampaignError>(e),
        },
        r is Ok ==> r->Ok_0@.wf(),
{
    let text = remove_quotes(reply);
    proof {
        lemma_strip_quotes_unquoted(reply@);
    }
    if contains_text(text.as_str(), "bad.request") {
        if contains_text(text.as_str(), "not enough") || contains_text(text.as_str(), "Not enough") {
            return Err(CampaignError::InsufficientFunds);
        }
        return Err(CampaignError::PaymentRejected);
    }
    if text.as_str().unicode_len() == 0 {
        return Err(CampaignError::InvalidNodeResponse);
    }
    Ok(BackingTx::new(text, amount))
}

} // verus!
