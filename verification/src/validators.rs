//! The list of Jito validators.
use vstd::prelude::*;

use crate::json::{json_get, json_items, json_text, member_is_found_by_its_name, Json};
use crate::text::{contains_text, join, texts};

verus! {

/// Where the list of Jito validators is to be had.
pub const JITO_VALIDATORS_URL: &'static str =
    "https://kobe.mainnet.jito.network/api/v1/jitosol_validators";

/// What came of asking for the list.
#[derive(Debug, PartialEq)]
pub enum ValidatorsReply {
    /// The request failed; why.
    Unreachable(String),
    /// The reply has a status other than success; its text.
    Refused(String),
    /// The reply's body is no JSON; why.
    Unreadable(String),
    /// The reply's body.
    Body(Json),
}

/// Whether an HTTP status means success.
pub fn is_success(status: u16) -> (success: bool)
    ensures
        success == (200 <= status < 300),
{
    200 <= status && status < 300
}

/// The vote account that a validator's entry names, if it does.
pub open spec fn entry_vote_account(entry: Json) -> Option<Seq<char>> {
    match json_get(entry, "vote_account"@) {
        Some(account) => json_text(account),
        None => None,
    }
}

/// The vote accounts that the entries name, in their order.
pub open spec fn entry_vote_accounts(entries: Seq<Json>) -> Seq<Seq<char>> {
    entries.filter_map(|entry: Json| entry_vote_account(entry))
}

/// The vote accounts that the body of a reply names.
pub open spec fn vote_accounts(body: Json) -> Seq<Seq<char>> {
    match json_get(body, "validators"@) {
        Some(validators) => match json_items(validators) {
            Some(entries) => entry_vote_accounts(entries),
            None => Seq::empty(),
        },
        None => Seq::empty(),
    }
}

/// `list` holds each of `accounts` once, and nothing else.
pub open spec fn holds_each_once(list: Seq<String>, accounts: Seq<Seq<char>>) -> bool {
    &&& texts(list).no_duplicates()
    &&& texts(list).to_set() == accounts.to_set()
}

/// The vote account that a validator's entry names, if it does.
fn find_vote_account(entry: &Json) -> (account: Option<&str>)
    ensures
        match account {
            Some(text) => entry_vote_account(*entry) == Some(text@),
            None => entry_vote_account(*entry) is None,
        },
{
    match entry.get("vote_account") {
        Some(value) => value.as_str(),
        None => None,
    }
}

/// The vote accounts that the entries name, each once.
fn collect_entries(entries: &Vec<Json>) -> (accounts: Vec<String>)
    ensures
        holds_each_once(accounts@, entry_vote_accounts(entries@)),
{
    let mut accounts: Vec<String> = Vec::new();
    let mut i: usize = 0;
    proof {
        reveal(Seq::filter_map);
        assert(texts(accounts@).to_set() =~= entry_vote_accounts(entries@.take(0)).to_set());
    }
    while i < entries.len()
        invariant
            i <= entries.len(),
            holds_each_once(accounts@, entry_vote_accounts(entries@.take(i as int))),
        decreases entries.len() - i,
    {
        let ghost earlier = entry_vote_accounts(entries@.take(i as int));
        let ghost held = texts(accounts@);
        proof {
            assert(entries@.take(i + 1).drop_last() =~= entries@.take(i as int));
            assert(entries@.take(i + 1).last() == entries@[i as int]);
            reveal(Seq::filter_map);
            if let Some(account) = entry_vote_account(entries@[i as int]) {
                assert(earlier + seq![account] =~= earlier.push(account));
            }
        }
        match find_vote_account(&entries[i]) {
            Some(account) => {
                let known = contains_text(&accounts, account);
                if !known {
                    accounts.push(account.to_owned());
                }
                proof {
                    lemma_one_more(held, earlier, account@);
                    if !known {
                        assert(texts(accounts@) =~= held.push(account@));
                    }
                }
            },
            None => {},
        }
        i = i + 1;
    }
    proof {
        assert(entries@.take(entries@.len() as int) =~= entries@);
    }
    accounts
}

/// One more account, added where it is new, leaves each account in once.
proof fn lemma_one_more(held: Seq<Seq<char>>, accounts: Seq<Seq<char>>, account: Seq<char>)
    requires
        held.no_duplicates(),
        held.to_set() == accounts.to_set(),
    ensures
        held.contains(account) ==> held.to_set() == accounts.push(account).to_set(),
        !held.contains(account) ==> held.push(account).no_duplicates() && held.push(
            account,
        ).to_set() == accounts.push(account).to_set(),
{
    broadcast use vstd::seq_lib::group_seq_properties;

    assert(accounts.push(account).to_set() =~= accounts.to_set().insert(account));
    assert(held.push(account).to_set() =~= held.to_set().insert(account));
    if held.contains(account) {
        assert(held.to_set().contains(account));
        assert(held.to_set().insert(account) =~= held.to_set());
    }
}

/// The vote accounts that the body of a reply names, each once.
pub fn collect_vote_accounts(body: &Json) -> (accounts: Vec<String>)
    ensures
        holds_each_once(accounts@, vote_accounts(*body)),
{
    if let Some(validators) = body.get("validators") {
        if let Some(entries) = validators.as_array() {
            return collect_entries(entries);
        }
    }
    let none: Vec<String> = Vec::new();
    proof {
        assert(texts(none@).to_set() =~= vote_accounts(*body).to_set());
    }
    none
}

/// Takes the reply to a request for the list of Jito validators into `table`. Only a list that
/// names at least one validator replaces what is there.
pub fn fetch_jito_validator_pubkeys(table: &mut Vec<String>, reply: ValidatorsReply) -> (result:
    Result<(), String>)
    ensures
        match reply {
            ValidatorsReply::Unreachable(error) => {
                &&& result matches Err(message) && message@ == "Request failed: "@ + error@
                &&& final(table)@ == old(table)@
            },
            ValidatorsReply::Refused(status) => {
                &&& result matches Err(message) && message@ == "API returned error status: "@
                    + status@
                &&& final(table)@ == old(table)@
            },
            ValidatorsReply::Unreadable(error) => {
                &&& result matches Err(message) && message@ == "Failed to parse response: "@
                    + error@
                &&& final(table)@ == old(table)@
            },
            ValidatorsReply::Body(body) => if vote_accounts(body).len() > 0 {
                &&& result is Ok
                &&& holds_each_once(final(table)@, vote_accounts(body))
            } else {
                &&& result matches Err(message) && message@ == "No Jito validators found"@
                &&& final(table)@ == old(table)@
            },
        },
{
    match reply {
        ValidatorsReply::Unreachable(error) => Err(join("Request failed: ", error.as_str())),
        ValidatorsReply::Refused(status) => Err(
            join("API returned error status: ", status.as_str()),
        ),
        ValidatorsReply::Unreadable(error) => Err(
            join("Failed to parse response: ", error.as_str()),
        ),
        ValidatorsReply::Body(body) => {
            let accounts = collect_vote_accounts(&body);
            proof {
                broadcast use vstd::seq_lib::group_seq_properties;

                let named = vote_accounts(body);
                if named.len() > 0 {
                    assert(named.to_set().contains(named[0]));
                    assert(texts(accounts@).contains(named[0]));
                }
                if accounts@.len() > 0 {
                    assert(texts(accounts@)[0] == accounts@[0]@);
                    assert(texts(accounts@).to_set().contains(accounts@[0]@));
                    assert(named.contains(accounts@[0]@));
                }
            }
            if accounts.len() > 0 {
                *table = accounts;
                Ok(())
            } else {
                Err("No Jito validators found".to_owned())
            }
        },
    }
}

/// A validator list that is taken over is never empty.
pub proof fn taken_list_is_never_empty(list: Seq<String>, body: Json)
    requires
        holds_each_once(list, vote_accounts(body)),
        vote_accounts(body).len() > 0,
    ensures
        list.len() > 0,
{
    broadcast use vstd::seq_lib::group_seq_properties;

    let named = vote_accounts(body);
    assert(named.to_set().contains(named[0]));
    assert(texts(list).contains(named[0]));
}

/// The vote account that an entry names is the text of its member `vote_account`, at whatever
/// position that stands.
pub proof fn account_is_the_entrys_member(fields: Vec<(String, Json)>, position: int)
    requires
        0 <= position < fields@.len(),
        fields@[position].0@ == "vote_account"@,
        forall|i: int| 0 <= i < position ==> (#[trigger] fields@[i]).0@ != "vote_account"@,
    ensures
        match fields@[position].1 {
            Json::Text(account) => entry_vote_account(Json::Object(fields)) == Some(account@),
            _ => entry_vote_account(Json::Object(fields)) is None,
        },
{
    let found = member_is_found_by_its_name(Json::Object(fields), "vote_account"@);
    assert(fields@[position].0@ == "vote_account"@);
    assert(found == position);
}

/// Every account that a reply names is on the list: the reply has, as its member `validators`, an
/// array, and one of its entries has, as its member `vote_account`, the text `account`, each member
/// at whatever position.
pub proof fn every_named_account_is_listed(
    list: Seq<String>,
    members: Vec<(String, Json)>,
    position: int,
    entries: Vec<Json>,
    entry: int,
    fields: Vec<(String, Json)>,
    field: int,
    account: String,
)
    requires
        0 <= position < members@.len(),
        members@[position].0@ == "validators"@,
        forall|i: int| 0 <= i < position ==> (#[trigger] members@[i]).0@ != "validators"@,
        members@[position].1 == Json::Array(entries),
        0 <= entry < entries@.len(),
        entries@[entry] == Json::Object(fields),
        0 <= field < fields@.len(),
        fields@[field].0@ == "vote_account"@,
        forall|i: int| 0 <= i < field ==> (#[trigger] fields@[i]).0@ != "vote_account"@,
        fields@[field].1 == Json::Text(account),
    ensures
        vote_accounts(Json::Object(members)).len() > 0,
        holds_each_once(list, vote_accounts(Json::Object(members))) ==> exists|i: int|
            0 <= i < list.len() && (#[trigger] list[i])@ == account@,
{
    broadcast use vstd::seq_lib::group_seq_properties;

    let body = Json::Object(members);
    lemma_entries(members, position, entries);
    account_is_the_entrys_member(fields, field);
    lemma_entry_accounts(entries@);
    assert(entry_vote_account(entries@[entry]) == Some(account@));
    assert(vote_accounts(body).contains(account@));
    if holds_each_once(list, vote_accounts(body)) {
        assert(vote_accounts(body).to_set().contains(account@));
        assert(texts(list).contains(account@));
        let i = texts(list).index_of(account@);
        assert(list[i]@ == account@);
    }
}

/// Only accounts that a reply names are on the list: each is the text of the member
/// `vote_account`, at the position `source.1`, of one of the entries of the array that the reply
/// has as its member `validators`, of the entry at the position `source.0`.
pub proof fn only_named_accounts_are_listed(
    list: Seq<String>,
    members: Vec<(String, Json)>,
    position: int,
    entries: Vec<Json>,
    i: int,
) -> (source: (int, int))
    requires
        holds_each_once(list, vote_accounts(Json::Object(members))),
        0 <= position < members@.len(),
        members@[position].0@ == "validators"@,
        forall|k: int| 0 <= k < position ==> (#[trigger] members@[k]).0@ != "validators"@,
        members@[position].1 == Json::Array(entries),
        0 <= i < list.len(),
    ensures
        0 <= source.0 < entries@.len(),
        entries@[source.0] matches Json::Object(fields) && 0 <= source.1 < fields@.len()
            && fields@[source.1].0@ == "vote_account"@ && (forall|k: int|
            0 <= k < source.1 ==> (#[trigger] fields@[k]).0@ != "vote_account"@) && (
        fields@[source.1].1 matches Json::Text(account) && account@ == list[i]@),
{
    broadcast use vstd::seq_lib::group_seq_properties;

    let body = Json::Object(members);
    lemma_entries(members, position, entries);
    lemma_entry_accounts(entries@);
    assert(texts(list)[i] == list[i]@);
    assert(texts(list).to_set().contains(list[i]@));
    assert(vote_accounts(body).contains(list[i]@));
    let entry = choose|k: int|
        0 <= k < entries@.len() && entry_vote_account(#[trigger] entries@[k]) == Some(list[i]@);
    let field = member_is_found_by_its_name(entries@[entry], "vote_account"@);
    (entry, field)
}

/// Nothing is named by a reply that has no member `validators`, or something else than an array
/// there, and nothing by one that is no object.
pub proof fn reply_without_an_array_names_nobody(body: Json)
    requires
        match body {
            Json::Object(members) => forall|i: int|
                0 <= i < members@.len() && (#[trigger] members@[i]).0@ == "validators"@ && (forall|
                    j: int,
                |
                    0 <= j < i ==> (#[trigger] members@[j]).0@ != "validators"@) ==> !(
                members@[i].1 is Array),
            _ => true,
        },
    ensures
        vote_accounts(body).len() == 0,
{
    let position = member_is_found_by_its_name(body, "validators"@);
}

/// No account is on the list twice.
pub proof fn no_account_is_listed_twice(list: Seq<String>, accounts: Seq<Seq<char>>, i: int, j: int)
    requires
        holds_each_once(list, accounts),
        0 <= i < j < list.len(),
    ensures
        list[i]@ != list[j]@,
{
    assert(texts(list)[i] == list[i]@);
    assert(texts(list)[j] == list[j]@);
}

/// The entries that count are those of the array `validators`.
proof fn lemma_entries(members: Vec<(String, Json)>, position: int, entries: Vec<Json>)
    requires
        0 <= position < members@.len(),
        members@[position].0@ == "validators"@,
        forall|i: int| 0 <= i < position ==> (#[trigger] members@[i]).0@ != "validators"@,
        members@[position].1 == Json::Array(entries),
    ensures
        vote_accounts(Json::Object(members)) == entry_vote_accounts(entries@),
{
    let found = member_is_found_by_its_name(Json::Object(members), "validators"@);
    assert(members@[position].0@ == "validators"@);
    assert(found == position);
}

/// An account is among those of the entries where one of them names it.
proof fn lemma_entry_accounts(entries: Seq<Json>)
    ensures
        forall|account: Seq<char>| #[trigger]
            entry_vote_accounts(entries).contains(account) <==> exists|k: int|
                0 <= k < entries.len() && entry_vote_account(#[trigger] entries[k]) == Some(account),
    decreases entries.len(),
{
    reveal(Seq::filter_map);
    let all = entry_vote_accounts(entries);
    if entries.len() > 0 {
        let front = entries.drop_last();
        let earlier = entry_vote_accounts(front);
        lemma_entry_accounts(front);
        let named = entry_vote_account(entries.last());
        assert(named is Some ==> all =~= earlier.push(named->0));
        assert(named is None ==> all == earlier);
        assert forall|account: Seq<char>| #[trigger] all.contains(account) <==> exists|k: int|
            0 <= k < entries.len() && entry_vote_account(#[trigger] entries[k]) == Some(account) by {
            if all.contains(account) {
                let i = all.index_of(account);
                if i < earlier.len() {
                    assert(earlier[i] == account);
                    assert(earlier.contains(account));
                    let k = choose|k: int|
                        0 <= k < front.len() && entry_vote_account(#[trigger] front[k]) == Some(
                            account,
                        );
                    assert(entries[k] == front[k]);
                } else {
                    assert(entries[entries.len() - 1] == entries.last());
                }
            }
            if exists|k: int|
                0 <= k < entries.len() && entry_vote_account(#[trigger] entries[k]) == Some(account) {
                let k = choose|k: int|
                    0 <= k < entries.len() && entry_vote_account(#[trigger] entries[k]) == Some(
                        account,
                    );
                if k < front.len() {
                    assert(front[k] == entries[k]);
                    assert(earlier.contains(account));
                    assert(all[earlier.index_of(account)] == account);
                } else {
                    assert(all[earlier.len() as int] == account);
                }
            }
        }
    }
}

} // verus!
