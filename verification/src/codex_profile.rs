//! Reading an account's profile (name, structure, id) out of the reply of
//! the account-check service.
use vstd::prelude::*;
use crate::external::{
    json_array_len, json_array_length, json_get_item, json_get_member, json_item, json_member,
    json_object_values, json_string, json_as_string, json_values,
};
use crate::codex::{
    access_token_account_id, extract_chatgpt_account_id_from_access_token, first_some, json_text_field,
    json_text_member, normalize_optional_ref, normalized_opt, CodexAccount,
};
use crate::strings::{opt_str, strs};

verus! {

broadcast use vstd::string::group_string_axioms;

/// The JSON objects among some JSON values, in order.
pub open spec fn objects_among(items: Seq<Option<Seq<char>>>) -> Seq<Seq<char>>
    decreases items.len(),
{
    if items.len() == 0 {
        Seq::empty()
    } else {
        let rest = objects_among(items.drop_last());
        match items.last() {
            Some(t) => if json_values(t) is Some {
                rest.push(t)
            } else {
                rest
            },
            None => rest,
        }
    }
}

/// The first `n` items of the JSON array that a text holds.
pub open spec fn array_items(text: Seq<char>, n: usize) -> Seq<Option<Seq<char>>> {
    Seq::new(n as nat, |i: int| json_item(text, i as usize))
}

/// Values that are all present.
pub open spec fn all_present(vs: Seq<Seq<char>>) -> Seq<Option<Seq<char>>> {
    vs.map_values(|t: Seq<char>| Some(t))
}

/// The account records of an account-check reply: the objects listed under
/// `accounts` (an array, or an object's values), else the objects of the
/// reply itself when it is an array.
pub open spec fn account_records(payload: Seq<char>) -> Seq<Seq<char>> {
    let listed = match json_member(payload, "accounts"@) {
        Some(a) => match json_array_len(a) {
            Some(n) => objects_among(array_items(a, n)),
            None => match json_values(a) {
                Some(vs) => objects_among(all_present(vs)),
                None => Seq::empty(),
            },
        },
        None => Seq::empty(),
    };
    if listed.len() > 0 {
        listed
    } else {
        match json_array_len(payload) {
            Some(n) => objects_among(array_items(payload, n)),
            None => Seq::empty(),
        }
    }
}

/// The first of `keys`, from position `i`, under which a record holds a
/// non-blank string; that string, trimmed.
pub open spec fn record_field(record: Seq<char>, keys: Seq<Seq<char>>, i: int) -> Option<Seq<char>>
    decreases keys.len() - i,
{
    if i < 0 || i >= keys.len() {
        None
    } else {
        match json_text_field(record, keys[i]) {
            Some(v) => Some(v),
            None => record_field(record, keys, i + 1),
        }
    }
}

/// The keys that name a record's account id.
pub open spec fn record_id_keys() -> Seq<Seq<char>> {
    seq!["id"@, "account_id"@, "chatgpt_account_id"@, "workspace_id"@]
}

/// The keys that name a record's organization.
pub open spec fn record_org_keys() -> Seq<Seq<char>> {
    seq!["organization_id"@, "org_id"@, "workspace_id"@]
}

/// The keys that name a record's display name.
pub open spec fn record_name_keys() -> Seq<Seq<char>> {
    seq!["name"@, "display_name"@, "account_name"@, "organization_name"@, "workspace_name"@, "title"@]
}

/// The keys that name a record's structure.
pub open spec fn record_structure_keys() -> Seq<Seq<char>> {
    seq!["structure"@, "account_structure"@, "kind"@, "type"@, "account_type"@]
}

/// The first record, from position `i`, whose field under `keys` is `want`.
pub open spec fn first_record_with(records: Seq<Seq<char>>, keys: Seq<Seq<char>>, want: Seq<char>, i: int) -> Option<
    int,
>
    decreases records.len() - i,
{
    if i < 0 || i >= records.len() {
        None
    } else if normalized_opt(record_field(records[i], keys, 0)) == Some(want) {
        Some(i)
    } else {
        first_record_with(records, keys, want, i + 1)
    }
}

proof fn lemma_first_record_in_range(records: Seq<Seq<char>>, keys: Seq<Seq<char>>, want: Seq<char>, i: int)
    ensures
        first_record_with(records, keys, want, i) matches Some(k) ==> 0 <= k < records.len(),
    decreases records.len() - i,
{
    if 0 <= i < records.len() {
        lemma_first_record_in_range(records, keys, want, i + 1);
    }
}

/// The account id the profile is looked up for: the account's own, else the
/// one in its access token.
pub open spec fn expected_account_id(a: CodexAccount) -> Option<Seq<char>> {
    first_some(normalized_opt(opt_str(a.account_id)), access_token_account_id(a.tokens.access_token@))
}

/// The first id of the reply's `account_ordering`, trimmed and not blank.
pub open spec fn ordering_first_id(payload: Seq<char>) -> Option<Seq<char>> {
    match json_member(payload, "account_ordering"@) {
        Some(o) => match json_item(o, 0) {
            Some(f) => normalized_opt(json_string(f)),
            None => None,
        },
        None => None,
    }
}

/// The record a profile is read from: the one with the expected account id,
/// else the one first in the ordering, else the one of the account's
/// organization, else the first.
pub open spec fn selected_record(
    records: Seq<Seq<char>>,
    expected_id: Option<Seq<char>>,
    ordering_id: Option<Seq<char>>,
    org_id: Option<Seq<char>>,
) -> int {
    let by_id = match expected_id {
        Some(x) => first_record_with(records, record_id_keys(), x, 0),
        None => None,
    };
    let by_order = match by_id {
        Some(k) => Some(k),
        None => match ordering_id {
            Some(x) => first_record_with(records, record_id_keys(), x, 0),
            None => None,
        },
    };
    let by_org = match by_order {
        Some(k) => Some(k),
        None => match org_id {
            Some(x) => first_record_with(records, record_org_keys(), x, 0),
            None => None,
        },
    };
    match by_org {
        Some(k) => k,
        None => 0,
    }
}

/// The name, structure and id that an account-check reply gives an account.
pub open spec fn check_response_profile(payload: Seq<char>, a: CodexAccount) -> (
    Option<Seq<char>>,
    Option<Seq<char>>,
    Option<Seq<char>>,
) {
    let records = account_records(payload);
    if records.len() == 0 {
        (None, None, None)
    } else {
        let r = records[selected_record(
            records,
            expected_account_id(a),
            ordering_first_id(payload),
            normalized_opt(opt_str(a.organization_id)),
        )];
        (record_field(r, record_name_keys(), 0), record_field(r, record_structure_keys(), 0), record_field(r, record_id_keys(), 0))
    }
}

proof fn lemma_objects_step(items: Seq<Option<Seq<char>>>, i: int)
    requires
        0 <= i < items.len(),
    ensures
        objects_among(items.take(i + 1)) == match items[i] {
            Some(t) => if json_values(t) is Some {
                objects_among(items.take(i)).push(t)
            } else {
                objects_among(items.take(i))
            },
            None => objects_among(items.take(i)),
        },
{
    assert(items.take(i + 1).drop_last() =~= items.take(i));
}

/// The objects among the first `n` items of a JSON array text.
fn objects_of_array(text: &str, n: usize) -> (r: Vec<String>)
    ensures
        strs(r@) == objects_among(array_items(text@, n)),
{
    let mut r: Vec<String> = Vec::new();
    let mut i: usize = 0;
    while i < n
        invariant
            i <= n,
            strs(r@) == objects_among(array_items(text@, n).take(i as int)),
        decreases n - i,
    {
        proof {
            lemma_objects_step(array_items(text@, n), i as int);
        }
        match json_get_item(text, i) {
            Some(t) => {
                if json_object_values(t.as_str()).is_some() {
                    r.push(t);
                    assert(strs(r@) =~= strs(r@.drop_last()).push(r@.last()@));
                }
            },
            None => {},
        }
        i += 1;
    }
    assert(array_items(text@, n).take(n as int) =~= array_items(text@, n));
    r
}

/// The objects among some JSON value texts.
fn objects_of_values(vs: &Vec<String>) -> (r: Vec<String>)
    ensures
        strs(r@) == objects_among(all_present(strs(vs@))),
{
    let ghost items = all_present(strs(vs@));
    let mut r: Vec<String> = Vec::new();
    let mut i: usize = 0;
    while i < vs.len()
        invariant
            i <= vs.len(),
            items == all_present(strs(vs@)),
            items.len() == vs@.len(),
            strs(r@) == objects_among(items.take(i as int)),
        decreases vs.len() - i,
    {
        proof {
            lemma_objects_step(items, i as int);
        }
        assert(items[i as int] == Some(vs@[i as int]@));
        let t = vs[i].clone();
        if json_object_values(t.as_str()).is_some() {
            r.push(t);
            assert(strs(r@) =~= strs(r@.drop_last()).push(r@.last()@));
        }
        i += 1;
    }
    assert(items.take(vs.len() as int) =~= items);
    r
}

/// `collect_account_records`: the account records of an account-check reply.
pub fn collect_account_records(payload: &str) -> (r: Vec<String>)
    ensures
        strs(r@) == account_records(payload@),
{
    let listed = match json_get_member(payload, "accounts") {
        Some(a) => match json_array_length(a.as_str()) {
            Some(n) => objects_of_array(a.as_str(), n),
            None => match json_object_values(a.as_str()) {
                Some(vs) => objects_of_values(&vs),
                None => Vec::new(),
            },
        },
        None => Vec::new(),
    };
    if listed.len() > 0 {
        return listed;
    }
    match json_array_length(payload) {
        Some(n) => objects_of_array(payload, n),
        None => Vec::new(),
    }
}

/// `extract_account_record_field`: the first of `keys` under which a record
/// holds a non-blank string.
pub fn extract_account_record_field(record: &str, keys: &[&str]) -> (r: Option<String>)
    ensures
        opt_str(r) == record_field(record@, keys@.map_values(|k: &str| k@), 0),
{
    let ghost ks = keys@.map_values(|k: &str| k@);
    let mut i: usize = 0;
    while i < keys.len()
        invariant
            i <= keys@.len(),
            ks == keys@.map_values(|k: &str| k@),
            record_field(record@, ks, 0) == record_field(record@, ks, i as int),
        decreases keys.len() - i,
    {
        assert(ks[i as int] == keys@[i as int]@);
        match json_text_member(record, keys[i]) {
            Some(v) => {
                return Some(v);
            },
            None => {},
        }
        i += 1;
    }
    None
}

/// The first record whose field under `keys` is `want`.
fn find_record(records: &Vec<String>, keys: &[&str], want: &str) -> (r: Option<usize>)
    ensures
        match first_record_with(strs(records@), keys@.map_values(|k: &str| k@), want@, 0) {
            Some(k) => r == Some(k as usize),
            None => r is None,
        },
{
    let ghost ks = keys@.map_values(|k: &str| k@);
    let ghost rs = strs(records@);
    let mut i: usize = 0;
    while i < records.len()
        invariant
            i <= records@.len(),
            ks == keys@.map_values(|k: &str| k@),
            rs == strs(records@),
            rs.len() == records@.len(),
            first_record_with(rs, ks, want@, 0) == first_record_with(rs, ks, want@, i as int),
        decreases records.len() - i,
    {
        assert(rs[i as int] == records@[i as int]@);
        let field = extract_account_record_field(records[i].as_str(), keys);
        let normalized = match &field {
            Some(f) => normalize_optional_ref(Some(f.as_str())),
            None => None,
        };
        match normalized {
            Some(v) => {
                if crate::text::str_eq(v.as_str(), want) {
                    return Some(i);
                }
            },
            None => {},
        }
        i += 1;
    }
    None
}

/// `parse_account_profile_from_check_response`: the account name, structure
/// and id that the account-check reply `payload` gives `account`.
pub fn parse_account_profile_from_check_response(payload: &str, account: &CodexAccount) -> (r: (
    Option<String>,
    Option<String>,
    Option<String>,
))
    ensures
        (opt_str(r.0), opt_str(r.1), opt_str(r.2)) == check_response_profile(payload@, *account),
{
    let records = collect_account_records(payload);
    if records.len() == 0 {
        return (None, None, None);
    }
    let ordering_id = match json_get_member(payload, "account_ordering") {
        Some(o) => match json_get_item(o.as_str(), 0) {
            Some(f) => match json_as_string(f.as_str()) {
                Some(s) => normalize_optional_ref(Some(s.as_str())),
                None => None,
            },
            None => None,
        },
        None => None,
    };
    let own_id = match &account.account_id {
        Some(v) => normalize_optional_ref(Some(v.as_str())),
        None => None,
    };
    let expected_id = match own_id {
        Some(v) => Some(v),
        None => extract_chatgpt_account_id_from_access_token(account.tokens.access_token.as_str()),
    };
    let expected_org_id = match &account.organization_id {
        Some(v) => normalize_optional_ref(Some(v.as_str())),
        None => None,
    };
    let id_keys: [&str; 4] = ["id", "account_id", "chatgpt_account_id", "workspace_id"];
    let org_keys: [&str; 3] = ["organization_id", "org_id", "workspace_id"];
    let name_keys: [&str; 6] = ["name", "display_name", "account_name", "organization_name", "workspace_name", "title"];
    let structure_keys: [&str; 5] = ["structure", "account_structure", "kind", "type", "account_type"];
    assert(id_keys@.map_values(|k: &str| k@) =~= record_id_keys());
    assert(org_keys@.map_values(|k: &str| k@) =~= record_org_keys());
    assert(name_keys@.map_values(|k: &str| k@) =~= record_name_keys());
    assert(structure_keys@.map_values(|k: &str| k@) =~= record_structure_keys());
    let by_id = match &expected_id {
        Some(x) => find_record(&records, &id_keys, x.as_str()),
        None => None,
    };
    let by_order = match by_id {
        Some(k) => Some(k),
        None => match &ordering_id {
            Some(x) => find_record(&records, &id_keys, x.as_str()),
            None => None,
        },
    };
    let by_org = match by_order {
        Some(k) => Some(k),
        None => match &expected_org_id {
            Some(x) => find_record(&records, &org_keys, x.as_str()),
            None => None,
        },
    };
    proof {
        match expected_account_id(*account) {
            Some(x) => lemma_first_record_in_range(strs(records@), record_id_keys(), x, 0),
            None => {},
        }
        match ordering_first_id(payload@) {
            Some(x) => lemma_first_record_in_range(strs(records@), record_id_keys(), x, 0),
            None => {},
        }
        match normalized_opt(opt_str(account.organization_id)) {
            Some(x) => lemma_first_record_in_range(strs(records@), record_org_keys(), x, 0),
            None => {},
        }
    }
    let k = match by_org {
        Some(k) => k,
        None => 0,
    };
    assert(strs(records@)[k as int] == records@[k as int]@);
    let record = records[k].as_str();
    (
        extract_account_record_field(record, &name_keys),
        extract_account_record_field(record, &structure_keys),
        extract_account_record_field(record, &id_keys),
    )
}

} // verus!
