//! The store of received mails: a JSON array of records, one per mail, to which each
//! mail received is appended.
use vstd::prelude::*;
use vstd::string::StringExecFns;

use crate::message::body_of;
use crate::message::extract_body;
use crate::message::extract_subject;
use crate::message::subject_of;
use crate::smtp::Mail;
use crate::smtp::MailView;

verus! {

#[verifier::external_type_specification]
#[verifier::external_body]
pub struct ExJsonValue(serde_json::Value);

#[verifier::external_type_specification]
#[verifier::external_body]
#[verifier::reject_recursive_types(K)]
#[verifier::reject_recursive_types(V)]
pub struct ExJsonMap<K, V>(serde_json::Map<K, V>);

#[verifier::external_type_specification]
#[verifier::external_body]
pub struct ExJsonError(serde_json::Error);

/// What a `serde_json::Map` holds: each key's text and its value.
pub uninterp spec fn json_map_entries(m: serde_json::Map<String, serde_json::Value>) -> Map<
    Seq<char>,
    serde_json::Value,
>;

/// The JSON string `s` (`Value::from` on a `String`).
pub uninterp spec fn json_string_value(s: Seq<char>) -> serde_json::Value;

/// The JSON array of the strings `items` (`Value::from` on a `Vec<String>`).
pub uninterp spec fn json_string_array_value(items: Seq<Seq<char>>) -> serde_json::Value;

/// The JSON object with `entries` (`Value::from` on a `Map`).
pub uninterp spec fn json_object_value(entries: Map<Seq<char>, serde_json::Value>) -> serde_json::Value;

/// The elements of the JSON array that `text` holds, as `serde_json::from_str` reads a
/// `Vec<Value>` from it; `None` when it reads none.
pub uninterp spec fn parsed_store(text: Seq<char>) -> Option<Seq<serde_json::Value>>;

/// `serde_json::Map::new`, which makes an empty map.
#[verifier::external_body]
fn json_map_new() -> (fresh: serde_json::Map<String, serde_json::Value>)
    ensures
        json_map_entries(fresh).dom() == Set::<Seq<char>>::empty(),
{
    serde_json::Map::new()
}

/// `serde_json::Map::insert`, documented to store `v` under `k`, replacing and returning the
/// value that `k` had, if any.
#[verifier::external_body]
fn json_map_insert(
    m: &mut serde_json::Map<String, serde_json::Value>,
    k: String,
    v: serde_json::Value,
) -> (r: Option<serde_json::Value>)
    ensures
        json_map_entries(*final(m)) == json_map_entries(*old(m)).insert(k@, v),
        r == (if json_map_entries(*old(m)).dom().contains(k@) {
            Some(json_map_entries(*old(m))[k@])
        } else {
            None
        }),
{
    m.insert(k, v)
}

/// `Value::from` on a `String`, which makes the JSON string with that text.
#[verifier::external_body]
fn json_string(s: String) -> (v: serde_json::Value)
    ensures
        v == json_string_value(s@),
{
    serde_json::Value::from(s)
}

/// `Value::from` on a `Vec<String>`, which makes the JSON array of those strings.
#[verifier::external_body]
fn json_string_array(items: Vec<String>) -> (v: serde_json::Value)
    ensures
        v == json_string_array_value(items@.map_values(|s: String| s@)),
{
    serde_json::Value::from(items)
}

/// `Value::from` on a `Map`, which makes the JSON object with its entries.
#[verifier::external_body]
fn json_object(m: serde_json::Map<String, serde_json::Value>) -> (v: serde_json::Value)
    ensures
        v == json_object_value(json_map_entries(m)),
{
    serde_json::Value::from(m)
}

/// `serde_json::from_str` reading a `Vec<Value>` from `text`.
#[verifier::external_body]
fn parse_store(text: &str) -> (r: Result<Vec<serde_json::Value>, serde_json::Error>)
    ensures
        r is Ok <==> parsed_store(text@) is Some,
        r matches Ok(v) ==> parsed_store(text@) == Some(v@),
{
    serde_json::from_str(text)
}

/// Why the store could not take a mail.
#[derive(Debug, Clone, Copy, PartialEq, Eq, Structural)]
pub enum StoreError {
    /// The store's text is not a JSON array.
    NotAnArray,
}

impl StoreError {
    pub fn message(&self) -> (s: &'static str)
        ensures
            s@ == "the mail store does not hold a JSON array"@,
    {
        "the mail store does not hold a JSON array"
    }
}

/// The record stored for mail `m`: its sender, its recipients, and the subject and body
/// read from its text.
pub open spec fn mail_record(m: MailView) -> serde_json::Value {
    json_object_value(
        map![
            "sender"@ => json_string_value(m.from),
            "recipient"@ => json_string_array_value(m.to),
            "subject"@ => json_string_value(subject_of(m.data)),
            "body"@ => json_string_value(body_of(m.data)),
        ],
    )
}

fn copy_strings(v: &Vec<String>) -> (r: Vec<String>)
    ensures
        r@.map_values(|s: String| s@) == v@.map_values(|s: String| s@),
{
    let mut r: Vec<String> = Vec::new();
    let mut i: usize = 0;
    while i < v.len()
        invariant
            i <= v@.len(),
            r@.len() == i,
            forall|j: int| 0 <= j < i ==> (#[trigger] r@[j])@ == v@[j]@,
        decreases v@.len() - i,
    {
        r.push(v[i].clone());
        i = i + 1;
    }
    assert(r@.map_values(|s: String| s@) =~= v@.map_values(|s: String| s@));
    r
}

/// The record stored for `mail`.
pub fn mail_record_of(mail: &Mail) -> (v: serde_json::Value)
    ensures
        v == mail_record(mail@),
{
    let mut m = json_map_new();
    assert(json_map_entries(m) =~= Map::<Seq<char>, serde_json::Value>::empty());
    let _ = json_map_insert(&mut m, String::from_str("sender"), json_string(mail.from.clone()));
    let _ = json_map_insert(
        &mut m,
        String::from_str("recipient"),
        json_string_array(copy_strings(&mail.to)),
    );
    let _ = json_map_insert(
        &mut m,
        String::from_str("subject"),
        json_string(extract_subject(mail.data.as_str())),
    );
    let _ = json_map_insert(
        &mut m,
        String::from_str("body"),
        json_string(extract_body(mail.data.as_str())),
    );
    json_object(m)
}

/// The store after `mail` is added to it: `existing` is the store's text, or `None` when
/// there is no store yet. The records already there stay, in order, and the mail's record
/// follows them; a store whose text is not a JSON array is refused.
pub fn store_with_mail(existing: Option<&str>, mail: &Mail) -> (r: Result<
    Vec<serde_json::Value>,
    StoreError,
>)
    ensures
        existing is None ==> (r matches Ok(v) && v@ == seq![mail_record(mail@)]),
        existing matches Some(t) ==> match parsed_store(t@) {
            Some(entries) => r matches Ok(v) && v@ == entries.push(mail_record(mail@)),
            None => r matches Err(e) && e == StoreError::NotAnArray,
        },
{
    let mut emails: Vec<serde_json::Value> = match existing {
        Some(text) => match parse_store(text) {
            Ok(v) => v,
            Err(_) => return Err(StoreError::NotAnArray),
        },
        None => Vec::new(),
    };
    emails.push(mail_record_of(mail));
    Ok(emails)
}

} // verus!
