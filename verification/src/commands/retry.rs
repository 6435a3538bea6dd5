//! Reading GitLab's answer to a job retry.
use vstd::prelude::*;
use crate::error::GlpError;
use crate::json::{
    json_get, json_text, json_u64, keys_distinct, lemma_member_of_distinct_keys, JsonNumber,
    JsonValue,
};
use crate::text::{decimal, u64_to_decimal};

verus! {

/// The id of the new job in a retry answer: its member `id`, when that is a
/// non-negative integer.
pub open spec fn retried_id(response: JsonValue) -> Option<u64> {
    match json_get(response, "id"@) {
        Some(v) => json_u64(v),
        None => None,
    }
}

/// The name of the job in a retry answer: its member `name` when that is a
/// string, else `unknown`.
pub open spec fn retried_name(response: JsonValue) -> Seq<char> {
    match json_get(response, "name"@) {
        Some(v) => match json_text(v) {
            Some(s) => s,
            None => "unknown"@,
        },
        None => "unknown"@,
    }
}

/// Law: for an answer object whose keys are distinct, the new id is the
/// number of its `id` member when that is a non-negative integer, there is
/// none when it has no `id`, and the name is the text of its `name` member,
/// `unknown` when it has no `name`.
pub proof fn lemma_retry_answer_members(entries: Vec<(String, JsonValue)>)
    requires
        keys_distinct(entries@),
    ensures
        forall|i: int|
            0 <= i < entries@.len() && #[trigger] entries@[i].0@ == "id"@ ==> (entries@[i].1
                matches JsonValue::Number(JsonNumber::PosInt(n)) ==> retried_id(
                JsonValue::Object(entries),
            ) == Some(n)),
        (forall|i: int| 0 <= i < entries@.len() ==> #[trigger] entries@[i].0@ != "id"@)
            ==> retried_id(JsonValue::Object(entries)).is_none(),
        forall|i: int|
            0 <= i < entries@.len() && #[trigger] entries@[i].0@ == "name"@ ==> (entries@[i].1
                matches JsonValue::Str(t) ==> retried_name(JsonValue::Object(entries)) == t@),
        (forall|i: int| 0 <= i < entries@.len() ==> #[trigger] entries@[i].0@ != "name"@)
            ==> retried_name(JsonValue::Object(entries)) == "unknown"@,
{
    lemma_member_of_distinct_keys(entries@, "id"@);
    lemma_member_of_distinct_keys(entries@, "name"@);
}

/// The new job's id and name from a retry answer; an API error when it has
/// no usable id.
pub fn parse_retry_response(response: &JsonValue) -> (r: Result<(u64, String), GlpError>)
    ensures
        match retried_id(*response) {
            Some(id) => r matches Ok((new_id, name)) && new_id == id && name@ == retried_name(
                *response,
            ),
            None => r matches Err(GlpError::Api(m)) && m@ == "Invalid retry response"@,
        },
{
    let new_id = match response.get("id") {
        Some(v) => match v.as_u64() {
            Some(n) => n,
            None => return Err(GlpError::Api(String::from_str("Invalid retry response"))),
        },
        None => return Err(GlpError::Api(String::from_str("Invalid retry response"))),
    };
    let name = match response.get("name") {
        Some(v) => match v.as_str() {
            Some(s) => s,
            None => "unknown",
        },
        None => "unknown",
    };
    Ok((new_id, name.to_owned()))
}

/// The line printed after a retry: `Retried job <id> (<name>) - new job ID: <new id>`.
pub fn retry_message(job_id: u64, name: &str, new_id: u64) -> (r: String)
    ensures
        r@ == "Retried job "@ + decimal(job_id as nat) + " ("@ + name@ + ") - new job ID: "@
            + decimal(new_id as nat),
{
    let mut r = String::from_str("Retried job ");
    r.append(u64_to_decimal(job_id).as_str());
    r.append(" (");
    r.append(name);
    r.append(") - new job ID: ");
    r.append(u64_to_decimal(new_id).as_str());
    r
}

} // verus!
