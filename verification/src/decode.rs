//! Decoding the input document: the text is parsed by serde_json into a
//! generic JSON value, and verified code then checks that the value is
//! an array of well-formed records and extracts them.

use vstd::prelude::*;

use crate::problem::Problem;
use crate::problem::ProblemView;

verus! {

#[verifier::external_type_specification]
#[verifier::external_body]
pub struct ExValue(serde_json::Value);

/// What serde_json's parser returns for the given text: the document's
/// value, or nothing when the text is not well-formed JSON.
pub uninterp spec fn json_doc(s: Seq<char>) -> Option<serde_json::Value>;

/// The parse error's message when parsing the given text fails.
pub uninterp spec fn json_err_text(s: Seq<char>) -> Seq<char>;

/// Relies on serde_json::from_str::<Value>: parses the text into a
/// generic JSON value, a function of the text alone; on failure the
/// error's message (serde_json::Error's Display) is handed back.
#[verifier::external_body]
pub(crate) fn parse_document(s: &str) -> (r: Result<serde_json::Value, String>)
    ensures
        match r {
            Ok(v) => json_doc(s@) == Some(v),
            Err(m) => json_doc(s@) is None && m@ == json_err_text(s@),
        },
{
    match serde_json::from_str(s) {
        Ok(v) => Ok(v),
        Err(e) => Err(e.to_string()),
    }
}

/// The elements of a JSON value that is an array, nothing otherwise.
pub uninterp spec fn json_elems(v: serde_json::Value) -> Option<Seq<serde_json::Value>>;

/// Relies on serde_json::Value::as_array: the elements when the value
/// is an array, None otherwise.
#[verifier::external_body]
pub(crate) fn value_elems<'a>(v: &'a serde_json::Value) -> (r: Option<&'a Vec<serde_json::Value>>)
    ensures
        match r {
            Some(a) => json_elems(*v) == Some(a@),
            None => json_elems(*v) is None,
        },
{
    v.as_array()
}

/// The field under the given key of a JSON value that is an object,
/// nothing when the key is absent or the value is no object.
pub uninterp spec fn json_field(v: serde_json::Value, key: Seq<char>) -> Option<serde_json::Value>;

/// Relies on serde_json::Value::get with a string index: the field
/// under the key when the value is an object that has it, None
/// otherwise.
#[verifier::external_body]
pub(crate) fn value_field<'a>(v: &'a serde_json::Value, key: &str) -> (r: Option<
    &'a serde_json::Value,
>)
    ensures
        match r {
            Some(f) => json_field(*v, key@) == Some(*f),
            None => json_field(*v, key@) is None,
        },
{
    v.get(key)
}

/// The text of a JSON value that is a string, nothing otherwise.
pub uninterp spec fn json_str(v: serde_json::Value) -> Option<Seq<char>>;

/// Relies on serde_json::Value::as_str: the text when the value is a
/// string, None otherwise.
#[verifier::external_body]
pub(crate) fn value_str<'a>(v: &'a serde_json::Value) -> (r: Option<&'a str>)
    ensures
        match r {
            Some(s) => json_str(*v) == Some(s@),
            None => json_str(*v) is None,
        },
{
    v.as_str()
}

/// The value of a JSON number that is an unsigned 64-bit integer,
/// nothing for other numbers or other values.
pub uninterp spec fn json_u64(v: serde_json::Value) -> Option<u64>;

/// Relies on serde_json::Value::as_u64: the integer when the value is
/// a number representable as u64, None otherwise.
#[verifier::external_body]
pub(crate) fn value_u64(v: &serde_json::Value) -> (r: Option<u64>)
    ensures
        match r {
            Some(n) => json_u64(*v) == Some(n),
            None => json_u64(*v) is None,
        },
{
    v.as_u64()
}

/// The record held by one array element: present exactly when the
/// element is an object whose `resource` and `message` fields are
/// strings and whose `startLineNumber` field is an integer that fits
/// in 32 bits. Further fields are tolerated and ignored.
pub open spec fn record_of(v: serde_json::Value) -> Option<ProblemView> {
    match json_field(v, "resource"@) {
        Some(rv) => match json_str(rv) {
            Some(resource) => match json_field(v, "startLineNumber"@) {
                Some(lv) => match json_u64(lv) {
                    Some(n) => if n <= u32::MAX as u64 {
                        match json_field(v, "message"@) {
                            Some(mv) => match json_str(mv) {
                                Some(message) => Some(
                                    ProblemView {
                                        resource,
                                        start_line_number: n as u32,
                                        message,
                                    },
                                ),
                                None => None,
                            },
                            None => None,
                        }
                    } else {
                        None
                    },
                    None => None,
                },
                None => None,
            },
            None => None,
        },
        None => None,
    }
}

/// The records of the whole array: all of them, or nothing as soon as
/// one element is not a well-formed record.
pub open spec fn records_of(es: Seq<serde_json::Value>) -> Option<Seq<ProblemView>> {
    if forall|k: int| 0 <= k < es.len() ==> record_of(es[k]) is Some {
        Some(Seq::new(es.len(), |k: int| record_of(es[k]).unwrap()))
    } else {
        None
    }
}

/// Checks every element of the parsed array and extracts the records,
/// failing as a whole when any element is not a well-formed record.
pub fn extract_problems(elems: &Vec<serde_json::Value>) -> (r: Option<Vec<Problem>>)
    ensures
        match r {
            Some(ps) => records_of(elems@) == Some(ps.deep_view()),
            None => records_of(elems@) is None,
        },
{
    let mut out: Vec<Problem> = Vec::new();
    let mut i: usize = 0;
    while i < elems.len()
        invariant
            i <= elems@.len(),
            out.deep_view().len() == i,
            forall|k: int| 0 <= k < i ==> record_of(elems@[k]) is Some,
            forall|k: int|
                0 <= k < i ==> #[trigger] out.deep_view()[k] == record_of(elems@[k]).unwrap(),
        decreases elems@.len() - i,
    {
        let e = &elems[i];
        let rv = match value_field(e, "resource") {
            Some(x) => x,
            None => {
                return None;
            },
        };
        let resource = match value_str(rv) {
            Some(x) => x,
            None => {
                return None;
            },
        };
        let lv = match value_field(e, "startLineNumber") {
            Some(x) => x,
            None => {
                return None;
            },
        };
        let n = match value_u64(lv) {
            Some(x) => x,
            None => {
                return None;
            },
        };
        if n > u32::MAX as u64 {
            return None;
        }
        let mv = match value_field(e, "message") {
            Some(x) => x,
            None => {
                return None;
            },
        };
        let message = match value_str(mv) {
            Some(x) => x,
            None => {
                return None;
            },
        };
        let ghost dv0 = out.deep_view();
        out.push(
            Problem {
                resource: resource.to_owned(),
                start_line_number: n as u32,
                message: message.to_owned(),
            },
        );
        proof {
            let pv = ProblemView {
                resource: resource@,
                start_line_number: n as u32,
                message: message@,
            };
            assert(record_of(elems@[i as int]) == Some(pv));
            assert(out.deep_view() =~= dv0.push(pv));
        }
        i += 1;
    }
    proof {
        assert(out.deep_view() =~= Seq::new(elems@.len(), |k: int| record_of(elems@[k]).unwrap()));
    }
    Some(out)
}

} // verus!
