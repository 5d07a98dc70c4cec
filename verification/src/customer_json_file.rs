//! The reference ingestion format: a text resource where each line is one
//! self-contained customer record, encoded as a JSON object with the fields
//! `user_id` (integer), `name` (string), `latitude` and `longitude`
//! (numbers).
//!
//! Opening and reading the resource is the caller's I/O; this module owns
//! the per-line decoding.  Whether a line decodes, and to which fields, is
//! a function of the line's characters alone; the decode itself is one
//! trusted call into serde_json, and everything built on it is verified
//! against the named decode of each line.  Decoding a line yields the id,
//! the name, and the coordinate number literals still as text — turning a
//! decimal literal into a binary64 value is floating-point work left to
//! the caller.  Any line that does not decode aborts the whole fetch with
//! a content-parse error (`Json`), never with a resource-access error
//! (`Io`); the `Io` kind is reserved for the caller's failures to open or
//! read the resource.

use vstd::prelude::*;

verus! {

#[verifier::external_type_specification]
#[verifier::external_body]
pub struct ExJsonError(serde_json::Error);

#[verifier::external_type_specification]
#[verifier::external_body]
pub struct ExIoError(std::io::Error);

/// Whether the line decodes as one customer record: a JSON object holding
/// an integer `user_id`, a string `name`, and `latitude` / `longitude`
/// numbers — as serde_json decides it, a function of the line alone.
pub uninterp spec fn customer_line_decodes(line: Seq<char>) -> bool;

/// The id a decoding line holds.
pub uninterp spec fn decoded_user_id(line: Seq<char>) -> i64;

/// The name a decoding line holds.
pub uninterp spec fn decoded_name(line: Seq<char>) -> Seq<char>;

/// The latitude number literal a decoding line holds.
pub uninterp spec fn decoded_latitude_text(line: Seq<char>) -> Seq<char>;

/// The longitude number literal a decoding line holds.
pub uninterp spec fn decoded_longitude_text(line: Seq<char>) -> Seq<char>;

/// The record holds exactly the four fields the line decodes to.
pub open spec fn is_decoded_record(line: Seq<char>, record: CustomerFields) -> bool {
    &&& record.user_id == decoded_user_id(line)
    &&& record.name@ == decoded_name(line)
    &&& record.latitude@ == decoded_latitude_text(line)
    &&& record.longitude@ == decoded_longitude_text(line)
}

/// Relies on serde::de::Error::custom: a content-parse error carrying the
/// given message.
#[verifier::external_body]
fn json_error_custom(message: &str) -> (r: serde_json::Error) {
    serde::de::Error::custom(message)
}

/// Relies on serde_json to decode one line.  The body expands, by hand,
/// what a derived deserialization of the record's four fields would do (a
/// derive of an outside crate cannot stand in verified code): parse the
/// line as a JSON object, then read `user_id` as an integer, `name` as a
/// string, and `latitude` / `longitude` as numbers whose literal text is
/// kept, failing with a content-parse error when the line is not an object
/// or a field is missing or mistyped.  Whether and to what a line decodes
/// depends on its characters alone.
#[verifier::external_body]
fn decode_customer_line(line: &str) -> (r: Result<CustomerFields, serde_json::Error>)
    ensures
        r is Ok <==> customer_line_decodes(line@),
        r matches Ok(record) ==> record.user_id == decoded_user_id(line@) && record.name@
            == decoded_name(line@) && record.latitude@ == decoded_latitude_text(line@)
            && record.longitude@ == decoded_longitude_text(line@),
{
    let fields: serde_json::Map<String, serde_json::Value> = serde_json::from_str(line)?;
    let user_id = fields.get("user_id").and_then(serde_json::Value::as_i64).ok_or(json_error_custom("missing or mistyped field user_id"))?;
    let name = fields.get("name").and_then(serde_json::Value::as_str).ok_or(json_error_custom("missing or mistyped field name"))?.to_owned();
    let latitude = fields.get("latitude").and_then(serde_json::Value::as_number).ok_or(json_error_custom("missing or mistyped field latitude"))?.to_string();
    let longitude = fields.get("longitude").and_then(serde_json::Value::as_number).ok_or(json_error_custom("missing or mistyped field longitude"))?.to_string();
    Ok(CustomerFields { user_id, name, latitude, longitude })
}

/// Relies on std::io::Error's rendering: the error's message.
#[verifier::external_body]
fn io_error_text(err: &std::io::Error) -> (r: String) {
    format!("{}", err)
}

/// Relies on serde_json::Error's rendering: the error's message.
#[verifier::external_body]
fn json_error_text(err: &serde_json::Error) -> (r: String) {
    format!("{}", err)
}

/// A JSON file with one customer record per line.  Holds the path of the
/// underlying resource; reading the resource is the caller's I/O.
pub struct CustomerJsonFile {
    file_path: String,
}

impl CustomerJsonFile {
    /// Remembers the path of the customers file.
    pub fn new(file_path: &str) -> (r: CustomerJsonFile)
        ensures
            r.path_text() == file_path@,
    {
        CustomerJsonFile { file_path: file_path.to_owned() }
    }

    /// The path this file was built with.
    pub closed spec fn path_text(&self) -> Seq<char> {
        self.file_path@
    }

    /// The path of the underlying resource.
    pub fn file_path(&self) -> (r: &str)
        ensures
            r@ == self.path_text(),
    {
        self.file_path.as_str()
    }
}

/// One customer record as decoded from a line: the coordinate number
/// literals are still text, to be converted by the caller.
#[derive(Debug)]
pub struct CustomerFields {
    pub user_id: i64,
    pub name: String,
    pub latitude: String,
    pub longitude: String,
}

/// What can go wrong when building customer records from a JSON file: the
/// underlying resource could not be read (`Io`), or a line of its content
/// could not be decoded (`Json`).
#[derive(Debug)]
pub enum CustomerJsonFileError {
    Io(std::io::Error),
    Json(serde_json::Error),
}

impl CustomerJsonFileError {
    /// The full human-readable rendering of the error: the category,
    /// followed by the underlying error's message.
    pub fn message(&self) -> (r: String)
        ensures
            self is Io ==> exists|rest: Seq<char>| r@ == "Customer Json file IO error: "@ + rest,
            self is Json ==> exists|rest: Seq<char>|
                r@ == "Customer Json file parsing error: "@ + rest,
    {
        match self {
            CustomerJsonFileError::Io(err) => {
                let mut r = String::new();
                r.append("Customer Json file IO error: ");
                let text = io_error_text(err);
                r.append(text.as_str());
                proof {
                    assert(r@ =~= "Customer Json file IO error: "@ + text@);
                }
                r
            },
            CustomerJsonFileError::Json(err) => {
                let mut r = String::new();
                r.append("Customer Json file parsing error: ");
                let text = json_error_text(err);
                r.append(text.as_str());
                proof {
                    assert(r@ =~= "Customer Json file parsing error: "@ + text@);
                }
                r
            },
        }
    }
}

/// Decodes one line: a JSON object with an integer `user_id`, a string
/// `name`, and `latitude` / `longitude` numbers, handed back with the
/// coordinate number literals still as text.  Success, and every field of
/// the record, is exactly the decode of the line.
pub fn parse_customer_line(line: &str) -> (r: Result<CustomerFields, serde_json::Error>)
    ensures
        r is Ok <==> customer_line_decodes(line@),
        r matches Ok(record) ==> is_decoded_record(line@, record),
{
    decode_customer_line(line)
}

/// Decodes the lines of a customers file, one record per line: `Ok`
/// exactly when every line decodes, and then record `i` holds the decoded
/// fields of line `i`, in file order.  Any line that fails to decode
/// aborts the whole fetch with a content-parse error (`Json`) — never with
/// a resource-access error: the `Io` kind belongs to the caller that reads
/// the resource.
pub fn parse_customer_lines(lines: &Vec<String>) -> (r: Result<
    Vec<CustomerFields>,
    CustomerJsonFileError,
>)
    ensures
        match r {
            Ok(records) => {
                &&& records@.len() == lines@.len()
                &&& forall|i: int|
                    0 <= i < lines@.len() ==> #[trigger] customer_line_decodes(lines@[i]@)
                &&& forall|i: int|
                    0 <= i < lines@.len() ==> #[trigger] is_decoded_record(
                        lines@[i]@,
                        records@[i],
                    )
            },
            Err(e) => {
                &&& e is Json
                &&& exists|i: int|
                    0 <= i < lines@.len() && #[trigger] customer_line_decodes(lines@[i]@)
                        == false
            },
        },
{
    let mut records: Vec<CustomerFields> = Vec::new();
    let n = lines.len();
    let mut i: usize = 0;
    while i < n
        invariant
            0 <= i <= n,
            n == lines@.len(),
            records@.len() == i,
            forall|q: int| 0 <= q < i ==> #[trigger] customer_line_decodes(lines@[q]@),
            forall|q: int| 0 <= q < i ==> #[trigger] is_decoded_record(lines@[q]@, records@[q]),
        decreases n - i,
    {
        match parse_customer_line(lines[i].as_str()) {
            Ok(record) => {
                records.push(record);
            },
            Err(err) => {
                proof {
                    assert(customer_line_decodes(lines@[i as int]@) == false);
                }
                return Err(CustomerJsonFileError::Json(err));
            },
        }
        i = i + 1;
    }
    Ok(records)
}

} // verus!
