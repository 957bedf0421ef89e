//! What an upload of destinations carries, and how its content type
//! decides the way its body is read.
use vstd::prelude::*;

verus! {

/// A country as an upload names it.
#[derive(Debug)]
pub struct Country {
    pub name: String,
    pub iso_code: String,
}

/// The formats in which the body of an upload is accepted.
#[derive(Debug, PartialEq, Eq, Structural)]
pub enum BodyFormat {
    /// `text/csv`: the body is the CSV file itself.
    Csv,
    /// `application/json`: the body is a JSON object with the file and
    /// fixes.
    Json,
}

/// A refused request: the HTTP status of the answer and its message.
#[derive(Debug)]
pub struct Rejection {
    pub status: u16,
    pub message: String,
}

/// Whether two texts are equal.
fn same_text(a: &str, b: &str) -> (r: bool)
    ensures
        r == (a@ == b@),
{
    String::from_str(a) == String::from_str(b)
}

/// Decides how to read an upload from its `Content-Type` header: absent,
/// not readable as text (with the reason), or the text of it.  Only
/// `text/csv` and `application/json` are accepted; anything else is refused
/// with 415, a missing or unreadable header with 400.
pub fn body_format(content_type: Option<Result<&str, String>>) -> (r: Result<BodyFormat, Rejection>)
    ensures
        match content_type {
            Some(Ok(t)) => if t@ == "text/csv"@ {
                r == Ok::<BodyFormat, Rejection>(BodyFormat::Csv)
            } else if t@ == "application/json"@ {
                r == Ok::<BodyFormat, Rejection>(BodyFormat::Json)
            } else {
                r matches Err(rej) && rej.status == 415 && rej.message@
                    == "Only accepting text/csv or application/json content types, found: "@
                    + t@
            },
            Some(Err(e)) => r matches Err(rej) && rej.status == 400 && rej.message@
                == "Error decoding content-type: "@ + e@,
            None => r matches Err(rej) && rej.status == 400 && rej.message@
                == "No content-type provided, accepting only text/csv or application/json"@,
        },
{
    match content_type {
        Some(Ok(t)) => {
            if same_text(t, "text/csv") {
                Ok(BodyFormat::Csv)
            } else if same_text(t, "application/json") {
                Ok(BodyFormat::Json)
            } else {
                let mut message = String::from_str(
                    "Only accepting text/csv or application/json content types, found: ",
                );
                message.append(t);
                Err(Rejection { status: 415, message })
            }
        },
        Some(Err(e)) => {
            let mut message = String::from_str("Error decoding content-type: ");
            message.append(e.as_str());
            Err(Rejection { status: 400, message })
        },
        None => Err(
            Rejection {
                status: 400,
                message: String::from_str(
                    "No content-type provided, accepting only text/csv or application/json",
                ),
            },
        ),
    }
}

} // verus!
