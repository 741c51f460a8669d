//! Getting the key for the model service from the secret-issuing endpoint.
//!
//! The password never leaves the machine: its SHA-256 digest does. This
//! module makes the request and says what the endpoint's answer means;
//! sending the request is not its work.

use vstd::prelude::*;
use sha2::Digest;
use crate::json::{decode_json, get_text, json_decoding, text_at, Json};

verus! {

/// The SHA-256 digest of a text's UTF-8 form, in lower-case hexadecimal.
pub uninterp spec fn sha256_hex(text: Seq<char>) -> Seq<char>;

/// Feeds the text's bytes to `sha2::Sha256` (`Digest::new`, `update`,
/// `finalize`) and writes the digest in lower-case hexadecimal. The contract
/// names the result.
#[verifier::external_body]
fn sha256_digest(text: &str) -> (r: String)
    ensures
        r@ == sha256_hex(text@),
{
    let mut hasher = sha2::Sha256::new();
    hasher.update(text.as_bytes());
    format!("{:x}", hasher.finalize())
}

/// What is sent to the endpoint.
#[derive(Debug)]
pub struct SecretRequest {
    pub user: String,
    pub password_hash: String,
}

/// What is said of an answer that does not have the expected shape.
pub const UNEXPECTED_ANSWER: &'static str = "the answer does not have the expected shape";

/// Makes the request for a user's key: the user's name, and the digest of
/// the password.
pub fn secret_request(user: &str, password: &str) -> (r: SecretRequest)
    ensures
        r.user@ == user@,
        r.password_hash@ == sha256_hex(password@),
{
    SecretRequest { user: user.to_owned(), password_hash: sha256_digest(password) }
}

/// The string under a name in an answer, or why there is none: the JSON
/// reader's message, or that the shape is not the expected one.
pub open spec fn answer_field(body: Seq<char>, key: Seq<char>) -> Result<Seq<char>, Seq<char>> {
    match json_decoding(body) {
        Err(message) => Err(message),
        Ok(Json::Object(members)) => match text_at(members@, key) {
            Some(text) => Ok(text),
            None => Err(UNEXPECTED_ANSWER@),
        },
        Ok(_) => Err(UNEXPECTED_ANSWER@),
    }
}

/// What the endpoint's answer means: with status 200 the `secret` that it
/// holds; with 401 that the password is wrong; with 404 that the user is
/// unknown; with any other status the `error` that it holds.
pub open spec fn secret_of_answer(status: u16, body: Seq<char>) -> Result<Seq<char>, Seq<char>> {
    if status == 200 {
        match answer_field(body, "secret"@) {
            Ok(secret) => Ok(secret),
            Err(message) => Err("Failed to parse response: "@ + message),
        }
    } else if status == 401 {
        Err("Invalid password"@)
    } else if status == 404 {
        Err("User not found"@)
    } else {
        match answer_field(body, "error"@) {
            Ok(error) => Err(error),
            Err(message) => Err("Failed to parse error response: "@ + message),
        }
    }
}

/// Reads the string under a name in an answer.
fn read_answer_field(body: &str, key: &str) -> (r: Result<String, String>)
    ensures
        match r {
            Ok(text) => answer_field(body@, key@) == Ok::<Seq<char>, Seq<char>>(text@),
            Err(message) => answer_field(body@, key@) == Err::<Seq<char>, Seq<char>>(message@),
        },
{
    let tree = match decode_json(body) {
        Ok(tree) => tree,
        Err(message) => {
            return Err(message);
        },
    };
    match &tree {
        Json::Object(members) => match get_text(members, key) {
            Some(text) => Ok(text),
            None => Err(UNEXPECTED_ANSWER.to_owned()),
        },
        _ => Err(UNEXPECTED_ANSWER.to_owned()),
    }
}

/// Says what the endpoint's answer means: the key, or why there is none.
pub fn get_bedrock_api_key(status: u16, body: &str) -> (r: Result<String, String>)
    ensures
        match r {
            Ok(secret) => secret_of_answer(status, body@) == Ok::<Seq<char>, Seq<char>>(secret@),
            Err(message) => secret_of_answer(status, body@) == Err::<Seq<char>, Seq<char>>(
                message@,
            ),
        },
{
    if status == 200 {
        match read_answer_field(body, "secret") {
            Ok(secret) => Ok(secret),
            Err(message) => {
                let mut out = "Failed to parse response: ".to_owned();
                out.append(message.as_str());
                Err(out)
            },
        }
    } else if status == 401 {
        Err("Invalid password".to_owned())
    } else if status == 404 {
        Err("User not found".to_owned())
    } else {
        match read_answer_field(body, "error") {
            Ok(error) => Err(error),
            Err(message) => {
                let mut out = "Failed to parse error response: ".to_owned();
                out.append(message.as_str());
                Err(out)
            },
        }
    }
}

} // verus!
