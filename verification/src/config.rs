//! Where the key for the model service may be kept.
//!
//! The key is kept in the keychain of the operating system in development
//! builds only. Reading and writing the keychain is not this module's work;
//! it says when to do so and what the keychain's answers mean.

use vstd::prelude::*;

verus! {

/// The name under which the key is kept.
pub const KEYCHAIN_SERVICE: &'static str = "rubrix";

/// The account under which the key is kept.
pub const KEYCHAIN_ACCOUNT: &'static str = "aws_bedrock_token";

/// The rules for keeping the key.
#[derive(Debug, Clone, Copy)]
pub struct CredentialStore;

/// What the keychain answered to a request.
#[derive(Debug)]
pub enum KeychainAnswer {
    /// It did what was asked; for a request to load, this is the key.
    Done(String),
    /// It holds no entry for the key.
    NoEntry(String),
    /// It could not be opened.
    Unavailable(String),
    /// It failed otherwise.
    Failed(String),
}

/// What a [`KeychainAnswer`] holds, as plain mathematical values.
pub enum KeychainAnswerView {
    Done(Seq<char>),
    NoEntry(Seq<char>),
    Unavailable(Seq<char>),
    Failed(Seq<char>),
}

impl View for KeychainAnswer {
    type V = KeychainAnswerView;

    open spec fn view(&self) -> KeychainAnswerView {
        match self {
            KeychainAnswer::Done(text) => KeychainAnswerView::Done(text@),
            KeychainAnswer::NoEntry(text) => KeychainAnswerView::NoEntry(text@),
            KeychainAnswer::Unavailable(text) => KeychainAnswerView::Unavailable(text@),
            KeychainAnswer::Failed(text) => KeychainAnswerView::Failed(text@),
        }
    }
}

/// What saving the key comes to, given the keychain's answer.
pub open spec fn saved(answer: KeychainAnswerView) -> Result<(), Seq<char>> {
    match answer {
        KeychainAnswerView::Done(_) => Ok(()),
        KeychainAnswerView::Unavailable(cause) => Err("Keychain error: "@ + cause),
        KeychainAnswerView::NoEntry(cause) => Err("Failed to save token to keychain: "@ + cause),
        KeychainAnswerView::Failed(cause) => Err("Failed to save token to keychain: "@ + cause),
    }
}

/// What loading the key comes to, given the keychain's answer.
pub open spec fn loaded_token(answer: KeychainAnswerView) -> Option<Seq<char>> {
    match answer {
        KeychainAnswerView::Done(token) => Some(token),
        _ => None,
    }
}

/// What clearing the key comes to, given the keychain's answer: nothing to
/// clear is no error.
pub open spec fn cleared(answer: KeychainAnswerView) -> Result<(), Seq<char>> {
    match answer {
        KeychainAnswerView::Done(_) => Ok(()),
        KeychainAnswerView::NoEntry(_) => Ok(()),
        KeychainAnswerView::Unavailable(cause) => Err("Keychain error: "@ + cause),
        KeychainAnswerView::Failed(cause) => Err("Failed to clear token: "@ + cause),
    }
}

/// A sentence made of a start and a cause.
fn sentence(start: &str, cause: &str) -> (r: String)
    ensures
        r@ == start@ + cause@,
{
    let mut out = start.to_owned();
    out.append(cause);
    out
}

impl CredentialStore {
    /// May the key be kept in the keychain: is this a development build?
    pub fn persistence_allowed(dev_mode: bool) -> (r: Result<(), String>)
        ensures
            dev_mode ==> r is Ok,
            !dev_mode ==> (r matches Err(message) && message@
                == "Token persistence disabled in release mode"@),
    {
        if dev_mode {
            Ok(())
        } else {
            Err("Token persistence disabled in release mode".to_owned())
        }
    }

    /// Says what saving the key came to.
    pub fn save_token(answer: &KeychainAnswer) -> (r: Result<(), String>)
        ensures
            match r {
                Ok(_) => saved(answer@) is Ok,
                Err(message) => saved(answer@) == Err::<(), Seq<char>>(message@),
            },
    {
        match answer {
            KeychainAnswer::Done(_) => Ok(()),
            KeychainAnswer::Unavailable(cause) => Err(sentence("Keychain error: ", cause.as_str())),
            KeychainAnswer::NoEntry(cause) => Err(
                sentence("Failed to save token to keychain: ", cause.as_str()),
            ),
            KeychainAnswer::Failed(cause) => Err(
                sentence("Failed to save token to keychain: ", cause.as_str()),
            ),
        }
    }

    /// Says what loading the key came to: the key, or none.
    pub fn load_token(answer: &KeychainAnswer) -> (r: Option<String>)
        ensures
            r.deep_view() == loaded_token(answer@),
    {
        match answer {
            KeychainAnswer::Done(token) => Some(token.clone()),
            _ => None,
        }
    }

    /// Says what clearing the key came to.
    pub fn clear_token(answer: &KeychainAnswer) -> (r: Result<(), String>)
        ensures
            match r {
                Ok(_) => cleared(answer@) is Ok,
                Err(message) => cleared(answer@) == Err::<(), Seq<char>>(message@),
            },
    {
        match answer {
            KeychainAnswer::Done(_) => Ok(()),
            KeychainAnswer::NoEntry(_) => Ok(()),
            KeychainAnswer::Unavailable(cause) => Err(sentence("Keychain error: ", cause.as_str())),
            KeychainAnswer::Failed(cause) => Err(sentence("Failed to clear token: ", cause.as_str())),
        }
    }
}

} // verus!
