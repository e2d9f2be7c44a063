//! The credential of a forge, and the text under which it is stored.

use vstd::prelude::*;
use vstd::string::StringExecFns;
use crate::json::{json_quoted, json_text_at, quote_json, text_at};
use crate::text::opt_text;

verus! {

/// An access token with what is needed to renew it.
#[derive(Debug)]
pub struct Credential {
    pub access_token: String,
    pub refresh_token: Option<String>,
    pub expires_at: Option<String>,
}

/// What a credential holds.
pub struct CredentialView {
    pub access_token: Seq<char>,
    pub refresh_token: Option<Seq<char>>,
    pub expires_at: Option<Seq<char>>,
}

impl View for Credential {
    type V = CredentialView;

    open spec fn view(&self) -> CredentialView {
        CredentialView {
            access_token: self.access_token@,
            refresh_token: opt_text(self.refresh_token),
            expires_at: opt_text(self.expires_at),
        }
    }
}

/// A member of the stored text that is left out where it has no value.
pub open spec fn optional_member(name: Seq<char>, value: Option<Seq<char>>) -> Option<Seq<char>> {
    match value {
        Some(v) => match json_quoted(v) {
            Some(q) => Some(",\""@ + name + "\":"@ + q),
            None => None,
        },
        None => Some(Seq::empty()),
    }
}

/// The text under which a credential is stored: a JSON object with the
/// access token and, where they have a value, the refresh token and the
/// expiry. `None` where a string could not be written as JSON.
pub open spec fn credential_json(c: CredentialView) -> Option<Seq<char>> {
    if json_quoted(c.access_token) is Some && optional_member(
        "refresh_token"@,
        c.refresh_token,
    ) is Some && optional_member("expires_at"@, c.expires_at) is Some {
        Some(
            "{\"access_token\":"@ + json_quoted(c.access_token)->0 + optional_member(
                "refresh_token"@,
                c.refresh_token,
            )->0 + optional_member("expires_at"@, c.expires_at)->0 + "}"@,
        )
    } else {
        None
    }
}

/// Why a stored text is no credential.
#[derive(Debug)]
pub enum CredentialError {
    /// The text is no JSON; the message says what was met.
    Malformed(String),
    /// The text has no access token.
    MissingToken,
}

/// What a credential error holds.
pub enum CredentialErrorView {
    Malformed(Seq<char>),
    MissingToken,
}

impl View for CredentialError {
    type V = CredentialErrorView;

    open spec fn view(&self) -> CredentialErrorView {
        match self {
            CredentialError::Malformed(m) => CredentialErrorView::Malformed(m@),
            CredentialError::MissingToken => CredentialErrorView::MissingToken,
        }
    }
}

/// What a stored text reads as: the credential whose access token is the
/// string member of that name; the other two members where they are strings.
pub open spec fn credential_of(doc: Seq<char>) -> Result<CredentialView, CredentialErrorView> {
    match text_at(doc, "access_token"@) {
        Err(e) => Err(CredentialErrorView::Malformed(e)),
        Ok(None) => Err(CredentialErrorView::MissingToken),
        Ok(Some(token)) => match text_at(doc, "refresh_token"@) {
            Err(e) => Err(CredentialErrorView::Malformed(e)),
            Ok(refresh_token) => match text_at(doc, "expires_at"@) {
                Err(e) => Err(CredentialErrorView::Malformed(e)),
                Ok(expires_at) => Ok(
                    CredentialView { access_token: token, refresh_token, expires_at },
                ),
            },
        },
    }
}

/// The view of what `Credential::from_json` returns.
pub open spec fn credential_result(r: Result<Credential, CredentialError>) -> Result<
    CredentialView,
    CredentialErrorView,
> {
    match r {
        Ok(c) => Ok(c@),
        Err(e) => Err(e@),
    }
}

/// Appends a member that is left out where it has no value.
fn push_optional(out: &mut String, name: &str, value: &Option<String>) -> (ok: bool)
    ensures
        ok == (optional_member(name@, opt_text(*value)) is Some),
        ok ==> final(out)@ == old(out)@ + optional_member(name@, opt_text(*value))->0,
{
    match value {
        Some(v) => match quote_json(v.as_str()) {
            Some(q) => {
                out.append(",\"");
                out.append(name);
                out.append("\":");
                out.append(q.as_str());
                proof {
                    assert(out@ =~= old(out)@ + (",\""@ + name@ + "\":"@ + q@));
                }
                true
            },
            None => false,
        },
        None => {
            proof {
                assert(out@ =~= old(out)@ + Seq::<char>::empty());
            }
            true
        },
    }
}

impl Credential {
    /// The text under which the credential is stored.
    pub fn to_json(&self) -> (json: Option<String>)
        ensures
            opt_text(json) == credential_json(self@),
    {
        let token = match quote_json(self.access_token.as_str()) {
            Some(q) => q,
            None => {
                return None;
            },
        };
        let mut out = String::from_str("{\"access_token\":");
        out.append(token.as_str());
        if !push_optional(&mut out, "refresh_token", &self.refresh_token) {
            return None;
        }
        if !push_optional(&mut out, "expires_at", &self.expires_at) {
            return None;
        }
        out.append("}");
        Some(out)
    }

    /// The credential that a stored text holds.
    pub fn from_json(doc: &str) -> (r: Result<Credential, CredentialError>)
        ensures
            credential_result(r) == credential_of(doc@),
    {
        let access_token = match json_text_at(doc, "access_token") {
            Err(e) => {
                return Err(CredentialError::Malformed(e));
            },
            Ok(None) => {
                return Err(CredentialError::MissingToken);
            },
            Ok(Some(t)) => t,
        };
        let refresh_token = match json_text_at(doc, "refresh_token") {
            Err(e) => {
                return Err(CredentialError::Malformed(e));
            },
            Ok(x) => x,
        };
        let expires_at = match json_text_at(doc, "expires_at") {
            Err(e) => {
                return Err(CredentialError::Malformed(e));
            },
            Ok(x) => x,
        };
        Ok(Credential { access_token, refresh_token, expires_at })
    }
}

} // verus!
