//! The texts of the authorization flow: the address that the browser is sent
//! to, and the proof key that goes with it.

use vstd::prelude::*;
use vstd::string::{StringExecFns, StringSliceAdditionalSpecFns};
use vstd::slice::*;
use crate::text::{
    chars_of, find_char, first_index, is_prefix, opt_text, same_text, slice_chars, split_chars,
    split_on, starts_with, string_of, texts,
};

verus! {

/// The port on which the answer of the browser is awaited.
pub const REDIRECT_PORT: u16 = 19284;

/// The token that an authorization flow hands out.
#[derive(Debug)]
pub struct TokenResponse {
    pub access_token: String,
    pub token_type: String,
    pub expires_in: Option<u64>,
    pub scope: Option<String>,
    pub refresh_token: Option<String>,
}

/// Whether a byte stands for itself in a URL: a letter, a digit, or one of
/// `-`, `_`, `.` and `~`.
pub open spec fn is_unreserved(b: u8) -> bool {
    ||| 0x41 <= b <= 0x5a
    ||| 0x61 <= b <= 0x7a
    ||| 0x30 <= b <= 0x39
    ||| b == 0x2d
    ||| b == 0x5f
    ||| b == 0x2e
    ||| b == 0x7e
}

/// The hexadecimal digit for a value under sixteen, in upper case.
pub open spec fn hex_char(n: u8) -> char {
    if n == 0 {
        '0'
    } else if n == 1 {
        '1'
    } else if n == 2 {
        '2'
    } else if n == 3 {
        '3'
    } else if n == 4 {
        '4'
    } else if n == 5 {
        '5'
    } else if n == 6 {
        '6'
    } else if n == 7 {
        '7'
    } else if n == 8 {
        '8'
    } else if n == 9 {
        '9'
    } else if n == 10 {
        'A'
    } else if n == 11 {
        'B'
    } else if n == 12 {
        'C'
    } else if n == 13 {
        'D'
    } else if n == 14 {
        'E'
    } else {
        'F'
    }
}

/// The bytes of a text as they stand in a URL: an unreserved byte as its
/// character, every other byte as `%` and its two hexadecimal digits.
pub open spec fn percent_encoded(bytes: Seq<u8>) -> Seq<char>
    decreases bytes.len(),
{
    if bytes.len() == 0 {
        Seq::empty()
    } else {
        let front = percent_encoded(bytes.drop_last());
        let b = bytes.last();
        if is_unreserved(b) {
            front.push(b as char)
        } else {
            front.push('%').push(hex_char(b / 16)).push(hex_char(b % 16))
        }
    }
}

/// The hexadecimal digit for `n`.
fn hex_digit(n: u8) -> (c: char)
    requires
        n < 16,
    ensures
        c == hex_char(n),
{
    if n == 0 {
        '0'
    } else if n == 1 {
        '1'
    } else if n == 2 {
        '2'
    } else if n == 3 {
        '3'
    } else if n == 4 {
        '4'
    } else if n == 5 {
        '5'
    } else if n == 6 {
        '6'
    } else if n == 7 {
        '7'
    } else if n == 8 {
        '8'
    } else if n == 9 {
        '9'
    } else if n == 10 {
        'A'
    } else if n == 11 {
        'B'
    } else if n == 12 {
        'C'
    } else if n == 13 {
        'D'
    } else if n == 14 {
        'E'
    } else {
        'F'
    }
}

/// The text as it stands in a URL.
pub fn encode(s: &str) -> (encoded: String)
    ensures
        encoded@ == percent_encoded(s.spec_bytes()),
{
    let bytes = s.as_bytes();
    let mut encoded = String::new();
    let mut i: usize = 0;
    proof {
        assert(bytes@.take(0) =~= Seq::empty());
    }
    while i < bytes.len()
        invariant
            i <= bytes.len(),
            bytes@ == s.spec_bytes(),
            encoded@ == percent_encoded(bytes@.take(i as int)),
        decreases bytes.len() - i,
    {
        let b = bytes[i];
        proof {
            assert(bytes@.take(i + 1).drop_last() =~= bytes@.take(i as int));
            assert(bytes@.take(i + 1).last() == b);
        }
        let plain = (0x41 <= b && b <= 0x5a) || (0x61 <= b && b <= 0x7a) || (0x30 <= b && b <= 0x39)
            || b == 0x2d || b == 0x5f || b == 0x2e || b == 0x7e;
        if plain {
            encoded.push(b as char);
        } else {
            encoded.push('%');
            encoded.push(hex_digit(b / 16));
            encoded.push(hex_digit(b % 16));
        }
        i += 1;
    }
    proof {
        assert(bytes@.take(i as int) =~= bytes@);
    }
    encoded
}

/// The address that the browser is sent to, for the proof key challenge
/// `code_challenge` and the state `state`.
pub open spec fn auth_url(code_challenge: Seq<char>, state: Seq<char>) -> Seq<char> {
    "https://linear.app/oauth/authorize?client_id=a6c010f01947bd3b847cb3c1707366e5&redirect_uri="@
        + percent_encoded("http://127.0.0.1:19284/callback".spec_bytes())
        + "&response_type=code&scope="@ + percent_encoded("read,write".spec_bytes())
        + "&code_challenge="@ + code_challenge + "&code_challenge_method=S256&state="@ + state
}

/// The address that the browser is sent to.
pub fn build_auth_url(code_challenge: &str, state: &str) -> (url: String)
    ensures
        url@ == auth_url(code_challenge@, state@),
{
    let mut url = String::from_str(
        "https://linear.app/oauth/authorize?client_id=a6c010f01947bd3b847cb3c1707366e5&redirect_uri=",
    );
    url.append(encode("http://127.0.0.1:19284/callback").as_str());
    url.append("&response_type=code&scope=");
    url.append(encode("read,write").as_str());
    url.append("&code_challenge=");
    url.append(code_challenge);
    url.append("&code_challenge_method=S256&state=");
    url.append(state);
    url
}

/// Names the SHA-256 hash of a sequence of bytes.
pub uninterp spec fn sha256(data: Seq<u8>) -> Seq<u8>;

/// Names the base64 text of a sequence of bytes, in the alphabet for URLs and
/// without padding.
pub uninterp spec fn base64_url(data: Seq<u8>) -> Seq<char>;

/// `Sha256::digest` of the crate `sha2`: the hash is a function of the bytes
/// alone and is 32 bytes long.
#[verifier::external_body]
pub(crate) fn sha256_of(data: &[u8]) -> (hash: Vec<u8>)
    ensures
        hash@ == sha256(data@),
        hash@.len() == 32,
{
    <sha2::Sha256 as sha2::Digest>::digest(data).to_vec()
}

/// `Engine::encode` of `URL_SAFE_NO_PAD` of the crate `base64`: the text is a
/// function of the bytes alone. It panics where the length of the text would
/// not fit `usize`, which half of `usize::MAX` bytes are far from.
#[verifier::external_body]
pub(crate) fn base64_url_of(data: &[u8]) -> (text: String)
    requires
        data@.len() <= usize::MAX / 2,
    ensures
        text@ == base64_url(data@),
{
    base64::Engine::encode(&base64::engine::general_purpose::URL_SAFE_NO_PAD, data)
}

/// `rand::random` for an array of 32 bytes: bytes drawn anew on every call.
/// Nothing is claimed of them but their number.
#[verifier::external_body]
pub(crate) fn random_32_bytes() -> (bytes: Vec<u8>)
    ensures
        bytes@.len() == 32,
{
    rand::random::<[u8; 32]>().to_vec()
}

/// The challenge that proves the possession of `verifier`: the hash of the
/// verifier, in base64.
pub fn generate_code_challenge(verifier: &str) -> (challenge: String)
    ensures
        challenge@ == base64_url(sha256(verifier.spec_bytes())),
{
    let hash = sha256_of(verifier.as_bytes());
    base64_url_of(hash.as_slice())
}

/// A fresh verifier: 32 random bytes in base64.
pub fn generate_code_verifier() -> (verifier: String)
    ensures
        exists|bytes: Seq<u8>| bytes.len() == 32 && verifier@ == #[trigger] base64_url(bytes),
{
    let bytes = random_32_bytes();
    base64_url_of(bytes.as_slice())
}

/// What to do after the token endpoint of the device flow has answered
/// with an error.
#[derive(Debug)]
pub enum PollStep {
    /// The user has not answered yet: ask again after the interval.
    KeepPolling,
    /// The endpoint is asked too often: wait five seconds more, then go on.
    SlowDown,
    /// The flow has failed with this message.
    Fail(String),
}

/// What a poll step holds.
pub enum PollStepView {
    KeepPolling,
    SlowDown,
    Fail(Seq<char>),
}

impl View for PollStep {
    type V = PollStepView;

    open spec fn view(&self) -> PollStepView {
        match self {
            PollStep::KeepPolling => PollStepView::KeepPolling,
            PollStep::SlowDown => PollStepView::SlowDown,
            PollStep::Fail(m) => PollStepView::Fail(m@),
        }
    }
}

/// The step that each error of the device flow leads to.
pub open spec fn poll_step_for(error: Seq<char>, description: Option<Seq<char>>) -> PollStepView {
    if error == "authorization_pending"@ {
        PollStepView::KeepPolling
    } else if error == "slow_down"@ {
        PollStepView::SlowDown
    } else if error == "expired_token"@ {
        PollStepView::Fail("Authorization timed out. Please try again."@)
    } else if error == "access_denied"@ {
        PollStepView::Fail("Authorization was denied."@)
    } else {
        PollStepView::Fail(
            "GitHub error: "@ + error + " - "@ + (match description {
                Some(d) => d,
                None => Seq::empty(),
            }),
        )
    }
}

/// What to do after the token endpoint has answered with the error `error`.
pub fn poll_step(error: &str, description: Option<&str>) -> (step: PollStep)
    ensures
        step@ == poll_step_for(error@, crate::text::opt_str(description)),
{
    if same_text(error, "authorization_pending") {
        PollStep::KeepPolling
    } else if same_text(error, "slow_down") {
        PollStep::SlowDown
    } else if same_text(error, "expired_token") {
        PollStep::Fail(String::from_str("Authorization timed out. Please try again."))
    } else if same_text(error, "access_denied") {
        PollStep::Fail(String::from_str("Authorization was denied."))
    } else {
        let mut text = String::from_str("GitHub error: ");
        text.append(error);
        text.append(" - ");
        match description {
            Some(d) => text.append(d),
            None => {
                proof {
                    assert(text@ + Seq::<char>::empty() =~= text@);
                }
            },
        }
        PollStep::Fail(text)
    }
}

/// The key and the value of a piece of a query of the form `key=value`; a
/// piece without `=` has neither.
pub open spec fn pair_of(piece: Seq<char>) -> Option<(Seq<char>, Seq<char>)> {
    let at = first_index(piece, '=');
    if at < piece.len() {
        Some((piece.take(at), piece.skip(at + 1)))
    } else {
        None
    }
}

/// The value that the pieces of a query give a key: that of the last piece
/// with the key.
pub open spec fn value_of(pieces: Seq<Seq<char>>, key: Seq<char>) -> Option<Seq<char>>
    decreases pieces.len(),
{
    if pieces.len() == 0 {
        None
    } else {
        match pair_of(pieces.last()) {
            Some((k, v)) => if k == key {
                Some(v)
            } else {
                value_of(pieces.drop_last(), key)
            },
            None => value_of(pieces.drop_last(), key),
        }
    }
}

/// The value that the query gives the key, its pieces parted by `&`.
pub open spec fn query_value(query: Seq<char>, key: Seq<char>) -> Option<Seq<char>> {
    value_of(split_on(query, '&'), key)
}

/// The value that `pieces` give `key`.
pub fn lookup(pieces: &Vec<String>, key: &str) -> (value: Option<String>)
    ensures
        opt_text(value) == value_of(texts(pieces@), key@),
{
    let mut value: Option<String> = None;
    let mut i: usize = 0;
    proof {
        assert(texts(pieces@).take(0) =~= Seq::empty());
    }
    while i < pieces.len()
        invariant
            i <= pieces.len(),
            opt_text(value) == value_of(texts(pieces@).take(i as int), key@),
        decreases pieces.len() - i,
    {
        let piece = chars_of(pieces[i].as_str());
        proof {
            assert(texts(pieces@).take(i + 1).drop_last() =~= texts(pieces@).take(i as int));
            assert(texts(pieces@).take(i + 1).last() == piece@);
        }
        match find_char(&piece, '=') {
            Some(at) => {
                let k = slice_chars(&piece, 0, at);
                proof {
                    assert(piece@.subrange(0, at as int) == piece@.take(at as int));
                    assert(piece@.subrange(at + 1, piece.len() as int) == piece@.skip(at + 1));
                }
                let k_text = string_of(&k);
                if same_text(k_text.as_str(), key) {
                    let v = slice_chars(&piece, at + 1, piece.len());
                    value = Some(string_of(&v));
                }
            },
            None => {},
        }
        i += 1;
    }
    proof {
        assert(texts(pieces@).take(i as int) =~= texts(pieces@));
    }
    value
}

/// What becomes of a request that came in on the redirect port.
#[derive(Debug)]
pub enum CallbackStep {
    /// The request is not the callback: go on waiting.
    Ignore,
    /// The flow has failed; nothing is answered.
    Fail { error: String },
    /// The flow has failed; the browser is told `page`.
    Refuse { page: String, error: String },
    /// The flow has handed out the authorization code; the browser is told
    /// `page`.
    Accept { page: String, code: String },
}

/// What a callback step holds.
pub enum CallbackStepView {
    Ignore,
    Fail { error: Seq<char> },
    Refuse { page: Seq<char>, error: Seq<char> },
    Accept { page: Seq<char>, code: Seq<char> },
}

impl View for CallbackStep {
    type V = CallbackStepView;

    open spec fn view(&self) -> CallbackStepView {
        match self {
            CallbackStep::Ignore => CallbackStepView::Ignore,
            CallbackStep::Fail { error } => CallbackStepView::Fail { error: error@ },
            CallbackStep::Refuse { page, error } => CallbackStepView::Refuse {
                page: page@,
                error: error@,
            },
            CallbackStep::Accept { page, code } => CallbackStepView::Accept {
                page: page@,
                code: code@,
            },
        }
    }
}

/// The query of the path of a callback; empty where the path has none.
pub open spec fn callback_query(path: Seq<char>) -> Seq<char> {
    if is_prefix("/callback?"@, path) {
        path.skip("/callback?"@.len() as int)
    } else {
        Seq::empty()
    }
}

/// What becomes of a request for `path`, where `expected_state` is the state
/// that the flow was begun with. A path that does not begin with `/callback`
/// is passed over. An error that the query names ends the flow, and so do a
/// missing or another state and a missing code.
pub open spec fn callback_step(path: Seq<char>, expected_state: Seq<char>) -> CallbackStepView {
    if !is_prefix("/callback"@, path) {
        CallbackStepView::Ignore
    } else {
        let query = callback_query(path);
        match query_value(query, "error"@) {
            Some(error) => {
                let description = match query_value(query, "error_description"@) {
                    Some(d) => d,
                    None => "Unknown error"@,
                };
                CallbackStepView::Refuse {
                    page: "Authorization failed: "@ + description,
                    error: "OAuth error: "@ + error + " - "@ + description,
                }
            },
            None => match query_value(query, "state"@) {
                None => CallbackStepView::Fail { error: "Missing state parameter"@ },
                Some(state) => if state != expected_state {
                    CallbackStepView::Refuse {
                        page: "State mismatch - possible CSRF attack"@,
                        error: "State mismatch"@,
                    }
                } else {
                    match query_value(query, "code"@) {
                        None => CallbackStepView::Fail { error: "Missing code parameter"@ },
                        Some(code) => CallbackStepView::Accept {
                            page: "Authorization successful! You can close this tab."@,
                            code,
                        },
                    }
                },
            },
        }
    }
}

/// What becomes of a request for `path` on the redirect port.
pub fn read_callback(path: &str, expected_state: &str) -> (step: CallbackStep)
    ensures
        step@ == callback_step(path@, expected_state@),
{
    let chars = chars_of(path);
    let marker = chars_of("/callback");
    if !starts_with(&chars, &marker) {
        return CallbackStep::Ignore;
    }
    let with_query = chars_of("/callback?");
    let query: Vec<char> = if starts_with(&chars, &with_query) {
        proof {
            assert(chars@.subrange(with_query.len() as int, chars.len() as int) == chars@.skip(
                with_query.len() as int,
            ));
        }
        slice_chars(&chars, with_query.len(), chars.len())
    } else {
        Vec::new()
    };
    let pieces = split_chars(&query, '&');
    match lookup(&pieces, "error") {
        Some(error) => {
            let description = match lookup(&pieces, "error_description") {
                Some(d) => d,
                None => String::from_str("Unknown error"),
            };
            let mut page = String::from_str("Authorization failed: ");
            page.append(description.as_str());
            let mut text = String::from_str("OAuth error: ");
            text.append(error.as_str());
            text.append(" - ");
            text.append(description.as_str());
            CallbackStep::Refuse { page, error: text }
        },
        None => match lookup(&pieces, "state") {
            None => CallbackStep::Fail { error: String::from_str("Missing state parameter") },
            Some(state) => {
                if !same_text(state.as_str(), expected_state) {
                    CallbackStep::Refuse {
                        page: String::from_str("State mismatch - possible CSRF attack"),
                        error: String::from_str("State mismatch"),
                    }
                } else {
                    match lookup(&pieces, "code") {
                        None => CallbackStep::Fail {
                            error: String::from_str("Missing code parameter"),
                        },
                        Some(code) => CallbackStep::Accept {
                            page: String::from_str(
                                "Authorization successful! You can close this tab.",
                            ),
                            code,
                        },
                    }
                }
            },
        },
    }
}

} // verus!
