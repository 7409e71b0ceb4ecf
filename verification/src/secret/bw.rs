//! The `bw` backend: Bitwarden's Password Manager CLI (never `bws`).
//!
//! A locator is `item/<name>` or `id/<id>`; both are looked up with
//! `bw --nointeraction get password <value>`. The key comes back on `bw`'s
//! stdout; failures are told apart by its stderr, which holds no key. Running
//! the process is the caller's part; what its output means is decided here.

use vstd::prelude::*;
use vstd::utf8::{decode_utf8, valid_utf8};

use crate::cred_ref::{first_index, lemma_first_unique, CredRef};
use crate::secret::{SecretError, SecretFault};
use crate::text::{chars_of, contains, has_sub, slice_owned, trim, trim_str};

verus! {

/// The `bw` backend.
#[derive(Debug, Clone, Copy)]
pub struct BwStore;

/// What a locator asks `bw` for: the text after `item/` or `id/`.
pub open spec fn query_value_spec(locator: Seq<char>) -> Result<Seq<char>, SecretFault> {
    if !locator.contains('/') {
        Err(SecretFault::BwBadLocator)
    } else {
        let i = first_index(locator, '/');
        let kind = locator.take(i);
        let value = locator.skip(i + 1);
        if kind == "item"@ || kind == "id"@ {
            if value.len() == 0 {
                Err(SecretFault::BwEmptyValue(kind))
            } else {
                Ok(value)
            }
        } else {
            Err(SecretFault::BwUnknownKind(kind))
        }
    }
}

/// The value to look up for a locator `item/<name>` or `id/<id>`.
pub fn query_value(locator: &str) -> (r: Result<String, SecretError>)
    ensures
        match r {
            Ok(v) => query_value_spec(locator@) == Ok::<Seq<char>, SecretFault>(v@),
            Err(e) => query_value_spec(locator@) == Err::<Seq<char>, SecretFault>(e@),
        },
{
    let v = chars_of(locator);
    let len = v.len();
    let mut i: usize = 0;
    while i < len && v[i] != '/'
        invariant
            v@ == locator@,
            len == v.len(),
            i <= len,
            forall|j: int| 0 <= j < i ==> locator@[j] != '/',
        decreases len - i,
    {
        i = i + 1;
    }
    if i == len {
        assert(!locator@.contains('/'));
        return Err(SecretError::BwBadLocator);
    }
    proof {
        lemma_first_unique(locator@, '/', i as int);
    }
    let kind = slice_owned(locator, 0, i);
    let value = slice_owned(locator, i + 1, len);
    assert(kind@ =~= locator@.take(i as int));
    assert(value@ =~= locator@.skip(i + 1));
    if kind == "item".to_owned() || kind == "id".to_owned() {
        if i + 1 == len {
            Err(SecretError::BwEmptyValue(kind))
        } else {
            Ok(value)
        }
    } else {
        Err(SecretError::BwUnknownKind(kind))
    }
}

/// Why `bw` exited unsuccessfully.
#[derive(Debug, PartialEq, Eq)]
pub enum BwFailure {
    NotLoggedIn,
    Locked,
    NotFound,
    /// Anything else; carries the trimmed stderr.
    Other(String),
}

/// A `bw` failure as values.
pub enum BwFailureView {
    NotLoggedIn,
    Locked,
    NotFound,
    Other(Seq<char>),
}

impl View for BwFailure {
    type V = BwFailureView;

    open spec fn view(&self) -> BwFailureView {
        match self {
            BwFailure::NotLoggedIn => BwFailureView::NotLoggedIn,
            BwFailure::Locked => BwFailureView::Locked,
            BwFailure::NotFound => BwFailureView::NotFound,
            BwFailure::Other(s) => BwFailureView::Other(s@),
        }
    }
}

/// What `str::to_lowercase` gives for `s` (Unicode's lowercase mapping).
pub uninterp spec fn lowercase(s: Seq<char>) -> Seq<char>;

/// `str::to_lowercase`: the Unicode lowercase mapping of `s`. The contract names
/// the result and claims nothing of the mapping itself.
#[verifier::external_body]
fn to_lowercase(s: &str) -> (r: String)
    ensures
        r@ == lowercase(s@),
{
    s.to_lowercase()
}

/// The class of a failure, from its stderr and that stderr in lower case.
pub open spec fn classify_spec(stderr: Seq<char>, lowered: Seq<char>) -> BwFailureView {
    if has_sub(lowered, "not logged in"@) {
        BwFailureView::NotLoggedIn
    } else if has_sub(lowered, "locked"@) {
        BwFailureView::Locked
    } else if has_sub(lowered, "not found"@) || has_sub(lowered, "no items"@) {
        BwFailureView::NotFound
    } else {
        BwFailureView::Other(trim(stderr))
    }
}

/// Classifies a failure given its stderr and the lower-cased stderr.
pub fn classify_lowered(stderr: &str, lowered: &str) -> (r: BwFailure)
    ensures
        r@ == classify_spec(stderr@, lowered@),
{
    if contains(lowered, "not logged in") {
        BwFailure::NotLoggedIn
    } else if contains(lowered, "locked") {
        BwFailure::Locked
    } else if contains(lowered, "not found") || contains(lowered, "no items") {
        BwFailure::NotFound
    } else {
        BwFailure::Other(trim_str(stderr))
    }
}

/// Classifies a failure by its stderr, case-insensitively.
pub fn classify(stderr: &str) -> (r: BwFailure)
    ensures
        r@ == classify_spec(stderr@, lowercase(stderr@)),
{
    let lowered = to_lowercase(stderr);
    classify_lowered(stderr, lowered.as_str())
}

/// The actionable error for each failure class.
pub open spec fn actionable_spec(f: BwFailureView) -> SecretFault {
    match f {
        BwFailureView::NotLoggedIn => SecretFault::BwNotLoggedIn,
        BwFailureView::Locked => SecretFault::BwLocked,
        BwFailureView::NotFound => SecretFault::BwNotFound,
        BwFailureView::Other(m) => SecretFault::BwOther(m),
    }
}

/// Turns a failure class into an actionable error.
pub fn actionable(failure: &BwFailure) -> (r: SecretError)
    ensures
        r@ == actionable_spec(failure@),
{
    match failure {
        BwFailure::NotLoggedIn => SecretError::BwNotLoggedIn,
        BwFailure::Locked => SecretError::BwLocked,
        BwFailure::NotFound => SecretError::BwNotFound,
        BwFailure::Other(m) => SecretError::BwOther(m.clone()),
    }
}

/// `String::from_utf8`: the string when `bytes` is valid UTF-8, else the bytes
/// back (`FromUtf8Error::into_bytes`).
#[verifier::external_body]
fn utf8_string(bytes: Vec<u8>) -> (r: Result<String, Vec<u8>>)
    ensures
        match r {
            Ok(s) => valid_utf8(bytes@) && s@ == decode_utf8(bytes@),
            Err(b) => !valid_utf8(bytes@) && b@ == bytes@,
        },
{
    match String::from_utf8(bytes) {
        Ok(s) => Ok(s),
        Err(e) => Err(e.into_bytes()),
    }
}

/// `zeroize::Zeroize::zeroize` on a byte vector: overwrites the bytes (and the
/// spare capacity) with zeros, then clears the vector. Only the final length is
/// stated; the overwriting is a property of memory that no clause here can name.
#[verifier::external_body]
fn wipe(bytes: &mut Vec<u8>)
    ensures
        final(bytes)@.len() == 0,
{
    zeroize::Zeroize::zeroize(bytes)
}

/// `zeroize::Zeroize::zeroize` on a string: overwrites its bytes with zeros and
/// empties it. Only the final length is stated.
#[verifier::external_body]
fn wipe_text(text: &mut String)
    ensures
        final(text)@.len() == 0,
{
    zeroize::Zeroize::zeroize(text)
}

/// `s` without its trailing `\n` and `\r` characters.
pub open spec fn trim_newlines_end(s: Seq<char>) -> Seq<char>
    decreases s.len(),
{
    if s.len() > 0 && (s.last() == '\n' || s.last() == '\r') {
        trim_newlines_end(s.drop_last())
    } else {
        s
    }
}

/// The password `bw` printed: its stdout as UTF-8 without trailing line breaks.
pub open spec fn finish_spec(stdout: Seq<u8>) -> Result<Seq<char>, SecretFault> {
    if !valid_utf8(stdout) {
        Err(SecretFault::BwNotUtf8)
    } else {
        let key = trim_newlines_end(decode_utf8(stdout));
        if key.len() == 0 {
            Err(SecretFault::BwEmptyPassword)
        } else {
            Ok(key)
        }
    }
}

/// Turns `bw`'s stdout into the key. The stdout buffer is wiped once the key is
/// copied out, and bytes that are not UTF-8 are wiped before the error. A
/// success with nothing but line breaks is an error too, so an empty key is
/// never rendered.
pub fn finish_password(stdout: Vec<u8>) -> (r: Result<String, SecretError>)
    ensures
        match r {
            Ok(k) => finish_spec(stdout@) == Ok::<Seq<char>, SecretFault>(k@),
            Err(e) => finish_spec(stdout@) == Err::<Seq<char>, SecretFault>(e@),
        },
{
    let text = match utf8_string(stdout) {
        Ok(s) => s,
        Err(bytes) => {
            let mut bytes = bytes;
            wipe(&mut bytes);
            return Err(SecretError::BwNotUtf8);
        },
    };
    let mut text = text;
    let mut end: usize = text.as_str().unicode_len();
    assert(text@.subrange(0, end as int) =~= text@);
    while end > 0 && (text.as_str().get_char(end - 1) == '\n' || text.as_str().get_char(end - 1)
        == '\r')
        invariant
            end <= text@.len(),
            trim_newlines_end(text@) == trim_newlines_end(text@.subrange(0, end as int)),
        decreases end,
    {
        assert(text@.subrange(0, end as int).drop_last() =~= text@.subrange(0, end - 1));
        end = end - 1;
    }
    if end == 0 {
        wipe_text(&mut text);
        return Err(SecretError::BwEmptyPassword);
    }
    let key = slice_owned(text.as_str(), 0, end);
    wipe_text(&mut text);
    Ok(key)
}

/// What a `bw get password` run gives: the key, `None` when no item matched, or
/// an actionable error.
pub open spec fn settle_spec(success: bool, stdout: Seq<u8>, lowered_stderr: Seq<char>, stderr: Seq<
    char,
>) -> Result<Option<Seq<char>>, SecretFault> {
    if success {
        match finish_spec(stdout) {
            Ok(k) => Ok(Some(k)),
            Err(e) => Err(e),
        }
    } else {
        match classify_spec(stderr, lowered_stderr) {
            BwFailureView::NotFound => Ok(None),
            other => Err(actionable_spec(other)),
        }
    }
}

/// Interprets the outcome of `bw --nointeraction get password <value>`.
pub fn settle_get(success: bool, stdout: Vec<u8>, stderr: &str) -> (r: Result<
    Option<String>,
    SecretError,
>)
    ensures
        match r {
            Ok(Some(k)) => settle_spec(success, stdout@, lowercase(stderr@), stderr@) == Ok::<
                Option<Seq<char>>,
                SecretFault,
            >(Some(k@)),
            Ok(None) => settle_spec(success, stdout@, lowercase(stderr@), stderr@) == Ok::<
                Option<Seq<char>>,
                SecretFault,
            >(None),
            Err(e) => settle_spec(success, stdout@, lowercase(stderr@), stderr@) == Err::<
                Option<Seq<char>>,
                SecretFault,
            >(e@),
        },
{
    if success {
        match finish_password(stdout) {
            Ok(k) => Ok(Some(k)),
            Err(e) => Err(e),
        }
    } else {
        let failure = classify(stderr);
        match failure {
            BwFailure::NotFound => Ok(None),
            other => Err(actionable(&other)),
        }
    }
}

impl BwStore {
    /// The value to hand to `bw get password` for this reference.
    pub fn query(&self, r: &CredRef) -> (q: Result<String, SecretError>)
        ensures
            match q {
                Ok(v) => query_value_spec(r.locator@) == Ok::<Seq<char>, SecretFault>(v@),
                Err(e) => query_value_spec(r.locator@) == Err::<Seq<char>, SecretFault>(e@),
            },
    {
        query_value(r.locator.as_str())
    }

    /// The key from a `bw get password` run; no matching item is an error.
    pub fn get(&self, success: bool, stdout: Vec<u8>, stderr: &str) -> (r: Result<
        String,
        SecretError,
    >)
        ensures
            match settle_spec(success, stdout@, lowercase(stderr@), stderr@) {
                Ok(Some(k)) => r is Ok && r->Ok_0@ == k,
                Ok(None) => r is Err && r->Err_0@ == SecretFault::BwNotFound,
                Err(e) => r is Err && r->Err_0@ == e,
            },
    {
        match settle_get(success, stdout, stderr) {
            Ok(Some(k)) => Ok(k),
            Ok(None) => Err(actionable(&BwFailure::NotFound)),
            Err(e) => Err(e),
        }
    }

    /// Whether a `bw get password` run found the key (the key itself is dropped).
    pub fn key_exists(&self, success: bool, stdout: Vec<u8>, stderr: &str) -> (r: Result<
        bool,
        SecretError,
    >)
        ensures
            match settle_spec(success, stdout@, lowercase(stderr@), stderr@) {
                Ok(found) => r == Ok::<bool, SecretError>(found is Some),
                Err(e) => r is Err && r->Err_0@ == e,
            },
    {
        match settle_get(success, stdout, stderr) {
            Ok(found) => Ok(found.is_some()),
            Err(e) => Err(e),
        }
    }

    /// Writing through `bw` is not supported: the key would have to pass through
    /// argv or a temporary file.
    pub fn set(&self, _r: &CredRef, _value: String) -> (res: Result<(), SecretError>)
        ensures
            res is Err && res->Err_0@ == SecretFault::BwWriteUnsupported,
    {
        Err(SecretError::BwWriteUnsupported)
    }
}

} // verus!
