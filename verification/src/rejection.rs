//! Why a session ended, and whether the credentials were at fault.

use vstd::prelude::*;

use crate::text::{
    ascii_lower, ascii_lowered, chars_of, contains_chars, lowered_chars, occurs, occurs_at,
};

verus! {

broadcast use vstd::string::group_string_axioms;

/// The status code of a failed call.
#[derive(Clone, Copy, Debug, PartialEq, Eq, Structural)]
pub enum RpcCode {
    Success,
    Cancelled,
    Unknown,
    InvalidArgument,
    DeadlineExceeded,
    NotFound,
    AlreadyExists,
    PermissionDenied,
    ResourceExhausted,
    FailedPrecondition,
    Aborted,
    OutOfRange,
    Unimplemented,
    Internal,
    Unavailable,
    DataLoss,
    Unauthenticated,
}

/// The status of a failed call.
#[derive(Clone, Debug)]
pub struct RpcStatus {
    pub code: RpcCode,
    pub message: String,
}

/// One link in the chain of causes of an error.
#[derive(Clone, Debug)]
pub enum Cause {
    Status(RpcStatus),
    Other,
}

/// An error that ended a session: its text, and its causes from the outermost in.
#[derive(Clone, Debug)]
pub struct SessionError {
    pub text: String,
    pub causes: Vec<Cause>,
}

/// A message that names the instance token, in capitals or not.
pub open spec fn names_instance_token(message: Seq<char>) -> bool {
    let low = ascii_lowered(message);
    occurs(low, "instance-token"@) || occurs(low, "instance token"@)
}

/// A status by which the Control Plane refuses the credentials: it says that
/// they do not authenticate, or denies permission and names the instance token.
pub open spec fn refuses_credentials(status: RpcStatus) -> bool {
    match status.code {
        RpcCode::Unauthenticated => true,
        RpcCode::PermissionDenied => names_instance_token(status.message@),
        _ => false,
    }
}

impl SessionError {
    /// The error is the Control Plane refusing the credentials: some status in
    /// its chain of causes, however deep, does so.
    pub open spec fn is_rejection(self) -> bool {
        exists|i: int|
            0 <= i < self.causes@.len() && (#[trigger] self.causes@[i] matches Cause::Status(s)
                && refuses_credentials(s))
    }
}

/// Whether a message names the instance token.
fn mentions_instance_token(message: &str) -> (r: bool)
    ensures
        r == names_instance_token(message@),
{
    let low: Vec<char> = lowered_chars(message);
    let dashed: Vec<char> = chars_of("instance-token");
    let spaced: Vec<char> = chars_of("instance token");
    contains_chars(&low, &dashed) || contains_chars(&low, &spaced)
}

/// Whether a session error is the Control Plane refusing the credentials, as
/// opposed to a transport failure or a stream that ended.
pub fn is_credential_rejection(err: &SessionError) -> (r: bool)
    ensures
        r == err.is_rejection(),
{
    let mut i: usize = 0;
    while i < err.causes.len()
        invariant
            i <= err.causes@.len(),
            forall|k: int|
                0 <= k < i ==> !(#[trigger] err.causes@[k] matches Cause::Status(s)
                    && refuses_credentials(s)),
        decreases err.causes@.len() - i,
    {
        if let Cause::Status(status) = &err.causes[i] {
            let refused: bool = match status.code {
                RpcCode::Unauthenticated => true,
                RpcCode::PermissionDenied => mentions_instance_token(status.message.as_str()),
                _ => false,
            };
            if refused {
                return true;
            }
        }
        i = i + 1;
    }
    false
}

/// A status refuses the credentials only if it says that they do not
/// authenticate or denies permission; the former always does. A transport
/// failure, a server failure or an ended stream never does.
pub proof fn law_only_two_codes_refuse(status: RpcStatus)
    ensures
        refuses_credentials(status) ==> status.code is Unauthenticated
            || status.code is PermissionDenied,
        status.code is Unauthenticated ==> refuses_credentials(status),
{
}

/// An error whose causes hold neither code is no rejection, however many they
/// are, nor is one whose denials do not name the token; one with a cause that
/// does not authenticate, or with a denial that names the token, always is.
pub proof fn law_rejection_needs_a_refusing_cause(err: SessionError, i: int)
    requires
        0 <= i < err.causes@.len(),
    ensures
        (forall|k: int|
            0 <= k < err.causes@.len() ==> (#[trigger] err.causes@[k] matches Cause::Status(s)
                ==> s.code !is Unauthenticated && s.code !is PermissionDenied))
            ==> !err.is_rejection(),
        (forall|k: int|
            0 <= k < err.causes@.len() ==> (#[trigger] err.causes@[k] matches Cause::Status(s)
                ==> s.code !is Unauthenticated && !(s.code is PermissionDenied
                && names_instance_token(s.message@)))) ==> !err.is_rejection(),
        (err.causes@[i] matches Cause::Status(s) && s.code is Unauthenticated)
            ==> err.is_rejection(),
        (err.causes@[i] matches Cause::Status(s) && s.code is PermissionDenied
            && names_instance_token(s.message@)) ==> err.is_rejection(),
{
}

/// Wrapping an error, or giving it further causes, does not make it less of a
/// rejection; nor does its text matter.
pub proof fn law_more_causes_keep_a_rejection(err: SessionError, wrapped: SessionError, shift: int)
    requires
        err.is_rejection(),
        shift >= 0,
        shift + err.causes@.len() <= wrapped.causes@.len(),
        forall|i: int|
            0 <= i < err.causes@.len() ==> wrapped.causes@[i + shift] == #[trigger] err.causes@[i],
    ensures
        wrapped.is_rejection(),
{
    let i = choose|i: int|
        0 <= i < err.causes@.len() && (#[trigger] err.causes@[i] matches Cause::Status(s)
            && refuses_credentials(s));
    assert(wrapped.causes@[i + shift] == err.causes@[i]);
}

/// The characters of `s` from `at` on spell `word`, which is in lower case,
/// where capitals count as their lower-case letters.
pub open spec fn spells(s: Seq<char>, at: int, word: Seq<char>) -> bool {
    &&& 0 <= at <= s.len() - word.len()
    &&& forall|k: int|
        0 <= k < word.len() ==> s[at + k] == #[trigger] word[k] || (65 <= s[at + k] as u32 <= 90
            && s[at + k] as u32 + 32 == word[k] as u32)
}

proof fn lemma_lower(c: char, w: char)
    requires
        !(65 <= w as u32 <= 90),
    ensures
        ascii_lower(c) == w <==> c == w || (65 <= c as u32 <= 90 && c as u32 + 32 == w as u32),
{
}

proof fn lemma_spells(s: Seq<char>, at: int, word: Seq<char>)
    requires
        forall|k: int| 0 <= k < word.len() ==> !(65 <= #[trigger] word[k] as u32 <= 90),
    ensures
        spells(s, at, word) <==> occurs_at(ascii_lowered(s), word, at),
{
    let low = ascii_lowered(s);
    if spells(s, at, word) {
        let there = low.subrange(at, at + word.len());
        assert forall|k: int| 0 <= k < word.len() implies there[k] == #[trigger] word[k] by {
            lemma_lower(s[at + k], word[k]);
            assert(low[at + k] == ascii_lower(s[at + k]));
        }
        assert(there =~= word);
    }
    if occurs_at(low, word, at) {
        assert forall|k: int| 0 <= k < word.len() implies s[at + k] == #[trigger] word[k] || (65
            <= s[at + k] as u32 <= 90 && s[at + k] as u32 + 32 == word[k] as u32) by {
            assert(low.subrange(at, at + word.len())[k] == word[k]);
            lemma_lower(s[at + k], word[k]);
        }
    }
}

/// A message names the instance token exactly if it spells the two words
/// somewhere, with a hyphen or a space between them, in capitals or not.
pub proof fn law_token_is_named_in_words(message: Seq<char>)
    ensures
        names_instance_token(message) <==> exists|at: int|
            spells(message, at, "instance-token"@) || spells(message, at, "instance token"@),
{
    reveal_strlit("instance-token");
    reveal_strlit("instance token");
    let low = ascii_lowered(message);
    let (a, b) = ("instance-token"@, "instance token"@);
    if names_instance_token(message) {
        let at = if occurs(low, a) {
            choose|i: int| occurs_at(low, a, i)
        } else {
            choose|i: int| occurs_at(low, b, i)
        };
        lemma_spells(message, at, a);
        lemma_spells(message, at, b);
        assert(spells(message, at, a) || spells(message, at, b));
    }
    if exists|at: int| spells(message, at, a) || spells(message, at, b) {
        let at = choose|at: int| spells(message, at, a) || spells(message, at, b);
        lemma_spells(message, at, a);
        lemma_spells(message, at, b);
        assert(occurs_at(low, a, at) || occurs_at(low, b, at));
    }
}

/// A denied permission refuses the credentials exactly if its message names the
/// instance token.
pub proof fn law_denial_refuses_if_it_names_the_token(status: RpcStatus)
    requires
        status.code is PermissionDenied,
    ensures
        refuses_credentials(status) <==> exists|at: int|
            spells(status.message@, at, "instance-token"@) || spells(
                status.message@,
                at,
                "instance token"@,
            ),
{
    law_token_is_named_in_words(status.message@);
}

} // verus!
