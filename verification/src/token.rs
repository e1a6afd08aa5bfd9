//! Instance tokens and enrollment tokens: what the agent reads out of them.

use vstd::prelude::*;
use vstd::string::StrSliceExecFns;

use crate::externals::{
    base64url_decode, base64url_decoded, json_member, json_member_of, JsonMember,
};
use crate::text::{
    begins_with, chars_of, law_found_text_is_there, law_trailing_run_is_cut, lemma_position_is,
    position, split, split_text, strip_prefix, texts, trim_trailing, without_trailing,
};
use crate::time::{Duration, MAX_NANOS, NANOS_PER_SEC};

verus! {

broadcast use vstd::string::group_string_axioms;

/// The least validity in seconds that a token must have left before a connect.
pub const MIN_TOKEN_REFRESH_SECS: u64 = 300;

/// A span in whole seconds.
pub open spec fn whole_seconds(d: Duration) -> nat {
    d.nanos() / NANOS_PER_SEC as nat
}

/// The span within which a token that is due to expire is replaced before it
/// is presented, in nanoseconds: five minutes, or three heartbeats where they
/// take longer, saturating at the longest span.
pub open spec fn refresh_window_nanos(heartbeat_interval: Duration) -> nat {
    let floor = (MIN_TOKEN_REFRESH_SECS * NANOS_PER_SEC) as nat;
    let beats = 3 * heartbeat_interval.nanos();
    if beats <= floor {
        floor
    } else if beats <= MAX_NANOS {
        beats
    } else {
        MAX_NANOS as nat
    }
}

/// The span within which a token that is due to expire is replaced before it
/// is presented.
pub fn token_refresh_window(heartbeat_interval: Duration) -> (r: Duration)
    ensures
        r.nanos() == refresh_window_nanos(heartbeat_interval),
{
    let floor: Duration = Duration::from_secs(MIN_TOKEN_REFRESH_SECS);
    floor.max(heartbeat_interval.saturating_mul(3))
}

/// A token with this expiry must be replaced before use: it expires within the
/// window, or its expiry cannot be read.
pub open spec fn expiring(exp: Option<i64>, now: i64, window: Duration) -> bool {
    match exp {
        Some(exp) => exp - now <= whole_seconds(window),
        None => true,
    }
}

/// Whether a token with this expiry must be replaced before use.
pub fn expires_within(exp: Option<i64>, now: i64, window: Duration) -> (r: bool)
    ensures
        r == expiring(exp, now, window),
{
    match exp {
        Some(exp) => exp as i128 - now as i128 <= window.as_secs() as i128,
        None => true,
    }
}

/// The payload of a token: the second of its parts between dots.
pub open spec fn jwt_payload_of(jwt: Seq<char>) -> Option<Seq<char>> {
    let parts = split(jwt, '.');
    if parts.len() > 1 {
        Some(parts[1])
    } else {
        None
    }
}

/// The payload of a token.
pub fn jwt_payload(jwt: &str) -> (r: Option<String>)
    ensures
        match r {
            Some(p) => jwt_payload_of(jwt@) == Some(p@),
            None => jwt_payload_of(jwt@) is None,
        },
{
    let parts: Vec<String> = split_text(jwt, '.');
    assert(texts(parts@).len() == parts@.len());
    if parts.len() > 1 {
        assert(texts(parts@)[1] == parts@[1]@);
        Some(parts[1].clone())
    } else {
        None
    }
}

/// The deadline that an `exp` claim states, if it is a number: the integer, or
/// else the whole part.
pub open spec fn deadline_of(claim: JsonMember) -> Option<i64> {
    match claim {
        JsonMember::Present { integer: Some(n), .. } => Some(n),
        JsonMember::Present { integer: None, truncated } => truncated,
        _ => None,
    }
}

/// The deadline that an `exp` claim states.
pub fn deadline(claim: JsonMember) -> (r: Option<i64>)
    ensures
        r == deadline_of(claim),
{
    match claim {
        JsonMember::Present { integer: Some(n), .. } => Some(n),
        JsonMember::Present { integer: None, truncated } => truncated,
        _ => None,
    }
}

/// The expiry of a token: the `exp` claim of its payload, a base64url text
/// that may be padded.
pub open spec fn jwt_exp_of(jwt: Seq<char>) -> Option<i64> {
    match jwt_payload_of(jwt) {
        Some(payload) => match base64url_decoded(without_trailing(payload, '=')) {
            Some(bytes) => deadline_of(json_member_of(bytes, "exp"@)),
            None => None,
        },
        None => None,
    }
}

/// The expiry of a token, read from its payload. The signature is not checked:
/// that is for the Control Plane to do.
pub fn jwt_exp(jwt: &str) -> (r: Option<i64>)
    ensures
        r == jwt_exp_of(jwt@),
{
    match jwt_payload(jwt) {
        Some(payload) => {
            let text: String = trim_trailing(payload.as_str(), '=');
            match base64url_decode(text.as_str()) {
                Some(bytes) => deadline(json_member(bytes.as_slice(), "exp")),
                None => None,
            }
        },
        None => None,
    }
}

/// Why an enrollment URL cannot be used.
#[derive(Clone, Copy, Debug, PartialEq, Eq, Structural)]
pub enum EnrollError {
    MissingFragment,
    MissingToken,
}

impl EnrollError {
    /// The error in words.
    pub open spec fn words(self) -> Seq<char> {
        match self {
            EnrollError::MissingFragment => "enrollment URL missing fragment"@,
            EnrollError::MissingToken => "enrollment URL missing token=..."@,
        }
    }

    /// The error in words.
    pub fn message(&self) -> (r: String)
        ensures
            r@ == self.words(),
    {
        match self {
            EnrollError::MissingFragment => "enrollment URL missing fragment".to_owned(),
            EnrollError::MissingToken => "enrollment URL missing token=...".to_owned(),
        }
    }
}

/// What stands behind `token=` in the first part that begins so.
pub open spec fn token_among(parts: Seq<Seq<char>>) -> Option<Seq<char>>
    decreases parts.len(),
{
    if parts.len() == 0 {
        None
    } else if begins_with(parts[0], "token="@) {
        Some(parts[0].skip("token="@.len() as int))
    } else {
        token_among(parts.drop_first())
    }
}

/// The token in an enrollment URL of the form `<base>#token=<token>`, where
/// other parts may stand beside it, between ampersands.
pub open spec fn token_of(url: Seq<char>) -> Result<Seq<char>, EnrollError> {
    let i = position(url, '#', 0);
    if i >= url.len() {
        Err(EnrollError::MissingFragment)
    } else {
        match token_among(split(url.skip(i + 1), '&')) {
            Some(token) => Ok(token),
            None => Err(EnrollError::MissingToken),
        }
    }
}

/// An enrollment URL carries a token.
pub open spec fn has_token(url: Seq<char>) -> bool {
    token_of(url) is Ok
}

/// The token in an enrollment URL.
pub fn extract_token(url: &str) -> (r: Result<String, EnrollError>)
    ensures
        match r {
            Ok(token) => token_of(url@) == Ok::<Seq<char>, EnrollError>(token@),
            Err(e) => token_of(url@) == Err::<Seq<char>, EnrollError>(e),
        },
{
    let chars: Vec<char> = chars_of(url);
    let n: usize = chars.len();
    let mut i: usize = 0;
    while i < n && chars[i] != '#'
        invariant
            chars@ == url@,
            n == url@.len(),
            i <= n,
            position(url@, '#', i as int) == position(url@, '#', 0),
        decreases n - i,
    {
        i = i + 1;
    }
    if i == n {
        return Err(EnrollError::MissingFragment);
    }
    let fragment: &str = url.substring_char(i + 1, n);
    assert(fragment@ =~= url@.skip(i + 1));
    let parts: Vec<String> = split_text(fragment, '&');
    let mut k: usize = 0;
    assert(texts(parts@).skip(0) =~= texts(parts@));
    while k < parts.len()
        invariant
            k <= parts@.len(),
            token_among(texts(parts@).skip(k as int)) == token_among(texts(parts@)),
            token_of(url@) == match token_among(texts(parts@)) {
                Some(token) => Ok(token),
                None => Err(EnrollError::MissingToken),
            },
        decreases parts@.len() - k,
    {
        let ghost rest = texts(parts@).skip(k as int);
        assert(rest[0] == parts@[k as int]@);
        assert(rest.drop_first() =~= texts(parts@).skip(k + 1));
        if let Some(token) = strip_prefix(parts[k].as_str(), "token=") {
            return Ok(token);
        }
        k = k + 1;
    }
    Err(EnrollError::MissingToken)
}

/// An enrollment URL gives back the token that it was made with.
pub proof fn law_enrollment_url_carries_its_token(base: Seq<char>, token: Seq<char>)
    requires
        forall|i: int| 0 <= i < base.len() ==> base[i] != '#',
        forall|i: int| 0 <= i < token.len() ==> token[i] != '&',
    ensures
        token_of(base + "#token="@ + token) == Ok::<Seq<char>, EnrollError>(token),
{
    reveal_strlit("#token=");
    reveal_strlit("token=");
    let url = base + "#token="@ + token;
    lemma_position_is(url, '#', 0, base.len() as int);
    let fragment = url.skip(base.len() as int + 1);
    assert(fragment =~= "token="@ + token);
    lemma_position_is(fragment, '&', 0, fragment.len() as int);
    assert(split(fragment, '&') =~= seq![fragment]);
    assert(fragment.subrange(0, 6) =~= "token="@);
    assert(fragment.skip(6) =~= token);
}

/// A token that is not due for replacement outlives the window.
pub proof fn law_kept_token_outlives_window(exp: Option<i64>, now: i64, window: Duration)
    ensures
        !expiring(exp, now, window) <==> exp is Some && exp->0 > now + whole_seconds(window),
{
}

/// The whole seconds of a span are those that fit into it, and one more does not.
pub proof fn law_whole_seconds_fit_the_span(d: Duration)
    ensures
        whole_seconds(d) * 1_000_000_000 <= d.nanos(),
        d.nanos() < (whole_seconds(d) + 1) * 1_000_000_000,
{
}

/// A token is due for replacement exactly if the time that it has left fits
/// into the window, or if its expiry cannot be read.
pub proof fn law_token_is_due_within_the_window(exp: Option<i64>, now: i64, window: Duration)
    ensures
        exp matches Some(e) ==> (expiring(exp, now, window) <==> (e - now) * 1_000_000_000
            <= window.nanos()),
        exp is None ==> expiring(exp, now, window),
{
}

/// The refresh window holds five minutes and three heartbeats, and no more than
/// the longer of the two; a slower heartbeat never narrows it.
pub proof fn law_refresh_window_holds_three_heartbeats(beat: Duration, slower: Duration)
    requires
        beat.nanos() <= slower.nanos(),
        slower.nanos() <= MAX_NANOS,
    ensures
        refresh_window_nanos(beat) >= 300_000_000_000,
        3 * beat.nanos() <= MAX_NANOS ==> refresh_window_nanos(beat) >= 3 * beat.nanos(),
        3 * beat.nanos() > MAX_NANOS ==> refresh_window_nanos(beat) == MAX_NANOS,
        refresh_window_nanos(beat) <= 300_000_000_000 || refresh_window_nanos(beat) <= 3
            * beat.nanos(),
        refresh_window_nanos(beat) <= refresh_window_nanos(slower),
{
}

proof fn lemma_payload_is_second_part(head: Seq<char>, payload: Seq<char>, rest: Seq<char>)
    requires
        forall|i: int| 0 <= i < head.len() ==> head[i] != '.',
        forall|i: int| 0 <= i < payload.len() ==> payload[i] != '.',
    ensures
        jwt_payload_of(head.push('.') + payload) == Some(payload),
        jwt_payload_of(head.push('.') + payload.push('.') + rest) == Some(payload),
{
    let short = head.push('.') + payload;
    let long = head.push('.') + payload.push('.') + rest;
    let n = head.len() as int;
    lemma_position_is(short, '.', 0, n);
    lemma_position_is(long, '.', 0, n);
    let a = short.skip(n + 1);
    let b = long.skip(n + 1);
    assert(a =~= payload);
    assert(b =~= payload.push('.') + rest);
    lemma_position_is(a, '.', 0, a.len() as int);
    lemma_position_is(b, '.', 0, payload.len() as int);
    assert(b.take(payload.len() as int) =~= payload);
    assert(split(a, '.') == seq![a]);
    assert(split(b, '.') == seq![payload] + split(b.skip(payload.len() as int + 1), '.'));
    assert(split(short, '.')[1] == payload);
    assert(split(long, '.')[1] == payload);
}

/// The payload of a token is what stands behind its first dot, up to the next
/// one or the end; a text without a dot has none.
pub proof fn law_payload_stands_between_dots(
    head: Seq<char>,
    payload: Seq<char>,
    rest: Seq<char>,
)
    requires
        forall|i: int| 0 <= i < head.len() ==> head[i] != '.',
        forall|i: int| 0 <= i < payload.len() ==> payload[i] != '.',
    ensures
        jwt_payload_of(head) is None,
        jwt_payload_of(head.push('.') + payload) == Some(payload),
        jwt_payload_of(head.push('.') + payload.push('.') + rest) == Some(payload),
{
    lemma_payload_is_second_part(head, payload, rest);
    lemma_position_is(head, '.', 0, head.len() as int);
    assert(split(head, '.') == seq![head]);
}

/// The expiry of a token is the number under `exp` in the JSON document that its
/// payload encodes, whatever its header and signature, and whether the payload
/// is padded or not. An integer counts as it is, and any other number by its
/// whole part; without a number there is no expiry.
pub proof fn law_expiry_is_the_exp_claim(
    head: Seq<char>,
    payload: Seq<char>,
    padding: Seq<char>,
    signature: Seq<char>,
)
    requires
        forall|i: int| 0 <= i < head.len() ==> head[i] != '.',
        forall|i: int| 0 <= i < payload.len() ==> payload[i] != '.',
        payload.len() > 0 ==> payload.last() != '=',
        forall|i: int| 0 <= i < padding.len() ==> padding[i] == '=',
    ensures
        ({
            let signed = head.push('.') + (payload + padding).push('.') + signature;
            let unsigned = head.push('.') + (payload + padding);
            let exp = match base64url_decoded(payload) {
                None => None,
                Some(doc) => match json_member_of(doc, "exp"@) {
                    JsonMember::NotJson => None,
                    JsonMember::Absent => None,
                    JsonMember::Present { integer, truncated } => if integer is Some {
                        integer
                    } else {
                        truncated
                    },
                },
            };
            &&& jwt_exp_of(signed) == exp
            &&& jwt_exp_of(unsigned) == exp
        }),
        jwt_exp_of(head) is None,
{
    let padded = payload + padding;
    assert forall|i: int| 0 <= i < padded.len() implies padded[i] != '.' by {
        if i >= payload.len() {
            assert(padded[i] == padding[i - payload.len()]);
        }
    }
    law_payload_stands_between_dots(head, padded, signature);
    law_trailing_run_is_cut(padded, '=');
    let k = without_trailing(padded, '=').len() as int;
    if k < payload.len() {
        assert(padded[payload.len() - 1] == '=');
    } else if k > payload.len() {
        assert(padded[k - 1] == padding[k - 1 - payload.len()]);
    }
    assert(padded.take(payload.len() as int) =~= payload);
}

proof fn lemma_token_among(parts: Seq<Seq<char>>)
    ensures
        match token_among(parts) {
            Some(t) => exists|k: int|
                0 <= k < parts.len() && #[trigger] parts[k] == "token="@ + t && forall|j: int|
                    0 <= j < k ==> !begins_with(#[trigger] parts[j], "token="@),
            None => forall|j: int|
                0 <= j < parts.len() ==> !begins_with(#[trigger] parts[j], "token="@),
        },
    decreases parts.len(),
{
    if parts.len() > 0 {
        let rest = parts.drop_first();
        if begins_with(parts[0], "token="@) {
            law_found_text_is_there(parts[0], Seq::empty(), "token="@, Seq::empty());
            assert(parts[0] == "token="@ + parts[0].skip("token="@.len() as int));
        } else {
            lemma_token_among(rest);
            match token_among(rest) {
                Some(t) => {
                    let k = choose|k: int|
                        0 <= k < rest.len() && #[trigger] rest[k] == "token="@ + t && forall|j: int|
                            0 <= j < k ==> !begins_with(#[trigger] rest[j], "token="@);
                    assert(parts[k + 1] == "token="@ + t);
                    assert forall|j: int| 0 <= j < k + 1 implies !begins_with(
                        #[trigger] parts[j],
                        "token="@,
                    ) by {
                        if j > 0 {
                            assert(parts[j] == rest[j - 1]);
                        }
                    }
                },
                None => {
                    assert forall|j: int| 0 <= j < parts.len() implies !begins_with(
                        #[trigger] parts[j],
                        "token="@,
                    ) by {
                        if j > 0 {
                            assert(parts[j] == rest[j - 1]);
                        }
                    }
                },
            }
        }
    }
}

/// The token of an enrollment URL is what follows `token=` in the first part of
/// its fragment that begins so. The fragment is what follows the first `#`, and
/// its parts stand between ampersands. Without a `#` the fragment is missing,
/// and with one only the token can be.
pub proof fn law_token_is_in_the_fragment(base: Seq<char>, fragment: Seq<char>)
    requires
        forall|i: int| 0 <= i < base.len() ==> base[i] != '#',
    ensures
        token_of(base) == Err::<Seq<char>, EnrollError>(EnrollError::MissingFragment),
        ({
            let parts = split(fragment, '&');
            match token_of(base.push('#') + fragment) {
                Ok(t) => exists|k: int|
                    0 <= k < parts.len() && #[trigger] parts[k] == "token="@ + t && forall|j: int|
                        0 <= j < k ==> !begins_with(#[trigger] parts[j], "token="@),
                Err(e) => e == EnrollError::MissingToken && forall|j: int|
                    0 <= j < parts.len() ==> !begins_with(#[trigger] parts[j], "token="@),
            }
        }),
        has_token(base.push('#') + fragment) <==> token_of(base.push('#') + fragment) is Ok,
        !has_token(base),
{
    let url = base.push('#') + fragment;
    lemma_position_is(base, '#', 0, base.len() as int);
    lemma_position_is(url, '#', 0, base.len() as int);
    assert(url.skip(base.len() as int + 1) =~= fragment);
    lemma_token_among(split(fragment, '&'));
}

/// Every error says what is missing.
pub proof fn law_errors_say_what_is_missing(e: EnrollError)
    ensures
        e is MissingFragment ==> e.words() == "enrollment URL missing fragment"@,
        e is MissingToken ==> e.words() == "enrollment URL missing token=..."@,
{
}

} // verus!
