use vstd::prelude::*;

use crate::models::ApiList;
use crate::models::Friend;
use crate::models::Game;
use crate::models::GameData;
use crate::models::GameInfo;
use crate::models::GetAvailableEndpointsResponse;
use crate::models::GetGameInfoResponse;
use crate::models::GetUserDetailsRequest;
use crate::models::GetUserSummariesRequest;
use crate::models::SteamEndpoint;
use crate::models::SteamMethod;
use crate::models::SteamMethodParameter;
use crate::models::PlayStyleCategories;
use crate::models::PcRequirements;
use crate::models::UserSummary;
use crate::text::dec_chars;
use crate::text::is_valid_u64_string;
use crate::text::parse_u64;
use crate::text::parsed_u64;
use crate::text::u64_to_string;
use vstd::string::*;

verus! {

/// Error taxonomy of the query layer.
///
/// `Decode` is a malformed body or a required field missing from an
/// otherwise successful response; `Transport` a network failure whose
/// retries were exhausted; `RateLimited` an upstream throttle whose
/// retries were exhausted; `UpstreamStatus` a non-2xx status: any
/// status other than 429 and 503 surfaces immediately without retry,
/// while an unavailable upstream (503) surfaces as `UpstreamStatus`
/// only once its retries are exhausted; `MissingApiKey` the statically
/// configured key being absent, detected before any network call.
#[derive(Debug, PartialEq, Eq, Structural, Clone, Copy)]
pub enum Error {
    Decode,
    Transport,
    RateLimited,
    UpstreamStatus(u16),
    MissingApiKey,
}

/// What one attempt of a query produced: an HTTP response with its
/// status and body text, or a transport-level failure (connection
/// reset, timeout) before any response arrived.
#[derive(Debug)]
pub enum FetchOutcome {
    Response(u16, String),
    TransportFailure,
}

/// The transient failure kinds, which are retried with backoff: a
/// transport failure, an upstream throttle (429), and an unavailable
/// upstream (503).
#[derive(Debug, PartialEq, Eq, Structural, Clone, Copy)]
pub enum TransientKind {
    Network,
    RateLimit,
    Unavailable,
}

/// How one attempt is classified: terminate with the body, retry after
/// a backoff delay, or fail immediately with the given status.
#[derive(Debug)]
pub enum Classification {
    Success(String),
    Transient(TransientKind),
    Permanent(u16),
}

pub open spec fn is_success_status(status: u16) -> bool {
    200 <= status < 300
}

pub open spec fn classification_of(outcome: FetchOutcome) -> Classification {
    match outcome {
        FetchOutcome::Response(status, body) => {
            if is_success_status(status) {
                Classification::Success(body)
            } else if status == 429 {
                Classification::Transient(TransientKind::RateLimit)
            } else if status == 503 {
                Classification::Transient(TransientKind::Unavailable)
            } else {
                Classification::Permanent(status)
            }
        },
        FetchOutcome::TransportFailure => Classification::Transient(TransientKind::Network),
    }
}

/// Classifies one attempt's outcome: a 2xx response terminates the
/// query successfully; a 429 or 503 response and any transport
/// failure are transient and to be retried; any other status is a
/// permanent failure, surfaced immediately.
pub fn classify_response(outcome: FetchOutcome) -> (r: Classification)
    ensures
        r == classification_of(outcome),
{
    match outcome {
        FetchOutcome::Response(status, body) => {
            if 200 <= status && status < 300 {
                Classification::Success(body)
            } else if status == 429 {
                Classification::Transient(TransientKind::RateLimit)
            } else if status == 503 {
                Classification::Transient(TransientKind::Unavailable)
            } else {
                Classification::Permanent(status)
            }
        },
        FetchOutcome::TransportFailure => Classification::Transient(TransientKind::Network),
    }
}

/// The error surfaced when the backoff policy gives up on a transient
/// failure kind.
pub fn give_up_error(kind: TransientKind) -> (r: Error)
    ensures
        r == give_up_error_of(kind),
{
    match kind {
        TransientKind::Network => Error::Transport,
        TransientKind::RateLimit => Error::RateLimited,
        TransientKind::Unavailable => Error::UpstreamStatus(503),
    }
}

pub open spec fn give_up_error_of(kind: TransientKind) -> Error {
    match kind {
        TransientKind::Network => Error::Transport,
        TransientKind::RateLimit => Error::RateLimited,
        TransientKind::Unavailable => Error::UpstreamStatus(503),
    }
}

#[verifier::external_type_specification]
#[verifier::external_body]
#[verifier::reject_recursive_types(C)]
pub struct ExExponentialBackoff<C>(backoff::exponential::ExponentialBackoff<C>);

#[verifier::external_type_specification]
#[verifier::external_body]
pub struct ExSystemClock(backoff::SystemClock);

/// Relies on `backoff::ExponentialBackoff::default()`: the crate's
/// default exponential policy (500 ms initial interval, multiplier
/// 1.5, 15 min maximum elapsed time), whose clock starts now.
#[verifier::external_body]
fn default_backoff() -> backoff::exponential::ExponentialBackoff<backoff::SystemClock> {
    backoff::ExponentialBackoff::default()
}

/// Relies on `backoff::backoff::Backoff::next_backoff`: the next
/// randomized exponential-backoff delay, in milliseconds, or `None`
/// once the policy's maximum elapsed time has passed. The result
/// depends on the clock and on randomization, so nothing is promised
/// of it.
#[verifier::external_body]
fn next_backoff_ms(b: &mut backoff::exponential::ExponentialBackoff<backoff::SystemClock>) -> (r:
    Option<u64>) {
    backoff::backoff::Backoff::next_backoff(b).map(|d| d.as_millis() as u64)
}

/// One logical query's retry state: response classification driving
/// the crate's exponential backoff policy.
pub struct RetryPolicy {
    backoff: backoff::exponential::ExponentialBackoff<backoff::SystemClock>,
}

/// What the caller of a query loop does next: terminate with the
/// response body, sleep for the given delay and retry, or fail.
#[derive(Debug)]
pub enum RetryStep {
    Succeed(String),
    RetryAfter(u64),
    Fail(Error),
}

impl RetryPolicy {
    /// A fresh policy with the default backoff, started now.
    pub fn new() -> (r: RetryPolicy) {
        RetryPolicy { backoff: default_backoff() }
    }

    /// Decides what to do with one attempt's outcome: terminate with
    /// the body on a 2xx response; fail immediately with the status
    /// on any response that is neither 2xx, 429 nor 503; on a
    /// transient outcome (a 429, a 503 or a transport failure), retry
    /// after the policy's next backoff delay, or fail with the
    /// transient kind's error once the policy gives up. The attempt
    /// count is unbounded; only the policy's maximum elapsed time
    /// ends the retrying.
    pub fn on_event(&mut self, outcome: FetchOutcome) -> (r: RetryStep)
        ensures
            match classification_of(outcome) {
                Classification::Success(body) => r == RetryStep::Succeed(body),
                Classification::Permanent(code) => r == RetryStep::Fail(
                    Error::UpstreamStatus(code),
                ),
                Classification::Transient(kind) => (r matches RetryStep::RetryAfter(_)) || r
                    == RetryStep::Fail(give_up_error_of(kind)),
            },
    {
        match classify_response(outcome) {
            Classification::Success(body) => RetryStep::Succeed(body),
            Classification::Permanent(code) => RetryStep::Fail(Error::UpstreamStatus(code)),
            Classification::Transient(kind) => match next_backoff_ms(&mut self.backoff) {
                Option::Some(ms) => RetryStep::RetryAfter(ms),
                Option::None => RetryStep::Fail(give_up_error(kind)),
            },
        }
    }
}

/// What the retry loop makes of a finite script of attempt outcomes:
/// the first non-transient outcome decides the result, together with
/// how many transient outcomes were retried before it; a script
/// holding only transient outcomes decides nothing.
pub open spec fn retry_script_outcome(events: Seq<FetchOutcome>) -> Option<
    (int, Result<String, Error>),
>
    decreases events.len(),
{
    if events.len() == 0 {
        Option::None
    } else {
        match classification_of(events[0]) {
            Classification::Success(body) => Option::Some((0int, Result::Ok(body))),
            Classification::Permanent(code) => Option::Some(
                (0int, Result::Err(Error::UpstreamStatus(code))),
            ),
            Classification::Transient(_) => match retry_script_outcome(events.drop_first()) {
                Option::None => Option::None,
                Option::Some(p) => Option::Some((p.0 + 1, p.1)),
            },
        }
    }
}

/// Runs the retry loop's decisions over a pre-recorded script of
/// attempt outcomes — a deterministic stand-in for the live loop,
/// whose backoff delays depend on the clock: the first non-transient
/// outcome decides, and the count of retried transient outcomes
/// before it is returned beside the result.
pub fn run_retry_script(events: &Vec<FetchOutcome>) -> (r: Option<(usize, Result<String, Error>)>)
    ensures
        match retry_script_outcome(events@) {
            Option::None => r is None,
            Option::Some(p) => r matches Some(q) && q.0 == p.0 && q.1 == p.1,
        },
{
    let mut i: usize = 0;
    proof {
        assert(events@.skip(0) =~= events@);
    }
    while i < events.len()
        invariant
            i <= events@.len(),
            match retry_script_outcome(events@) {
                Option::None => retry_script_outcome(events@.skip(i as int)) is None,
                Option::Some(p) => retry_script_outcome(events@.skip(i as int)) matches Option::Some(q)
                    && q.0 == p.0 - i && q.1 == p.1,
            },
        decreases events@.len() - i,
    {
        proof {
            assert(events@.skip(i as int)[0] == events@[i as int]);
            assert(events@.skip(i as int).drop_first() =~= events@.skip(i + 1));
        }
        match &events[i] {
            FetchOutcome::Response(status, body) => {
                let st = *status;
                if 200 <= st && st < 300 {
                    return Some((i, Ok(body.clone())));
                } else if st != 429 && st != 503 {
                    return Some((i, Err(Error::UpstreamStatus(st))));
                }
            },
            FetchOutcome::TransportFailure => {},
        }
        i += 1;
    }
    proof {
        assert(events@.skip(events@.len() as int) =~= Seq::<FetchOutcome>::empty());
    }
    None
}

#[verifier::external_type_specification]
#[verifier::external_body]
pub struct ExValue(serde_json::Value);

/// What the owned-games envelope decodes to, as a function of the
/// body text alone: `None` for a malformed body or list; otherwise
/// the decoded (appid, name) records, or no list at all where the
/// envelope lacks one (an account owning nothing).
pub uninterp spec fn owned_games_payload(body: Seq<char>) -> Option<
    Option<Seq<(u64, Seq<char>)>>,
>;

pub open spec fn games_pairs(s: Seq<Game>) -> Seq<(u64, Seq<char>)> {
    s.map_values(|g: Game| (g.appid, g.name@))
}

/// Relies on `serde_json::from_str` and `serde_json::Value`'s
/// accessors: walks the owned-games envelope, whose decoded records
/// are a function of the body text alone.
#[verifier::external_body]
fn extract_owned_games(body: &str) -> (r: Result<Option<Vec<Game>>, Error>)
    ensures
        match r {
            Result::Ok(op) => match op {
                Option::Some(games) => owned_games_payload(body@) matches Option::Some(p)
                    && p matches Option::Some(q) && games_pairs(games@) == q,
                Option::None => owned_games_payload(body@) == Option::Some(
                    Option::None::<Seq<(u64, Seq<char>)>>,
                ),
            },
            Result::Err(e) => owned_games_payload(body@) is None && e == Error::Decode,
        },
{
    let r: Option<Option<Vec<Game>>> = serde_json::from_str::<serde_json::Value>(body).ok()
        .and_then(|v| {
            let resp = v.get("response")?.as_object()?.clone();
            if !resp.contains_key("games") {
                return Some(None);
            }
            resp.get("games")?.as_array()?.iter().map(|g| Some(Game {
                appid: g.get("appid")?.as_u64()?,
                name: g.get("name")?.as_str()?.to_string(),
            })).collect::<Option<Vec<Game>>>().map(Some)
        });
    r.ok_or(Error::Decode)
}

/// Decodes an owned-games response body into the account's library.
///
/// An envelope lacking the games list entirely — an account owning
/// nothing — decodes as the empty library, not an error; a malformed
/// body, envelope or record is a `Decode` error.
pub fn decode_owned_games(body: &str) -> (r: Result<Vec<Game>, Error>)
    ensures
        (r is Ok) == (owned_games_payload(body@) is Some),
        r matches Ok(games) ==> games_pairs(games@) == (match owned_games_payload(body@) {
            Option::Some(Option::Some(p)) => p,
            _ => Seq::<(u64, Seq<char>)>::empty(),
        }),
        r matches Err(e) ==> e == Error::Decode,
{
    match extract_owned_games(body) {
        Result::Ok(Option::Some(games)) => Ok(games),
        Result::Ok(Option::None) => {
            let games: Vec<Game> = Vec::new();
            proof {
                assert(games_pairs(games@) =~= Seq::<(u64, Seq<char>)>::empty());
            }
            Ok(games)
        },
        Result::Err(e) => Err(e),
    }
}

/// What the friend-list envelope decodes to, as a function of the
/// body text alone: the friends' string-encoded ids, or `None` for a
/// malformed body or a missing list.
pub uninterp spec fn friend_list_payload(body: Seq<char>) -> Option<Seq<Seq<char>>>;

pub open spec fn friend_id_strings(s: Seq<Friend>) -> Seq<Seq<char>> {
    s.map_values(|f: Friend| f.steamid@)
}

/// Relies on `serde_json::from_str` and `serde_json::Value`'s
/// accessors: walks the friend-list envelope, whose decoded records
/// are a function of the body text alone.
#[verifier::external_body]
fn extract_friend_list(body: &str) -> (r: Result<Vec<Friend>, Error>)
    ensures
        match r {
            Result::Ok(fs) => friend_list_payload(body@) matches Option::Some(p)
                && friend_id_strings(fs@) == p,
            Result::Err(e) => friend_list_payload(body@) is None && e == Error::Decode,
        },
{
    let r: Option<Vec<Friend>> = serde_json::from_str::<serde_json::Value>(body).ok()
        .and_then(|v| {
            v.get("friendslist")?.get("friends")?.as_array()?.iter().map(|f| Some(Friend {
                steamid: f.get("steamid")?.as_str()?.to_string(),
            })).collect()
        });
    r.ok_or(Error::Decode)
}

/// Decodes a friend-list response body.
///
/// Unlike the owned-games envelope, a friend-list envelope missing
/// its list is a `Decode` error, as is a malformed body or record.
pub fn decode_friend_list(body: &str) -> (r: Result<Vec<Friend>, Error>)
    ensures
        (r is Ok) == (friend_list_payload(body@) is Some),
        r matches Ok(fs) ==> Option::Some(friend_id_strings(fs@)) == friend_list_payload(body@),
        r matches Err(e) ==> e == Error::Decode,
{
    extract_friend_list(body)
}

/// What the player-summaries envelope decodes to, as a function of
/// the body text alone: per player the string-encoded id, the persona
/// name and the optional real name; `None` for a malformed body or a
/// missing list.
pub uninterp spec fn summaries_payload(body: Seq<char>) -> Option<
    Seq<(Seq<char>, Seq<char>, Option<Seq<char>>)>,
>;

pub open spec fn summary_fields(s: Seq<UserSummary>) -> Seq<
    (Seq<char>, Seq<char>, Option<Seq<char>>),
> {
    s.map_values(
        |u: UserSummary|
            (
                u.steamid@,
                u.personaname@,
                match u.realname {
                    Option::Some(rn) => Option::Some(rn@),
                    Option::None => Option::None,
                },
            ),
    )
}

/// Relies on `serde_json::from_str` and `serde_json::Value`'s
/// accessors: walks the player-summaries envelope, whose decoded
/// records are a function of the body text alone.
#[verifier::external_body]
fn extract_user_summaries(body: &str) -> (r: Result<Vec<UserSummary>, Error>)
    ensures
        match r {
            Result::Ok(us) => summaries_payload(body@) matches Option::Some(p)
                && summary_fields(us@) == p,
            Result::Err(e) => summaries_payload(body@) is None && e == Error::Decode,
        },
{
    let r: Option<Vec<UserSummary>> = serde_json::from_str::<serde_json::Value>(body).ok()
        .and_then(|v| {
            v.get("response")?.get("players")?.as_array()?.iter().map(|p| Some(UserSummary {
                steamid: p.get("steamid")?.as_str()?.to_string(),
                personaname: p.get("personaname")?.as_str()?.to_string(),
                realname: match p.get("realname") {
                    None => None,
                    Some(x) if x.is_null() => None,
                    Some(x) => Some(x.as_str()?.to_string()),
                },
            })).collect()
        });
    r.ok_or(Error::Decode)
}

/// Decodes a player-summaries response body.
///
/// A summaries envelope missing its list is a `Decode` error, as is
/// a malformed body or record.
pub fn decode_user_summaries(body: &str) -> (r: Result<Vec<UserSummary>, Error>)
    ensures
        (r is Ok) == (summaries_payload(body@) is Some),
        r matches Ok(us) ==> Option::Some(summary_fields(us@)) == summaries_payload(body@),
        r matches Err(e) ==> e == Error::Decode,
{
    extract_user_summaries(body)
}

/// Keeps the collected values where every element is present,
/// nothing where any element is missing.
pub open spec fn collect_somes<T>(s: Seq<Option<T>>) -> Option<Seq<T>>
    decreases s.len(),
{
    if s.len() == 0 {
        Option::Some(Seq::empty())
    } else {
        match (collect_somes(s.drop_last()), s.last()) {
            (Option::Some(rest), Option::Some(x)) => Option::Some(rest.push(x)),
            _ => Option::None,
        }
    }
}

pub proof fn lemma_collect_somes_characterization<T>(s: Seq<Option<T>>)
    ensures
        (collect_somes(s) is Some) <==> (forall|i: int|
            0 <= i < s.len() ==> (#[trigger] s[i]) is Some),
        collect_somes(s) matches Some(r) ==> r.len() == s.len() && forall|i: int|
            0 <= i < s.len() ==> r[i] == (#[trigger] s[i])->Some_0,
    decreases s.len(),
{
    if s.len() > 0 {
        let dl = s.drop_last();
        lemma_collect_somes_characterization(dl);
        assert(forall|i: int| 0 <= i < dl.len() ==> #[trigger] dl[i] == s[i]);
        assert(s.last() == s[s.len() - 1]);
        if collect_somes(dl) is Some && s.last() is Some {
            let rest = collect_somes(dl)->Some_0;
            let x = s.last()->Some_0;
            assert(collect_somes(s) == Option::Some(rest.push(x)));
            assert forall|i: int| 0 <= i < s.len() implies (#[trigger] s[i]) is Some by {
                if i < s.len() - 1 {
                    assert(dl[i] is Some);
                }
            }
            assert forall|i: int| 0 <= i < s.len() implies rest.push(x)[i] == (
            #[trigger] s[i])->Some_0 by {
                if i < s.len() - 1 {
                    assert(rest[i] == dl[i]->Some_0);
                }
            }
        } else {
            assert(collect_somes(s) is None);
            if s.last() is None {
                assert(s[s.len() - 1] is None);
            } else {
                let w = choose|i: int| 0 <= i < dl.len() && !((#[trigger] dl[i]) is Some);
                assert(s[w] is None);
            }
        }
    }
}

pub open spec fn string_views(s: Seq<String>) -> Seq<Seq<char>> {
    s.map_values(|t: String| t@)
}

/// What the app-details body splits into, as a function of the body
/// text alone: per top-level member its key and its value's JSON
/// text; `None` where the body is not a JSON object.
pub uninterp spec fn game_info_entries(body: Seq<char>) -> Option<Seq<(Seq<char>, Seq<char>)>>;

/// Relies on `serde_json::from_str`, `serde_json::Value::Object` and
/// `serde_json::to_string`: the top-level object's entries as (key,
/// value text) pairs, a function of the body text alone.
#[verifier::external_body]
fn extract_game_info_entries(body: &str) -> (r: Result<Vec<(String, String)>, Error>)
    ensures
        match r {
            Result::Ok(entries) => game_info_entries(body@) matches Option::Some(es)
                && entries@.map_values(|e: (String, String)| (e.0@, e.1@)) == es,
            Result::Err(e) => game_info_entries(body@) is None && e == Error::Decode,
        },
{
    let r: Option<Vec<(String, String)>> = serde_json::from_str::<serde_json::Value>(body).ok()
        .and_then(|v| match v {
            serde_json::Value::Object(m) => m.into_iter().map(|(k, e)| Some((
                k,
                serde_json::to_string(&e).ok()?,
            ))).collect(),
            _ => None,
        });
    r.ok_or(Error::Decode)
}

/// What one app-details entry's `data` member is, as a function of
/// the entry text alone: its JSON text, or no data where the member
/// is absent or null (a delisted or region-restricted title); `None`
/// where the entry is not a JSON object.
pub uninterp spec fn entry_data_of(entry: Seq<char>) -> Option<Option<Seq<char>>>;

/// Relies on `serde_json::from_str`, `Value::get`, `Value::is_null`
/// and `serde_json::to_string`: one entry's `data` member as JSON
/// text, a function of the entry text alone.
#[verifier::external_body]
fn extract_entry_data(entry: &str) -> (r: Result<Option<String>, Error>)
    ensures
        match r {
            Result::Ok(Option::Some(dt)) => entry_data_of(entry@) == Option::Some(
                Option::Some(dt@),
            ),
            Result::Ok(Option::None) => entry_data_of(entry@) == Option::Some(
                Option::None::<Seq<char>>,
            ),
            Result::Err(e) => entry_data_of(entry@) is None && e == Error::Decode,
        },
{
    let r: Option<Option<String>> = serde_json::from_str::<serde_json::Value>(entry).ok()
        .and_then(|e| {
            if !e.is_object() {
                return None;
            }
            match e.get("data") {
                None => Some(None),
                Some(d) if d.is_null() => Some(None),
                Some(d) => Some(Some(serde_json::to_string(d).ok()?)),
            }
        });
    r.ok_or(Error::Decode)
}

/// What a title's category list decodes to, as a function of the
/// data text alone: per category its numeric id (fitting u8) and its
/// description; `None` where the list is absent or malformed.
pub uninterp spec fn categories_of(data_text: Seq<char>) -> Option<Seq<(u8, Seq<char>)>>;

pub open spec fn category_pairs(s: Seq<PlayStyleCategories>) -> Seq<(u8, Seq<char>)> {
    s.map_values(|c: PlayStyleCategories| (c.id, c.description@))
}

/// Relies on `serde_json::from_str` and `serde_json::Value`'s
/// accessors: the `categories` list of a data object, a function of
/// the data text alone.
#[verifier::external_body]
fn extract_categories(data_text: &str) -> (r: Result<Vec<PlayStyleCategories>, Error>)
    ensures
        match r {
            Result::Ok(cats) => categories_of(data_text@) matches Option::Some(p)
                && category_pairs(cats@) == p,
            Result::Err(e) => categories_of(data_text@) is None && e == Error::Decode,
        },
{
    let r: Option<Vec<PlayStyleCategories>> = serde_json::from_str::<serde_json::Value>(data_text)
        .ok().and_then(|d| d.get("categories")?.as_array()?.iter().map(|c| Some(
            PlayStyleCategories {
                description: c.get("description")?.as_str()?.to_string(),
                id: u8::try_from(c.get("id")?.as_u64()?).ok()?,
            },
        )).collect());
    r.ok_or(Error::Decode)
}

pub open spec fn recommended_view(o: Option<Option<String>>) -> Option<Option<Seq<char>>> {
    match o {
        Option::None => Option::None,
        Option::Some(Option::None) => Option::Some(Option::None),
        Option::Some(Option::Some(s)) => Option::Some(Option::Some(s@)),
    }
}

/// What a data object's scalar fields decode to, as a function of the
/// data text alone: the title name, the numeric appid, and the
/// optional hardware-requirement text (absent where the requirements
/// member is missing, null or not an object); `None` where name or
/// appid are absent or mistyped.
pub uninterp spec fn game_data_fields_of(data_text: Seq<char>) -> Option<
    (Seq<char>, u64, Option<Option<Seq<char>>>),
>;

/// Relies on `serde_json::from_str` and `serde_json::Value`'s
/// accessors: the name, appid and requirements fields of a data
/// object, a function of the data text alone.
#[verifier::external_body]
fn extract_game_data_fields(data_text: &str) -> (r: Result<
    (String, u64, Option<Option<String>>),
    Error,
>)
    ensures
        match r {
            Result::Ok(f) => game_data_fields_of(data_text@) == Option::Some(
                (f.0@, f.1, recommended_view(f.2)),
            ),
            Result::Err(e) => game_data_fields_of(data_text@) is None && e == Error::Decode,
        },
{
    let r: Option<(String, u64, Option<Option<String>>)> = serde_json::from_str::<
        serde_json::Value,
    >(data_text).ok().and_then(|d| {
        let pc = match d.get("pc_requirements").filter(|p| p.is_object()) {
            None => None,
            Some(p) => Some(match p.get("recommended") {
                None => None,
                Some(x) if x.is_null() => None,
                Some(x) => Some(x.as_str()?.to_string()),
            }),
        };
        Some((d.get("name")?.as_str()?.to_string(), d.get("steam_appid")?.as_u64()?, pc))
    });
    r.ok_or(Error::Decode)
}

/// The plain view of one title's catalogue data: name, appid, the
/// category (id, description) pairs, and the optional
/// hardware-requirement text.
pub type GameDataView = (Seq<char>, u64, Seq<(u8, Seq<char>)>, Option<Option<Seq<char>>>);

pub open spec fn data_view(d: GameData) -> GameDataView {
    (
        d.name@,
        d.steam_appid,
        category_pairs(d.categories@),
        match d.pc_requirements {
            Option::None => Option::None,
            Option::Some(p) => Option::Some(
                match p.recommended {
                    Option::None => Option::None,
                    Option::Some(rec) => Option::Some(rec@),
                },
            ),
        },
    )
}

pub open spec fn info_view(i: GameInfo) -> Option<GameDataView> {
    match i.data {
        Option::None => Option::None,
        Option::Some(d) => Option::Some(data_view(d)),
    }
}

/// What one app-details entry decodes to: no data for a delisted
/// title, the decoded data fields otherwise; `None` where the entry
/// or its data are malformed.
pub open spec fn decoded_entry(entry: Seq<char>) -> Option<Option<GameDataView>> {
    match entry_data_of(entry) {
        Option::None => Option::None,
        Option::Some(Option::None) => Option::Some(Option::None),
        Option::Some(Option::Some(dt)) => match (categories_of(dt), game_data_fields_of(dt)) {
            (Option::Some(cats), Option::Some(f)) => Option::Some(
                Option::Some((f.0, f.1, cats, f.2)),
            ),
            _ => Option::None,
        },
    }
}

/// What one (key, entry text) pair decodes to: the key parsed as an
/// appid beside the decoded entry; `None` where the key is not a
/// decimal appid or the entry is malformed.
pub open spec fn decoded_entry_pair(e: (Seq<char>, Seq<char>)) -> Option<
    (u64, Option<GameDataView>),
> {
    if !is_valid_u64_string(e.0) {
        Option::None
    } else {
        match decoded_entry(e.1) {
            Option::None => Option::None,
            Option::Some(d) => Option::Some((parsed_u64(e.0) as u64, d)),
        }
    }
}

/// What a whole app-details body decodes to, entry by entry, as a
/// function of the body text alone; `None` where the body is not a
/// JSON object or any entry is malformed.
pub open spec fn game_info_payload(body: Seq<char>) -> Option<Seq<(u64, Option<GameDataView>)>> {
    match game_info_entries(body) {
        Option::None => Option::None,
        Option::Some(es) => collect_somes(
            es.map_values(|e: (Seq<char>, Seq<char>)| decoded_entry_pair(e)),
        ),
    }
}

pub open spec fn response_view(resp: GetGameInfoResponse) -> Seq<(u64, Option<GameDataView>)> {
    resp.games@.map_values(|e: (u64, GameInfo)| (e.0, info_view(e.1)))
}

fn decode_data_text(dt: &str) -> (r: Result<GameData, Error>)
    ensures
        (r is Ok) == (categories_of(dt@) is Some && game_data_fields_of(dt@) is Some),
        r matches Ok(d) ==> {
            &&& categories_of(dt@) matches Option::Some(cats) && game_data_fields_of(dt@)
                matches Option::Some(f) && data_view(d) == (f.0, f.1, cats, f.2)
        },
        r matches Err(e) ==> e == Error::Decode,
{
    let cats = match extract_categories(dt) {
        Result::Ok(c) => c,
        Result::Err(e) => {
            return Err(e);
        },
    };
    let fields = match extract_game_data_fields(dt) {
        Result::Ok(f) => f,
        Result::Err(e) => {
            return Err(e);
        },
    };
    let pc_requirements = match fields.2 {
        Option::None => Option::None,
        Option::Some(rec) => Option::Some(PcRequirements { recommended: rec }),
    };
    Ok(GameData { categories: cats, pc_requirements, name: fields.0, steam_appid: fields.1 })
}

fn decode_entry_text(entry: &str) -> (r: Result<GameInfo, Error>)
    ensures
        (r is Ok) == (decoded_entry(entry@) is Some),
        r matches Ok(info) ==> Option::Some(info_view(info)) == decoded_entry(entry@),
        r matches Err(e) ==> e == Error::Decode,
{
    match extract_entry_data(entry) {
        Result::Err(e) => Err(e),
        Result::Ok(Option::None) => Ok(GameInfo { data: Option::None }),
        Result::Ok(Option::Some(dt)) => match decode_data_text(dt.as_str()) {
            Result::Err(e) => Err(e),
            Result::Ok(d) => Ok(GameInfo { data: Option::Some(d) }),
        },
    }
}

/// Decodes an app-details response body: one metadata entry per
/// top-level member, the key being the string-encoded appid.
///
/// Succeeds exactly when the body is a JSON object whose every member
/// decodes: a decimal key, and a value that is an object whose `data`
/// member — where present and non-null — carries the title's name,
/// appid and categories. An entry without data (a delisted or
/// region-restricted title) decodes as metadata without data, not an
/// error; any malformed key or entry is a `Decode` error.
pub fn decode_game_info(body: &str) -> (r: Result<GetGameInfoResponse, Error>)
    ensures
        (r is Ok) == (game_info_payload(body@) is Some),
        r matches Ok(resp) ==> Option::Some(response_view(resp)) == game_info_payload(body@),
        r matches Err(e) ==> e == Error::Decode,
{
    let entries = match extract_game_info_entries(body) {
        Result::Ok(es) => es,
        Result::Err(e) => {
            return Err(e);
        },
    };
    let ghost es = game_info_entries(body@)->Some_0;
    let ghost pairs = es.map_values(|e: (Seq<char>, Seq<char>)| decoded_entry_pair(e));
    proof {
        lemma_collect_somes_characterization(pairs);
    }
    let mut games: Vec<(u64, GameInfo)> = Vec::new();
    let mut i: usize = 0;
    while i < entries.len()
        invariant
            i <= entries@.len(),
            games@.len() == i,
            game_info_entries(body@) == Option::Some(es),
            entries@.map_values(|e: (String, String)| (e.0@, e.1@)) == es,
            pairs == es.map_values(|e: (Seq<char>, Seq<char>)| decoded_entry_pair(e)),
            forall|k: int|
                0 <= k < i ==> (#[trigger] pairs[k]) is Some && (games@[k].0, info_view(
                    games@[k].1,
                )) == pairs[k]->Some_0,
        decreases entries@.len() - i,
    {
        proof {
            assert(entries@.map_values(|e: (String, String)| (e.0@, e.1@))[i as int] == (
                entries@[i as int].0@,
                entries@[i as int].1@,
            ));
            assert(es[i as int] == (entries@[i as int].0@, entries@[i as int].1@));
            assert(es.map_values(|e: (Seq<char>, Seq<char>)| decoded_entry_pair(e))[i as int]
                == decoded_entry_pair(es[i as int]));
            assert(pairs[i as int] == decoded_entry_pair(es[i as int]));
        }
        let id = match parse_u64(entries[i].0.as_str()) {
            Option::Some(id) => id,
            Option::None => {
                proof {
                    assert(pairs[i as int] is None);
                    lemma_collect_somes_characterization(pairs);
                    assert(collect_somes(pairs) is None);
                    assert(game_info_payload(body@) is None);
                }
                return Err(Error::Decode);
            },
        };
        let info = match decode_entry_text(entries[i].1.as_str()) {
            Result::Ok(info) => info,
            Result::Err(e) => {
                proof {
                    assert(pairs[i as int] is None);
                    lemma_collect_somes_characterization(pairs);
                    assert(collect_somes(pairs) is None);
                    assert(game_info_payload(body@) is None);
                }
                return Err(e);
            },
        };
        proof {
            assert(pairs[i as int] == Option::Some((id, info_view(info))));
        }
        games.push((id, info));
        i += 1;
    }
    proof {
        lemma_collect_somes_characterization(pairs);
        assert(forall|k: int| 0 <= k < pairs.len() ==> (#[trigger] pairs[k]) is Some);
        assert(collect_somes(pairs) is Some);
        let p = collect_somes(pairs)->Some_0;
        let m = games@.map_values(|e: (u64, GameInfo)| (e.0, info_view(e.1)));
        assert(m.len() == p.len());
        assert forall|k: int| 0 <= k < m.len() implies m[k] == p[k] by {
            assert(m[k] == (games@[k].0, info_view(games@[k].1)));
            assert(p[k] == pairs[k]->Some_0);
        }
        assert(m =~= p);
    }
    Ok(GetGameInfoResponse { games })
}

/// What the endpoint-listing body splits into, as a function of the
/// body text alone: one JSON text per declared interface; `None`
/// where the envelope or its interface list is absent or malformed.
pub uninterp spec fn interface_texts_of(body: Seq<char>) -> Option<Seq<Seq<char>>>;

/// Relies on `serde_json::from_str`, `serde_json::Value`'s accessors
/// and `serde_json::to_string`: the interface list of the endpoint
/// listing as JSON texts, a function of the body text alone.
#[verifier::external_body]
fn extract_interface_texts(body: &str) -> (r: Result<Vec<String>, Error>)
    ensures
        match r {
            Result::Ok(ts) => interface_texts_of(body@) matches Option::Some(p) && string_views(
                ts@,
            ) == p,
            Result::Err(e) => interface_texts_of(body@) is None && e == Error::Decode,
        },
{
    let r: Option<Vec<String>> = serde_json::from_str::<serde_json::Value>(body).ok().and_then(
        |v| v.get("apilist")?.get("interfaces")?.as_array()?.iter().map(
            |e| serde_json::to_string(e).ok(),
        ).collect(),
    );
    r.ok_or(Error::Decode)
}

/// What one interface text decodes to, as a function of the text
/// alone: the interface name and one JSON text per method; `None`
/// where name or method list are absent or mistyped.
pub uninterp spec fn interface_fields_of(text: Seq<char>) -> Option<(Seq<char>, Seq<Seq<char>>)>;

/// Relies on `serde_json::from_str`, `serde_json::Value`'s accessors
/// and `serde_json::to_string`: one interface's name and method
/// texts, a function of the interface text alone.
#[verifier::external_body]
fn extract_interface_fields(text: &str) -> (r: Result<(String, Vec<String>), Error>)
    ensures
        match r {
            Result::Ok(f) => interface_fields_of(text@) == Option::Some(
                (f.0@, string_views(f.1@)),
            ),
            Result::Err(e) => interface_fields_of(text@) is None && e == Error::Decode,
        },
{
    let r: Option<(String, Vec<String>)> = serde_json::from_str::<serde_json::Value>(text).ok()
        .and_then(|v| Some((
            v.get("name")?.as_str()?.to_string(),
            v.get("methods")?.as_array()?.iter().map(|m| serde_json::to_string(m).ok()).collect::<
                Option<Vec<String>>,
            >()?,
        )));
    r.ok_or(Error::Decode)
}

/// What one method text decodes to, as a function of the text alone:
/// the method name, version, HTTP verb, and one JSON text per
/// declared parameter; `None` where any of them is absent or
/// mistyped.
pub uninterp spec fn method_fields_of(text: Seq<char>) -> Option<
    (Seq<char>, i64, Seq<char>, Seq<Seq<char>>),
>;

/// Relies on `serde_json::from_str`, `serde_json::Value`'s accessors
/// and `serde_json::to_string`: one method's fields and parameter
/// texts, a function of the method text alone.
#[verifier::external_body]
fn extract_method_fields(text: &str) -> (r: Result<(String, i64, String, Vec<String>), Error>)
    ensures
        match r {
            Result::Ok(f) => method_fields_of(text@) == Option::Some(
                (f.0@, f.1, f.2@, string_views(f.3@)),
            ),
            Result::Err(e) => method_fields_of(text@) is None && e == Error::Decode,
        },
{
    let r: Option<(String, i64, String, Vec<String>)> = serde_json::from_str::<serde_json::Value>(
        text,
    ).ok().and_then(|v| Some((
        v.get("name")?.as_str()?.to_string(),
        v.get("version")?.as_i64()?,
        v.get("httpmethod")?.as_str()?.to_string(),
        v.get("parameters")?.as_array()?.iter().map(|p| serde_json::to_string(p).ok()).collect::<
            Option<Vec<String>>,
        >()?,
    )));
    r.ok_or(Error::Decode)
}

/// What one parameter text decodes to, as a function of the text
/// alone: the parameter name, its declared type, and whether it is
/// optional; `None` where any of them is absent or mistyped.
pub uninterp spec fn parameter_fields_of(text: Seq<char>) -> Option<(Seq<char>, Seq<char>, bool)>;

/// Relies on `serde_json::from_str` and `serde_json::Value`'s
/// accessors: one declared parameter's fields, a function of the
/// parameter text alone.
#[verifier::external_body]
fn extract_parameter_fields(text: &str) -> (r: Result<(String, String, bool), Error>)
    ensures
        match r {
            Result::Ok(f) => parameter_fields_of(text@) == Option::Some((f.0@, f.1@, f.2)),
            Result::Err(e) => parameter_fields_of(text@) is None && e == Error::Decode,
        },
{
    let r: Option<(String, String, bool)> = serde_json::from_str::<serde_json::Value>(text).ok()
        .and_then(|v| Some((
            v.get("name")?.as_str()?.to_string(),
            v.get("type")?.as_str()?.to_string(),
            v.get("optional")?.as_bool()?,
        )));
    r.ok_or(Error::Decode)
}

/// The plain view of one declared parameter: name, type, optional.
pub type ParameterView = (Seq<char>, Seq<char>, bool);

/// The plain view of one method: name, version, HTTP verb,
/// parameters.
pub type MethodView = (Seq<char>, i64, Seq<char>, Seq<(Seq<char>, Seq<char>, bool)>);

/// The plain view of one interface: name and methods.
pub type EndpointView = (
    Seq<char>,
    Seq<(Seq<char>, i64, Seq<char>, Seq<(Seq<char>, Seq<char>, bool)>)>,
);

/// What one method text fully decodes to: its fields with every
/// parameter decoded, the version fitting an i32; `None` where any
/// part is malformed.
pub open spec fn decoded_method(text: Seq<char>) -> Option<MethodView> {
    match method_fields_of(text) {
        Option::None => Option::None,
        Option::Some(f) => if !(-0x8000_0000 <= f.1 <= 0x7fff_ffff) {
            Option::None
        } else {
            match collect_somes(f.3.map_values(|pt: Seq<char>| parameter_fields_of(pt))) {
                Option::None => Option::None,
                Option::Some(ps) => Option::Some((f.0, f.1, f.2, ps)),
            }
        },
    }
}

/// What one interface text fully decodes to: its name with every
/// method decoded; `None` where any part is malformed.
pub open spec fn decoded_interface(text: Seq<char>) -> Option<EndpointView> {
    match interface_fields_of(text) {
        Option::None => Option::None,
        Option::Some(f) => match collect_somes(
            f.1.map_values(|mt: Seq<char>| decoded_method(mt)),
        ) {
            Option::None => Option::None,
            Option::Some(ms) => Option::Some((f.0, ms)),
        },
    }
}

/// What a whole endpoint-listing body decodes to, as a function of
/// the body text alone; `None` where the envelope or any interface,
/// method or parameter is malformed.
pub open spec fn endpoints_payload(body: Seq<char>) -> Option<Seq<EndpointView>> {
    match interface_texts_of(body) {
        Option::None => Option::None,
        Option::Some(ts) => collect_somes(ts.map_values(|t: Seq<char>| decoded_interface(t))),
    }
}

pub open spec fn parameter_view(p: SteamMethodParameter) -> ParameterView {
    (p.name@, p.parameter_type@, p.optional)
}

pub open spec fn method_view(m: SteamMethod) -> MethodView {
    (
        m.name@,
        m.version as i64,
        m.httpmethod@,
        m.parameters@.map_values(|p: SteamMethodParameter| parameter_view(p)),
    )
}

pub open spec fn endpoint_view(e: SteamEndpoint) -> EndpointView {
    (e.name@, e.methods@.map_values(|m: SteamMethod| method_view(m)))
}

pub open spec fn endpoints_view(r: GetAvailableEndpointsResponse) -> Seq<EndpointView> {
    r.apilist.interfaces@.map_values(|e: SteamEndpoint| endpoint_view(e))
}

fn decode_parameter_texts(texts: &Vec<String>) -> (r: Result<Vec<SteamMethodParameter>, Error>)
    ensures
        (r is Ok) == (collect_somes(
            string_views(texts@).map_values(|t: Seq<char>| parameter_fields_of(t)),
        ) is Some),
        r matches Ok(ps) ==> Option::Some(
            ps@.map_values(|p: SteamMethodParameter| parameter_view(p)),
        ) == collect_somes(string_views(texts@).map_values(|t: Seq<char>| parameter_fields_of(t))),
        r matches Err(e) ==> e == Error::Decode,
{
    let ghost opts = string_views(texts@).map_values(|t: Seq<char>| parameter_fields_of(t));
    let mut out: Vec<SteamMethodParameter> = Vec::new();
    let mut i: usize = 0;
    while i < texts.len()
        invariant
            i <= texts@.len(),
            out@.len() == i,
            opts == string_views(texts@).map_values(|t: Seq<char>| parameter_fields_of(t)),
            forall|k: int|
                0 <= k < i ==> (#[trigger] opts[k]) is Some && parameter_view(out@[k])
                    == opts[k]->Some_0,
        decreases texts@.len() - i,
    {
        proof {
            assert(string_views(texts@)[i as int] == texts@[i as int]@);
            assert(string_views(texts@).map_values(|t: Seq<char>| parameter_fields_of(t))[i as int]
                == parameter_fields_of(texts@[i as int]@));
        }
        match extract_parameter_fields(texts[i].as_str()) {
            Result::Ok(f) => {
                out.push(SteamMethodParameter { name: f.0, parameter_type: f.1, optional: f.2 });
            },
            Result::Err(e) => {
                proof {
                    assert(opts[i as int] is None);
                    lemma_collect_somes_characterization(opts);
                }
                return Err(e);
            },
        }
        i += 1;
    }
    proof {
        lemma_collect_somes_characterization(opts);
        assert(forall|k: int| 0 <= k < opts.len() ==> (#[trigger] opts[k]) is Some);
        let p = collect_somes(opts)->Some_0;
        let m = out@.map_values(|x: SteamMethodParameter| parameter_view(x));
        assert forall|k: int| 0 <= k < m.len() implies m[k] == p[k] by {
            assert(m[k] == parameter_view(out@[k]));
            assert(p[k] == opts[k]->Some_0);
        }
        assert(m =~= p);
    }
    Ok(out)
}

fn decode_method_texts(texts: &Vec<String>) -> (r: Result<Vec<SteamMethod>, Error>)
    ensures
        (r is Ok) == (collect_somes(
            string_views(texts@).map_values(|t: Seq<char>| decoded_method(t)),
        ) is Some),
        r matches Ok(ms) ==> Option::Some(ms@.map_values(|m: SteamMethod| method_view(m)))
            == collect_somes(string_views(texts@).map_values(|t: Seq<char>| decoded_method(t))),
        r matches Err(e) ==> e == Error::Decode,
{
    let ghost opts = string_views(texts@).map_values(|t: Seq<char>| decoded_method(t));
    let mut out: Vec<SteamMethod> = Vec::new();
    let mut i: usize = 0;
    while i < texts.len()
        invariant
            i <= texts@.len(),
            out@.len() == i,
            opts == string_views(texts@).map_values(|t: Seq<char>| decoded_method(t)),
            forall|k: int|
                0 <= k < i ==> (#[trigger] opts[k]) is Some && method_view(out@[k])
                    == opts[k]->Some_0,
        decreases texts@.len() - i,
    {
        proof {
            assert(string_views(texts@)[i as int] == texts@[i as int]@);
            assert(string_views(texts@).map_values(|t: Seq<char>| decoded_method(t))[i as int]
                == decoded_method(texts@[i as int]@));
        }
        let fields = match extract_method_fields(texts[i].as_str()) {
            Result::Ok(f) => f,
            Result::Err(e) => {
                proof {
                    assert(opts[i as int] is None);
                    lemma_collect_somes_characterization(opts);
                }
                return Err(e);
            },
        };
        if fields.1 < -0x8000_0000i64 || fields.1 > 0x7fff_ffffi64 {
            proof {
                assert(opts[i as int] is None);
                lemma_collect_somes_characterization(opts);
            }
            return Err(Error::Decode);
        }
        let parameters = match decode_parameter_texts(&fields.3) {
            Result::Ok(ps) => ps,
            Result::Err(e) => {
                proof {
                    assert(opts[i as int] is None);
                    lemma_collect_somes_characterization(opts);
                }
                return Err(e);
            },
        };
        out.push(
            SteamMethod {
                name: fields.0,
                version: fields.1 as i32,
                httpmethod: fields.2,
                parameters,
            },
        );
        i += 1;
    }
    proof {
        lemma_collect_somes_characterization(opts);
        assert(forall|k: int| 0 <= k < opts.len() ==> (#[trigger] opts[k]) is Some);
        let p = collect_somes(opts)->Some_0;
        let m = out@.map_values(|x: SteamMethod| method_view(x));
        assert forall|k: int| 0 <= k < m.len() implies m[k] == p[k] by {
            assert(m[k] == method_view(out@[k]));
            assert(p[k] == opts[k]->Some_0);
        }
        assert(m =~= p);
    }
    Ok(out)
}

fn decode_interface_texts(texts: &Vec<String>) -> (r: Result<Vec<SteamEndpoint>, Error>)
    ensures
        (r is Ok) == (collect_somes(
            string_views(texts@).map_values(|t: Seq<char>| decoded_interface(t)),
        ) is Some),
        r matches Ok(es) ==> Option::Some(es@.map_values(|e: SteamEndpoint| endpoint_view(e)))
            == collect_somes(string_views(texts@).map_values(|t: Seq<char>| decoded_interface(t))),
        r matches Err(e) ==> e == Error::Decode,
{
    let ghost opts = string_views(texts@).map_values(|t: Seq<char>| decoded_interface(t));
    let mut out: Vec<SteamEndpoint> = Vec::new();
    let mut i: usize = 0;
    while i < texts.len()
        invariant
            i <= texts@.len(),
            out@.len() == i,
            opts == string_views(texts@).map_values(|t: Seq<char>| decoded_interface(t)),
            forall|k: int|
                0 <= k < i ==> (#[trigger] opts[k]) is Some && endpoint_view(out@[k])
                    == opts[k]->Some_0,
        decreases texts@.len() - i,
    {
        proof {
            assert(string_views(texts@)[i as int] == texts@[i as int]@);
            assert(string_views(texts@).map_values(|t: Seq<char>| decoded_interface(t))[i as int]
                == decoded_interface(texts@[i as int]@));
        }
        let fields = match extract_interface_fields(texts[i].as_str()) {
            Result::Ok(f) => f,
            Result::Err(e) => {
                proof {
                    assert(opts[i as int] is None);
                    lemma_collect_somes_characterization(opts);
                }
                return Err(e);
            },
        };
        let methods = match decode_method_texts(&fields.1) {
            Result::Ok(ms) => ms,
            Result::Err(e) => {
                proof {
                    assert(opts[i as int] is None);
                    lemma_collect_somes_characterization(opts);
                }
                return Err(e);
            },
        };
        out.push(SteamEndpoint { name: fields.0, methods });
        i += 1;
    }
    proof {
        lemma_collect_somes_characterization(opts);
        assert(forall|k: int| 0 <= k < opts.len() ==> (#[trigger] opts[k]) is Some);
        let p = collect_somes(opts)->Some_0;
        let m = out@.map_values(|x: SteamEndpoint| endpoint_view(x));
        assert forall|k: int| 0 <= k < m.len() implies m[k] == p[k] by {
            assert(m[k] == endpoint_view(out@[k]));
            assert(p[k] == opts[k]->Some_0);
        }
        assert(m =~= p);
    }
    Ok(out)
}

/// Decodes the endpoint-listing response body: the upstream's
/// interfaces, their methods and declared parameters.
///
/// Succeeds exactly when the envelope and every interface, method and
/// parameter decode; the decoded listing is then fixed, entry by
/// entry. Any missing or mistyped field is a `Decode` error.
pub fn decode_available_endpoints(body: &str) -> (r: Result<GetAvailableEndpointsResponse, Error>)
    ensures
        (r is Ok) == (endpoints_payload(body@) is Some),
        r matches Ok(resp) ==> Option::Some(endpoints_view(resp)) == endpoints_payload(body@),
        r matches Err(e) ==> e == Error::Decode,
{
    let texts = match extract_interface_texts(body) {
        Result::Ok(ts) => ts,
        Result::Err(e) => {
            return Err(e);
        },
    };
    let interfaces = match decode_interface_texts(&texts) {
        Result::Ok(es) => es,
        Result::Err(e) => {
            return Err(e);
        },
    };
    Ok(GetAvailableEndpointsResponse { apilist: ApiList { interfaces } })
}

/// The owned-games endpoint address.
pub fn owned_games_url() -> (r: String)
    ensures
        r@ == ("http://api.steampowered.com/IPlayerService/GetOwnedGames/v0001/")@,
{
    String::from_str("http://api.steampowered.com/IPlayerService/GetOwnedGames/v0001/")
}

/// The endpoint-listing address.
pub fn available_endpoints_url() -> (r: String)
    ensures
        r@ == ("http://api.steampowered.com/ISteamWebAPIUtil/GetSupportedAPIList/v0001/")@,
{
    String::from_str("http://api.steampowered.com/ISteamWebAPIUtil/GetSupportedAPIList/v0001/")
}

/// The friend-list endpoint address.
pub fn friend_list_url() -> (r: String)
    ensures
        r@ == ("http://api.steampowered.com/ISteamUser/GetFriendList/v0001/")@,
{
    String::from_str("http://api.steampowered.com/ISteamUser/GetFriendList/v0001/")
}

/// The player-summaries endpoint address.
pub fn user_summaries_url() -> (r: String)
    ensures
        r@ == ("http://api.steampowered.com/ISteamUser/GetPlayerSummaries/v0002/")@,
{
    String::from_str("http://api.steampowered.com/ISteamUser/GetPlayerSummaries/v0002/")
}

/// The per-title details address of the storefront.
pub fn game_info_url() -> (r: String)
    ensures
        r@ == ("http://store.steampowered.com/api/appdetails/")@,
{
    String::from_str("http://store.steampowered.com/api/appdetails/")
}

/// The ids joined for the `steamids` parameter, separated by commas.
pub open spec fn comma_joined(ids: Seq<u64>) -> Seq<char>
    decreases ids.len(),
{
    if ids.len() == 0 {
        Seq::empty()
    } else if ids.len() == 1 {
        dec_chars(ids.last() as int)
    } else {
        comma_joined(ids.drop_last()) + (",")@ + dec_chars(ids.last() as int)
    }
}

fn comma_join_ids(ids: &Vec<u64>) -> (r: String)
    ensures
        r@ == comma_joined(ids@),
{
    let mut out = String::new();
    let mut i: usize = 0;
    proof {
        assert(ids@.take(0) =~= Seq::<u64>::empty());
    }
    while i < ids.len()
        invariant
            i <= ids@.len(),
            out@ == comma_joined(ids@.take(i as int)),
        decreases ids@.len() - i,
    {
        if i > 0 {
            out.append(",");
        }
        let ds = u64_to_string(ids[i]);
        out.append(ds.as_str());
        proof {
            assert(ids@.take(i + 1).drop_last() =~= ids@.take(i as int));
            assert(ids@.take(i + 1).last() == ids@[i as int]);
            if i == 0 {
                assert(ids@.take(1).len() == 1);
            }
        }
        i += 1;
    }
    proof {
        assert(ids@.take(ids@.len() as int) =~= ids@);
    }
    out
}

/// The query parameters of one owned-games request: the API key, the
/// account id, and the static format and filter switches.
pub fn owned_games_params(api_key: &str, request: &GetUserDetailsRequest) -> (r: Vec<
    (String, String),
>)
    ensures
        r@.len() == 7,
        r@[0].0@ == ("key")@ && r@[0].1@ == api_key@,
        r@[1].0@ == ("steamId")@ && r@[1].1@ == dec_chars(request.id as int),
        r@[2].0@ == ("format")@ && r@[2].1@ == ("json")@,
        r@[3].0@ == ("include_appinfo")@ && r@[3].1@ == ("true")@,
        r@[4].0@ == ("include_played_free_games")@ && r@[4].1@ == ("false")@,
        r@[5].0@ == ("appids_filter")@ && r@[5].1@ == ("false")@,
        r@[6].0@ == ("language")@ && r@[6].1@ == ("EN")@,
{
    let mut r: Vec<(String, String)> = Vec::new();
    r.push((String::from_str("key"), String::from_str(api_key)));
    r.push((String::from_str("steamId"), u64_to_string(request.id)));
    r.push((String::from_str("format"), String::from_str("json")));
    r.push((String::from_str("include_appinfo"), String::from_str("true")));
    r.push((String::from_str("include_played_free_games"), String::from_str("false")));
    r.push((String::from_str("appids_filter"), String::from_str("false")));
    r.push((String::from_str("language"), String::from_str("EN")));
    r
}

/// The query parameters of one friend-list request.
pub fn friend_list_params(api_key: &str, request: &GetUserDetailsRequest) -> (r: Vec<
    (String, String),
>)
    ensures
        r@.len() == 2,
        r@[0].0@ == ("key")@ && r@[0].1@ == api_key@,
        r@[1].0@ == ("steamid")@ && r@[1].1@ == dec_chars(request.id as int),
{
    let mut r: Vec<(String, String)> = Vec::new();
    r.push((String::from_str("key"), String::from_str(api_key)));
    r.push((String::from_str("steamid"), u64_to_string(request.id)));
    r
}

/// The query parameters of one player-summaries request: the batched
/// ids are sent comma-joined in a single parameter.
pub fn user_summaries_params(api_key: &str, request: &GetUserSummariesRequest) -> (r: Vec<
    (String, String),
>)
    ensures
        r@.len() == 2,
        r@[0].0@ == ("key")@ && r@[0].1@ == api_key@,
        r@[1].0@ == ("steamids")@ && r@[1].1@ == comma_joined(request.ids@),
{
    let mut r: Vec<(String, String)> = Vec::new();
    r.push((String::from_str("key"), String::from_str(api_key)));
    r.push((String::from_str("steamids"), comma_join_ids(&request.ids)));
    r
}

/// The query parameters of the endpoint-listing request.
pub fn available_endpoints_params(api_key: &str) -> (r: Vec<(String, String)>)
    ensures
        r@.len() == 1,
        r@[0].0@ == ("key")@ && r@[0].1@ == api_key@,
{
    let mut r: Vec<(String, String)> = Vec::new();
    r.push((String::from_str("key"), String::from_str(api_key)));
    r
}

/// The query parameters of one per-title details request: a single
/// appid per call.
pub fn game_info_params(gameid: u64) -> (r: Vec<(String, String)>)
    ensures
        r@.len() == 1,
        r@[0].0@ == ("appids")@ && r@[0].1@ == dec_chars(gameid as int),
{
    let mut r: Vec<(String, String)> = Vec::new();
    r.push((String::from_str("appids"), u64_to_string(gameid)));
    r
}

} // verus!
