//! The token that kiro-cli keeps, and how it is found, judged and renewed.
use vstd::prelude::*;

use crate::clock::{
    clock_moment, has_four_digit_year, in_range, moment_now, not_before, rfc3339_moment,
    rfc3339_text, Moment, END_OF_YEAR_9999, FIRST_SECOND, LAST_SECOND,
};
use crate::http::{
    is_success, new_headers, no_headers, replied_well, success_code, CallView, HttpCall, Method,
    Reply,
};
use crate::json::{has_field, has_names, Json, JsonObject, JsonView};
use crate::text::join3;

verus! {

/// What lets the proxy call Kiro.
#[derive(Clone, Debug)]
pub struct KiroToken {
    pub access_token: String,
    pub refresh_token: String,
    pub expires_at: String,
    pub region: String,
}

/// What lets the proxy ask for a new token.
#[derive(Clone, Debug)]
pub struct DeviceRegistration {
    pub client_id: String,
    pub client_secret: String,
    pub region: String,
}

/// The answer to a request for a new token.
#[derive(Clone, Debug)]
pub struct RefreshTokenResponse {
    pub access_token: String,
    pub refresh_token: Option<String>,
    pub expires_in: i64,
}

/// The profile that kiro-cli keeps.
#[derive(Clone, Debug)]
pub struct ProfileData {
    pub arn: String,
}

/// A question to the database of kiro-cli: a statement and its one parameter.
#[derive(Clone, Debug)]
pub struct Query {
    pub sql: String,
    pub key: String,
}

/// The statement that reads a value of the table `auth_kv`.
pub open spec fn auth_sql() -> Seq<char> {
    "SELECT value FROM auth_kv WHERE key = ?1"@
}

/// The statement that reads a value of the table `state`.
pub open spec fn state_sql() -> Seq<char> {
    "SELECT value FROM state WHERE key = ?1"@
}

/// The keys under which a token may stand, in the order in which they are tried.
pub open spec fn token_keys() -> Seq<Seq<char>> {
    seq!["kirocli:odic:token"@, "kirocli:social:token"@, "codewhisperer:odic:token"@]
}

/// The keys under which a device registration may stand, in the order in which they are tried.
pub open spec fn registration_keys() -> Seq<Seq<char>> {
    seq!["kirocli:odic:device-registration"@, "codewhisperer:odic:device-registration"@]
}

/// The path of kiro-cli's database below the data directory.
pub open spec fn db_path() -> Seq<Seq<char>> {
    seq!["kiro-cli"@, "data.sqlite3"@]
}

/// A token that was loaded: whether it can be used at once, or has to be renewed first.
#[derive(Debug)]
pub enum Loaded {
    Ready(KiroToken),
    Expired(KiroToken),
}

/// What came of a question to the database: an error, no row, a value that cannot be read, or a
/// value.
#[derive(Debug)]
pub enum Lookup<T> {
    Failed,
    Missing,
    Invalid,
    Found(T),
}

/// Why nothing was loaded.
#[derive(Debug, Clone, Copy, PartialEq, Eq, Structural)]
pub enum LoadError {
    Database,
    NotFound,
    Invalid,
}

/// The keys that are still to be tried.
pub struct Search {
    pub keys: Vec<&'static str>,
    pub tried: usize,
}

/// Whether an outcome ends a search: an error does, and a value that can be read.
pub open spec fn decides<T>(outcome: Lookup<T>) -> bool {
    outcome is Failed || outcome is Found
}

/// What a search ends with, by an outcome that ends it.
pub open spec fn decision<T>(outcome: Lookup<T>) -> Result<T, LoadError> {
    match outcome {
        Lookup::Found(value) => Ok(value),
        Lookup::Failed => Err(LoadError::Database),
        _ => Err(LoadError::NotFound),
    }
}

/// What a search ends with when its keys have these outcomes: the first one that decides counts.
pub open spec fn search_result<T>(outcomes: Seq<Lookup<T>>) -> Result<T, LoadError>
    decreases outcomes.len(),
{
    if outcomes.len() == 0 {
        Err(LoadError::NotFound)
    } else if decides(outcomes[0]) {
        decision(outcomes[0])
    } else {
        search_result(outcomes.skip(1))
    }
}

impl Search {
    /// Whether the search is in order.
    pub open spec fn wf(&self) -> bool {
        self.tried <= self.keys@.len()
    }

    /// The keys that are still to be tried.
    pub open spec fn rest(&self) -> Seq<Seq<char>> {
        self.keys@.skip(self.tried as int).map_values(|k: &'static str| k@)
    }

    /// The next question; `None` where no key is left.
    pub fn query(&self) -> (r: Option<Query>)
        requires
            self.wf(),
        ensures
            match r {
                Some(q) => self.rest().len() > 0 && q.sql@ == auth_sql() && q.key@
                    == self.rest()[0],
                None => self.rest().len() == 0,
            },
    {
        if self.tried < self.keys.len() {
            Some(KiroToken::read_tb_auth_kv(self.keys[self.tried]))
        } else {
            None
        }
    }

    /// Takes the outcome of the last question. Returns what the search ends with; `None` where
    /// it goes on.
    pub fn answer<T>(&mut self, outcome: Lookup<T>) -> (r: Option<Result<T, LoadError>>)
        requires
            old(self).wf(),
            old(self).rest().len() > 0,
        ensures
            final(self).wf(),
            final(self).rest() == old(self).rest().skip(1),
            r == if decides(outcome) || old(self).rest().len() == 1 {
                Some(decision(outcome))
            } else {
                None
            },
            outcome matches Lookup::Found(value) ==> r == Some(Ok::<T, LoadError>(value)),
            outcome is Failed ==> r == Some(Err::<T, LoadError>(LoadError::Database)),
            outcome is Missing || outcome is Invalid ==> r == if old(self).rest().len() == 1 {
                Some(Err::<T, LoadError>(LoadError::NotFound))
            } else {
                None
            },
    {
        let ghost before = self.rest();
        let count = self.keys.len();
        assert(self.tried < count);
        self.tried += 1;
        assert(self.rest() =~= before.skip(1));
        match outcome {
            Lookup::Found(value) => Some(Ok(value)),
            Lookup::Failed => Some(Err(LoadError::Database)),
            _ => if self.tried == count {
                Some(Err(LoadError::NotFound))
            } else {
                None
            },
        }
    }
}

/// A search that asks and is answered in turn, once for each key, ends with what the first
/// deciding outcome says: each answer either ends it with that or leaves it to the other keys.
pub proof fn lemma_search_step<T>(outcomes: Seq<Lookup<T>>)
    requires
        outcomes.len() > 0,
    ensures
        search_result(outcomes) == if decides(outcomes[0]) || outcomes.len() == 1 {
            decision(outcomes[0])
        } else {
            search_result(outcomes.skip(1))
        },
{
    if outcomes.len() == 1 && !decides(outcomes[0]) {
        assert(search_result(outcomes.skip(1)) == Err::<T, LoadError>(LoadError::NotFound));
    }
}

/// A value is loaded if one can be read before the database fails, and it is the first such.
pub proof fn lemma_first_value_counts<T>(outcomes: Seq<Lookup<T>>, i: int)
    requires
        0 <= i < outcomes.len(),
        decides(outcomes[i]),
        forall|j: int| 0 <= j < i ==> !decides(#[trigger] outcomes[j]),
    ensures
        search_result(outcomes) == decision(outcomes[i]),
    decreases outcomes.len(),
{
    if i > 0 {
        assert(!decides(outcomes[0]));
        let rest = outcomes.skip(1);
        assert forall|j: int| 0 <= j < i - 1 implies !decides(#[trigger] rest[j]) by {
            assert(rest[j] == outcomes[j + 1]);
        }
        assert(rest[i - 1] == outcomes[i]);
        lemma_first_value_counts(rest, i - 1);
    }
}

/// Nothing is loaded where every key is missing or holds what cannot be read.
pub proof fn lemma_no_value_is_not_found<T>(outcomes: Seq<Lookup<T>>)
    requires
        forall|j: int| 0 <= j < outcomes.len() ==> !decides(#[trigger] outcomes[j]),
    ensures
        search_result(outcomes) == Err::<T, LoadError>(LoadError::NotFound),
    decreases outcomes.len(),
{
    if outcomes.len() > 0 {
        assert(!decides(outcomes[0]));
        let rest = outcomes.skip(1);
        assert forall|j: int| 0 <= j < rest.len() implies !decides(#[trigger] rest[j]) by {
            assert(rest[j] == outcomes[j + 1]);
        }
        lemma_no_value_is_not_found(rest);
    }
}

/// Whether a token that expires at `expires_at` has expired at `now`. A time that cannot be read
/// counts as over.
pub open spec fn expired(expires_at: Seq<char>, now: Moment) -> bool {
    match rfc3339_moment(expires_at) {
        Some(end) => not_before(now, end),
        None => true,
    }
}

/// Whether a token can get the life of `seconds` at `now`.
pub open spec fn can_expire_after(now: Moment, seconds: i64) -> bool {
    in_range(now.secs as int) && in_range(now.secs + seconds) && now.nanos < 1_000_000_000
}

/// When a token expires that gets the life of `seconds` at `now`.
pub open spec fn expiry(now: Moment, seconds: i64) -> Moment {
    Moment { secs: (now.secs + seconds) as i64, nanos: now.nanos }
}

/// Whether `text` says when a token expires that gets the life of `seconds` at `now`. It is read
/// as that moment where the year has four digits, and else is not read at all.
pub open spec fn is_expiry_text(text: Seq<char>, now: Moment, seconds: i64) -> bool {
    &&& text == rfc3339_text(expiry(now, seconds))
    &&& rfc3339_moment(text) == if has_four_digit_year(now.secs + seconds) {
        Some(expiry(now, seconds))
    } else {
        None
    }
}

/// Why no new token was given: no answer came, the request was refused, or the answer could not
/// be read.
#[derive(Debug, Clone, Copy, PartialEq, Eq, Structural)]
pub enum RefreshError {
    NoAnswer,
    Refused(u16),
    Unreadable,
}

/// What came of a request for a new token; `given` is what was read of the answer's body.
pub fn refresh_outcome(reply: Reply, given: Option<RefreshTokenResponse>) -> (r: Result<
    RefreshTokenResponse,
    RefreshError,
>)
    ensures
        r == match reply {
            Reply::Failed => Err::<RefreshTokenResponse, RefreshError>(RefreshError::NoAnswer),
            Reply::Answered(code) => if !success_code(code) {
                Err::<RefreshTokenResponse, RefreshError>(RefreshError::Refused(code))
            } else {
                match given {
                    Some(g) => Ok::<RefreshTokenResponse, RefreshError>(g),
                    None => Err::<RefreshTokenResponse, RefreshError>(RefreshError::Unreadable),
                }
            },
        },
        r is Ok <==> replied_well(reply) && given is Some,
{
    match reply {
        Reply::Failed => Err(RefreshError::NoAnswer),
        Reply::Answered(code) => if !is_success(code) {
            Err(RefreshError::Refused(code))
        } else {
            match given {
                Some(g) => Ok(g),
                None => Err(RefreshError::Unreadable),
            }
        },
    }
}

/// The body of a request for a new token.
pub open spec fn refresh_body(refresh_token: Seq<char>, reg: DeviceRegistration) -> JsonView {
    JsonView::Object(
        map![
            "grantType"@ => JsonView::Text("refresh_token"@),
            "clientId"@ => JsonView::Text(reg.client_id@),
            "clientSecret"@ => JsonView::Text(reg.client_secret@),
            "refreshToken"@ => JsonView::Text(refresh_token)
        ],
    )
}

/// Whether `after` is the token `before` once a new one was given at `now`. The refresh token
/// stays where the answer brings none.
pub open spec fn is_refreshed(
    before: KiroToken,
    after: KiroToken,
    given: RefreshTokenResponse,
    now: Moment,
) -> bool {
    &&& after.access_token@ == given.access_token@
    &&& after.refresh_token@ == match given.refresh_token {
        Some(t) => t@,
        None => before.refresh_token@,
    }
    &&& is_expiry_text(after.expires_at@, now, given.expires_in)
    &&& after.region@ == before.region@
}

impl KiroToken {
    /// The path of kiro-cli's database below the data directory, part by part.
    pub fn db_path() -> (r: Vec<&'static str>)
        ensures
            r@.map_values(|p: &'static str| p@) == db_path(),
            r@.len() == 2,
            r@[0]@ == "kiro-cli"@,
            r@[1]@ == "data.sqlite3"@,
    {
        let mut parts: Vec<&'static str> = Vec::new();
        parts.push("kiro-cli");
        parts.push("data.sqlite3");
        assert(parts@.map_values(|p: &'static str| p@) =~= db_path());
        parts
    }

    /// The question for a value of the table `auth_kv`.
    pub fn read_tb_auth_kv(key: &str) -> (r: Query)
        ensures
            r.sql@ == auth_sql(),
            r.sql@ == "SELECT value FROM auth_kv WHERE key = ?1"@,
            r.key@ == key@,
    {
        Query { sql: "SELECT value FROM auth_kv WHERE key = ?1".to_string(), key: key.to_string() }
    }

    /// The question for a value of the table `state`.
    pub fn read_tb_state(key: &str) -> (r: Query)
        ensures
            r.sql@ == state_sql(),
            r.sql@ == "SELECT value FROM state WHERE key = ?1"@,
            r.key@ == key@,
    {
        Query { sql: "SELECT value FROM state WHERE key = ?1".to_string(), key: key.to_string() }
    }

    /// Begins the search for the token.
    pub fn load_token() -> (r: Search)
        ensures
            r.wf(),
            r.rest() == token_keys(),
            r.rest().len() == 3,
            r.rest()[0] == "kirocli:odic:token"@,
            r.rest()[1] == "kirocli:social:token"@,
            r.rest()[2] == "codewhisperer:odic:token"@,
    {
        let mut keys: Vec<&'static str> = Vec::new();
        keys.push("kirocli:odic:token");
        keys.push("kirocli:social:token");
        keys.push("codewhisperer:odic:token");
        let r = Search { keys, tried: 0 };
        assert(r.rest() =~= token_keys());
        r
    }

    /// Begins the search for the device registration.
    pub fn load_device_registration() -> (r: Search)
        ensures
            r.wf(),
            r.rest() == registration_keys(),
            r.rest().len() == 2,
            r.rest()[0] == "kirocli:odic:device-registration"@,
            r.rest()[1] == "codewhisperer:odic:device-registration"@,
    {
        let mut keys: Vec<&'static str> = Vec::new();
        keys.push("kirocli:odic:device-registration");
        keys.push("codewhisperer:odic:device-registration");
        let r = Search { keys, tried: 0 };
        assert(r.rest() =~= registration_keys());
        r
    }

    /// The question for the profile.
    pub fn profile_query() -> (r: Query)
        ensures
            r.sql@ == state_sql(),
            r.key@ == "api.codewhisperer.profile"@,
    {
        KiroToken::read_tb_state("api.codewhisperer.profile")
    }

    /// The resource name of the profile, by what the database holds.
    pub fn load_profile_arn(stored: Lookup<ProfileData>) -> (r: Result<String, LoadError>)
        ensures
            r == match stored {
                Lookup::Found(profile) => Ok::<String, LoadError>(profile.arn),
                Lookup::Missing => Err::<String, LoadError>(LoadError::NotFound),
                Lookup::Invalid => Err::<String, LoadError>(LoadError::Invalid),
                Lookup::Failed => Err::<String, LoadError>(LoadError::Database),
            },
    {
        match stored {
            Lookup::Found(profile) => Ok(profile.arn),
            Lookup::Missing => Err(LoadError::NotFound),
            Lookup::Invalid => Err(LoadError::Invalid),
            Lookup::Failed => Err(LoadError::Database),
        }
    }

    /// Whether the token has expired at `now`.
    pub fn is_expired_at(&self, now: Moment) -> (r: bool)
        ensures
            r == expired(self.expires_at@, now),
    {
        match Moment::parse(self.expires_at.as_str()) {
            Some(end) => now.is_not_before(end),
            None => true,
        }
    }

    /// Whether the token has expired by now.
    pub fn is_expired(&self) -> (r: bool)
        ensures
            exists|now: Moment| #[trigger]
                clock_moment(now) && r == expired(self.expires_at@, now),
            rfc3339_moment(self.expires_at@) is None ==> r,
    {
        self.is_expired_at(moment_now())
    }

    /// Judges a token that was loaded, at `now`.
    pub fn load_refresh_at(token: KiroToken, now: Moment) -> (r: Loaded)
        ensures
            r == if expired(token.expires_at@, now) {
                Loaded::Expired(token)
            } else {
                Loaded::Ready(token)
            },
    {
        if token.is_expired_at(now) {
            Loaded::Expired(token)
        } else {
            Loaded::Ready(token)
        }
    }

    /// Judges a token that was loaded, by now.
    pub fn load_refresh(token: KiroToken) -> (r: Loaded)
        ensures
            exists|now: Moment| #[trigger]
                clock_moment(now) && r == if expired(token.expires_at@, now) {
                    Loaded::Expired(token)
                } else {
                    Loaded::Ready(token)
                },
            rfc3339_moment(token.expires_at@) is None ==> r is Expired,
    {
        KiroToken::load_refresh_at(token, moment_now())
    }

    /// When a token expires that gets the life of `seconds` at `now`.
    pub fn compute_expiry_at(now: Moment, seconds: i64) -> (r: String)
        requires
            can_expire_after(now, seconds),
        ensures
            is_expiry_text(r@, now, seconds),
    {
        now.text_after(seconds)
    }

    /// When a token expires that gets the life of `seconds` at `now`; `None` where the time crate
    /// cannot hold that moment.
    pub fn try_expiry_at(now: Moment, seconds: i64) -> (r: Option<String>)
        ensures
            r is Some <==> can_expire_after(now, seconds),
            r matches Some(s) ==> is_expiry_text(s@, now, seconds),
    {
        if fits(now, seconds) {
            Some(KiroToken::compute_expiry_at(now, seconds))
        } else {
            None
        }
    }

    /// When a token expires that gets the life of `seconds` now; `None` where the time crate
    /// cannot hold that moment.
    pub fn compute_expiry(seconds: i64) -> (r: Option<String>)
        ensures
            exists|now: Moment| #[trigger]
                clock_moment(now) && match r {
                    Some(s) => can_expire_after(now, seconds) && is_expiry_text(s@, now, seconds),
                    None => !can_expire_after(now, seconds),
                },
    {
        KiroToken::try_expiry_at(moment_now(), seconds)
    }

    /// The request for a new token.
    pub fn refresh_request(&self, reg: &DeviceRegistration) -> (r: HttpCall)
        ensures
            r@ == (CallView {
                method: Method::Post,
                url: "https://oidc."@ + reg.region@ + ".amazonaws.com/token"@,
                headers: no_headers(),
                bearer: None,
                query: Seq::empty(),
                body: Some(refresh_body(self.refresh_token@, *reg)),
                timeout_secs: None,
            }),
    {
        let body = JsonObject::new().with("grantType", Json::text("refresh_token")).with(
            "clientId",
            Json::text(reg.client_id.as_str()),
        ).with("clientSecret", Json::text(reg.client_secret.as_str())).with(
            "refreshToken",
            Json::text(self.refresh_token.as_str()),
        );
        let r = HttpCall {
            method: Method::Post,
            url: join3("https://oidc.", reg.region.as_str(), ".amazonaws.com/token"),
            headers: new_headers(),
            bearer: None,
            query: Vec::new(),
            body: Some(Json::Object(body)),
            timeout_secs: None,
        };
        assert(r@.query =~= Seq::<(Seq<char>, Seq<char>)>::empty());
        r
    }

    /// Takes a new token that was given at `now`.
    pub fn refresh_at(&mut self, given: RefreshTokenResponse, now: Moment)
        requires
            can_expire_after(now, given.expires_in),
        ensures
            is_refreshed(*old(self), *final(self), given, now),
    {
        let RefreshTokenResponse { access_token, refresh_token, expires_in } = given;
        self.access_token = access_token;
        if let Some(t) = refresh_token {
            self.refresh_token = t;
        }
        self.expires_at = KiroToken::compute_expiry_at(now, expires_in);
    }

    /// Takes a new token that is given at `now`. Returns whether its life can be held; where it
    /// cannot, the token stays as it is.
    pub fn try_refresh_at(&mut self, given: RefreshTokenResponse, now: Moment) -> (r: bool)
        ensures
            r == can_expire_after(now, given.expires_in),
            r ==> is_refreshed(*old(self), *final(self), given, now),
            !r ==> *final(self) == *old(self),
    {
        if fits(now, given.expires_in) {
            self.refresh_at(given, now);
            true
        } else {
            false
        }
    }

    /// Takes a new token that is given now. Returns whether its life can be held; where it
    /// cannot, the token stays as it is.
    pub fn refresh(&mut self, given: RefreshTokenResponse) -> (r: bool)
        ensures
            exists|now: Moment| #[trigger]
                clock_moment(now) && r == can_expire_after(now, given.expires_in) && if r {
                    is_refreshed(*old(self), *final(self), given, now)
                } else {
                    *final(self) == *old(self)
                },
    {
        self.try_refresh_at(given, moment_now())
    }
}

/// Whether a token can get the life of `seconds` at `now`.
pub fn fits(now: Moment, seconds: i64) -> (r: bool)
    ensures
        r == can_expire_after(now, seconds),
{
    if now.secs < FIRST_SECOND || now.secs > LAST_SECOND || now.nanos >= 1_000_000_000 {
        return false;
    }
    let end = now.secs as i128 + seconds as i128;
    FIRST_SECOND as i128 <= end && end <= LAST_SECOND as i128
}

/// A token that got the life of `seconds` at `start` has expired exactly from that moment on:
/// already at the moment itself, and at once where the life is not positive. Its life may not
/// last beyond the year 9999, whose end cannot be read.
pub proof fn lemma_expiry_is_judged(
    text: Seq<char>,
    start: Moment,
    seconds: i64,
    now: Moment,
)
    requires
        can_expire_after(start, seconds),
        is_expiry_text(text, start, seconds),
        start.secs + seconds <= END_OF_YEAR_9999,
        clock_moment(now),
    ensures
        expired(text, now) <==> not_before(
            now,
            Moment { secs: (start.secs + seconds) as i64, nanos: start.nanos },
        ),
{
}

/// A life that lasts beyond the year 9999 cannot be read, so such a token counts as expired.
pub proof fn lemma_life_beyond_9999_is_over(
    text: Seq<char>,
    start: Moment,
    seconds: i64,
    now: Moment,
)
    requires
        can_expire_after(start, seconds),
        is_expiry_text(text, start, seconds),
        start.secs + seconds > END_OF_YEAR_9999,
    ensures
        expired(text, now),
{
}

/// A token that was renewed has not expired until its life is over, and has expired from then
/// on. Its life may not last beyond the year 9999.
pub proof fn lemma_refreshed_token_lives(
    before: KiroToken,
    after: KiroToken,
    given: RefreshTokenResponse,
    start: Moment,
    now: Moment,
)
    requires
        can_expire_after(start, given.expires_in),
        start.secs + given.expires_in <= END_OF_YEAR_9999,
        is_refreshed(before, after, given, start),
        clock_moment(now),
    ensures
        expired(after.expires_at@, now) <==> not_before(
            now,
            Moment { secs: (start.secs + given.expires_in) as i64, nanos: start.nanos },
        ),
{
    lemma_expiry_is_judged(after.expires_at@, start, given.expires_in, now);
}

/// A token that has expired stays so.
pub proof fn lemma_expired_stays(expires_at: Seq<char>, now: Moment, later: Moment)
    requires
        expired(expires_at, now),
        not_before(later, now),
    ensures
        expired(expires_at, later),
{
}

/// Whether the key is missing, or holds what cannot be read.
pub open spec fn passed_over<T>(outcome: Lookup<T>) -> bool {
    outcome is Missing || outcome is Invalid
}

/// The first key that is not passed over ends the search: with its value, or with the error of
/// the database. Nothing is found where all are passed over.
pub proof fn lemma_search_ends_at_first<T>(before: Seq<Lookup<T>>, value: T, after: Seq<Lookup<T>>)
    requires
        forall|i: int| 0 <= i < before.len() ==> passed_over(#[trigger] before[i]),
    ensures
        search_result(before.push(Lookup::Found(value)) + after) == Ok::<T, LoadError>(value),
        search_result(before.push(Lookup::Failed) + after) == Err::<T, LoadError>(
            LoadError::Database,
        ),
        search_result(before) == Err::<T, LoadError>(LoadError::NotFound),
    decreases before.len(),
{
    let found = before.push(Lookup::Found(value)) + after;
    let failed = before.push(Lookup::Failed) + after;
    if before.len() > 0 {
        assert(passed_over(before[0]));
        let rest = before.skip(1);
        assert forall|i: int| 0 <= i < rest.len() implies passed_over(#[trigger] rest[i]) by {
            assert(rest[i] == before[i + 1]);
        }
        lemma_search_ends_at_first(rest, value, after);
        assert(found[0] == before[0] && failed[0] == before[0]);
        assert(found.skip(1) =~= rest.push(Lookup::Found(value)) + after);
        assert(failed.skip(1) =~= rest.push(Lookup::Failed) + after);
    }
}

/// A token has expired exactly from the moment on that it names, and at once where it names none.
pub proof fn lemma_token_expires_at_its_time(expires_at: Seq<char>, now: Moment)
    ensures
        rfc3339_moment(expires_at) matches Some(end) ==> (expired(expires_at, now) <==> now.secs
            > end.secs || (now.secs == end.secs && now.nanos >= end.nanos)),
        rfc3339_moment(expires_at) is None ==> expired(expires_at, now),
{
}

/// A token can get any life at a moment that the time crate can hold, as long as the crate can
/// hold its end too.
pub proof fn lemma_lives_that_can_be_held(now: Moment, seconds: i64)
    ensures
        can_expire_after(now, seconds) <==> {
            &&& -8_334_601_228_800 <= now.secs <= 8_210_266_876_799
            &&& -8_334_601_228_800 <= now.secs + seconds <= 8_210_266_876_799
            &&& now.nanos <= 999_999_999
        },
{
}

/// The time that is written for a token is read as that many seconds after its start.
pub proof fn lemma_expiry_is_read_back(text: Seq<char>, now: Moment, seconds: i64)
    requires
        is_expiry_text(text, now, seconds),
        can_expire_after(now, seconds),
        has_four_digit_year(now.secs + seconds),
    ensures
        rfc3339_moment(text) matches Some(end) && end.secs == now.secs + seconds && end.nanos
            == now.nanos,
{
}

/// A token that is renewed takes the new access token and life, and the new refresh token if one
/// is given. Its region stays.
pub proof fn lemma_refreshed_token_is_the_given(
    before: KiroToken,
    after: KiroToken,
    given: RefreshTokenResponse,
    now: Moment,
)
    requires
        is_refreshed(before, after, given, now),
    ensures
        after.access_token@ == given.access_token@,
        given.refresh_token matches Some(t) ==> after.refresh_token@ == t@,
        given.refresh_token is None ==> after.refresh_token@ == before.refresh_token@,
        after.expires_at@ == rfc3339_text(
            Moment { secs: (now.secs + given.expires_in) as i64, nanos: now.nanos },
        ),
        after.region@ == before.region@,
{
}

/// A request for a new token holds the old refresh token and the registration of the device.
pub proof fn lemma_refresh_body_has_all(refresh_token: Seq<char>, reg: DeviceRegistration)
    ensures
        has_names(
            refresh_body(refresh_token, reg),
            set!["grantType"@, "clientId"@, "clientSecret"@, "refreshToken"@],
        ),
        has_field(
            refresh_body(refresh_token, reg),
            "grantType"@,
            JsonView::Text("refresh_token"@),
        ),
        has_field(refresh_body(refresh_token, reg), "clientId"@, JsonView::Text(reg.client_id@)),
        has_field(
            refresh_body(refresh_token, reg),
            "clientSecret"@,
            JsonView::Text(reg.client_secret@),
        ),
        has_field(
            refresh_body(refresh_token, reg),
            "refreshToken"@,
            JsonView::Text(refresh_token),
        ),
{
    reveal_strlit("grantType");
    reveal_strlit("clientId");
    reveal_strlit("clientSecret");
    reveal_strlit("refreshToken");
    assert("grantType"@.len() == 9 && "clientId"@.len() == 8);
    assert("clientSecret"@[0] == 'c' && "refreshToken"@[0] == 'r');
    assert("clientSecret"@.len() == 12 && "refreshToken"@.len() == 12);
    let v = refresh_body(refresh_token, reg)->Object_0;
    assert(v.dom() =~= set!["grantType"@, "clientId"@, "clientSecret"@, "refreshToken"@]);
}

/// All keys from the first untried one on are still to be tried, in their order.
pub proof fn lemma_rest_is_untried(search: Search, i: int)
    requires
        search.wf(),
        0 <= i < search.keys@.len() - search.tried,
    ensures
        search.rest().len() == search.keys@.len() - search.tried,
        search.rest()[i] == search.keys@[search.tried + i]@,
{
}

} // verus!
