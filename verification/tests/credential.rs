use yzz_llm_proxy::clock::Moment;
use yzz_llm_proxy::http::{Method, Reply, Status};
use yzz_llm_proxy::provider::kiro::client_helper::{
    get_valid_token, get_valid_token_at, token_after_refresh,
};
use yzz_llm_proxy::provider::kiro::credential::{
    fits, refresh_outcome, DeviceRegistration, KiroToken, LoadError, Loaded, Lookup, ProfileData,
    RefreshError, RefreshTokenResponse, Search,
};

fn token(expires_at: &str) -> KiroToken {
    KiroToken {
        access_token: "access".to_string(),
        refresh_token: "refresh".to_string(),
        expires_at: expires_at.to_string(),
        region: "us-east-1".to_string(),
    }
}

fn run(mut search: Search, outcomes: Vec<Lookup<u8>>) -> (Vec<String>, Option<Result<u8, LoadError>>) {
    let mut asked = Vec::new();
    for outcome in outcomes {
        match search.query() {
            Some(query) => {
                assert_eq!(query.sql, "SELECT value FROM auth_kv WHERE key = ?1");
                asked.push(query.key);
            }
            None => return (asked, None),
        }
        if let Some(result) = search.answer(outcome) {
            return (asked, Some(result));
        }
    }
    (asked, None)
}

#[test]
fn the_questions_to_the_database() {
    let auth = KiroToken::read_tb_auth_kv("k");
    assert_eq!((auth.sql.as_str(), auth.key.as_str()), ("SELECT value FROM auth_kv WHERE key = ?1", "k"));
    let state = KiroToken::read_tb_state("k");
    assert_eq!((state.sql.as_str(), state.key.as_str()), ("SELECT value FROM state WHERE key = ?1", "k"));
    let profile = KiroToken::profile_query();
    assert_eq!(profile.sql, "SELECT value FROM state WHERE key = ?1");
    assert_eq!(profile.key, "api.codewhisperer.profile");
    assert_eq!(KiroToken::db_path(), vec!["kiro-cli", "data.sqlite3"]);
}

#[test]
fn token_keys_are_tried_in_order() {
    let (asked, result) =
        run(KiroToken::load_token(), vec![Lookup::Missing, Lookup::Invalid, Lookup::Found(3)]);
    assert_eq!(
        asked,
        vec!["kirocli:odic:token", "kirocli:social:token", "codewhisperer:odic:token"]
    );
    assert_eq!(result, Some(Ok(3)));
}

#[test]
fn registration_keys_are_tried_in_order() {
    let (asked, result) = run(
        KiroToken::load_device_registration(),
        vec![Lookup::Missing, Lookup::Invalid, Lookup::Found(3)],
    );
    assert_eq!(
        asked,
        vec!["kirocli:odic:device-registration", "codewhisperer:odic:device-registration"]
    );
    assert_eq!(result, Some(Err(LoadError::NotFound)));
}

#[test]
fn the_first_value_ends_the_search() {
    let (asked, result) = run(KiroToken::load_token(), vec![Lookup::Found(1), Lookup::Found(2)]);
    assert_eq!(asked.len(), 1);
    assert_eq!(result, Some(Ok(1)));
}

#[test]
fn a_database_that_fails_ends_the_search() {
    let (asked, result) = run(KiroToken::load_token(), vec![Lookup::Missing, Lookup::Failed]);
    assert_eq!(asked.len(), 2);
    assert_eq!(result, Some(Err(LoadError::Database)));
}

#[test]
fn no_value_is_not_found() {
    let (_, result) =
        run(KiroToken::load_token(), vec![Lookup::Missing, Lookup::Missing, Lookup::Invalid]);
    assert_eq!(result, Some(Err(LoadError::NotFound)));
}

#[test]
fn the_profile_by_what_is_stored() {
    let found = Lookup::Found(ProfileData { arn: "arn:x".to_string() });
    assert_eq!(KiroToken::load_profile_arn(found), Ok("arn:x".to_string()));
    assert_eq!(KiroToken::load_profile_arn(Lookup::Missing), Err(LoadError::NotFound));
    assert_eq!(KiroToken::load_profile_arn(Lookup::Invalid), Err(LoadError::Invalid));
    assert_eq!(KiroToken::load_profile_arn(Lookup::Failed), Err(LoadError::Database));
}

#[test]
fn moments_are_read_in_any_zone() {
    assert_eq!(
        Moment::parse("2015-05-15T02:00:00.5+02:00"),
        Some(Moment { secs: 1431648000, nanos: 500_000_000 })
    );
    assert_eq!(Moment::parse("2015-05-15T00:00:00Z"), Some(Moment { secs: 1431648000, nanos: 0 }));
    assert_eq!(Moment::parse("soon"), None);
    assert_eq!(Moment::parse(""), None);
}

#[test]
fn a_token_expires_at_its_moment() {
    let t = token("2015-05-15T00:00:00.000000005Z");
    assert!(!t.is_expired_at(Moment { secs: 1431647999, nanos: 999_999_999 }));
    assert!(!t.is_expired_at(Moment { secs: 1431648000, nanos: 4 }));
    assert!(t.is_expired_at(Moment { secs: 1431648000, nanos: 5 }));
    assert!(t.is_expired_at(Moment { secs: 1431648001, nanos: 0 }));
}

#[test]
fn a_token_is_judged_by_the_clock() {
    assert!(token("2015-05-15T00:00:00Z").is_expired());
    assert!(!token("9999-01-01T00:00:00Z").is_expired());
    assert!(token("never").is_expired());
}

#[test]
fn a_loaded_token_is_judged() {
    assert!(matches!(KiroToken::load_refresh(token("9999-01-01T00:00:00Z")), Loaded::Ready(_)));
    assert!(matches!(KiroToken::load_refresh(token("2015-05-15T00:00:00Z")), Loaded::Expired(_)));
    assert!(matches!(KiroToken::load_refresh(token("never")), Loaded::Expired(_)));
}

#[test]
fn an_expiry_is_written_and_read_back() {
    let now = Moment { secs: 1431648000, nanos: 250_000_000 };
    let text = KiroToken::compute_expiry_at(now, 3600);
    assert_eq!(text, "2015-05-15T01:00:00.250+00:00");
    assert_eq!(Moment::parse(&text), Some(Moment { secs: 1431651600, nanos: 250_000_000 }));
    assert_eq!(
        KiroToken::compute_expiry_at(now, -1431648000),
        "1970-01-01T00:00:00.250+00:00"
    );
}

#[test]
fn years_beyond_four_digits_are_not_read_back() {
    let text = KiroToken::compute_expiry_at(Moment { secs: 253_402_300_799, nanos: 0 }, 1);
    assert_eq!(text, "+10000-01-01T00:00:00+00:00");
    assert_eq!(Moment::parse(&text), None);
    let last = KiroToken::compute_expiry_at(Moment { secs: 253_402_300_799, nanos: 0 }, 0);
    assert_eq!(Moment::parse(&last), Some(Moment { secs: 253_402_300_799, nanos: 0 }));
    let first = KiroToken::compute_expiry_at(Moment { secs: 0, nanos: 1 }, -62_167_219_200);
    assert_eq!(Moment::parse(&first), Some(Moment { secs: -62_167_219_200, nanos: 1 }));
}

#[test]
fn the_ends_of_time() {
    let last = Moment { secs: 8_210_266_876_799, nanos: 999_999_999 };
    assert!(fits(last, 0));
    assert!(!fits(last, 1));
    assert!(KiroToken::compute_expiry_at(last, 0).starts_with("+262142-12-31T23:59:59"));
    let first = Moment { secs: -8_334_601_228_800, nanos: 0 };
    assert!(fits(first, 0));
    assert!(!fits(first, -1));
    assert!(KiroToken::compute_expiry_at(first, 0).starts_with("-262143-01-01T00:00:00"));
    assert!(KiroToken::compute_expiry_at(first, 16_544_868_105_599).starts_with("+262142-12-31"));
    assert!(!fits(Moment { secs: 0, nanos: 1_000_000_000 }, 0));
    assert!(!fits(Moment { secs: 0, nanos: 0 }, i64::MAX));
    assert!(!fits(Moment { secs: 0, nanos: 0 }, i64::MIN));
}

#[test]
fn an_expiry_at_a_given_moment_or_none() {
    let now = Moment { secs: 1431648000, nanos: 0 };
    assert_eq!(
        KiroToken::try_expiry_at(now, 3600),
        Some("2015-05-15T01:00:00+00:00".to_string())
    );
    assert_eq!(KiroToken::try_expiry_at(now, i64::MAX), None);
    let last = Moment { secs: 8_210_266_876_799, nanos: 0 };
    assert_eq!(KiroToken::try_expiry_at(last, 1), None);
    assert!(KiroToken::try_expiry_at(last, 0).is_some());
}

#[test]
fn a_new_token_at_a_given_moment_or_none() {
    let now = Moment { secs: 1431648000, nanos: 0 };
    let given = RefreshTokenResponse {
        access_token: "new".to_string(),
        refresh_token: None,
        expires_in: 10,
    };
    let mut t = token("never");
    assert!(t.try_refresh_at(given.clone(), now));
    assert_eq!(t.access_token, "new");
    assert_eq!(t.expires_at, "2015-05-15T00:00:10+00:00");
    let mut u = token("never");
    assert!(!u.try_refresh_at(RefreshTokenResponse { expires_in: i64::MAX, ..given }, now));
    assert_eq!(u.access_token, "access");
    assert_eq!(u.expires_at, "never");
}

#[test]
fn a_loaded_token_is_judged_at_a_given_moment() {
    let end = Moment { secs: 1431648000, nanos: 0 };
    let before = Moment { secs: 1431647999, nanos: 999_999_999 };
    assert!(matches!(
        KiroToken::load_refresh_at(token("2015-05-15T00:00:00Z"), end),
        Loaded::Expired(_)
    ));
    assert!(matches!(
        KiroToken::load_refresh_at(token("2015-05-15T00:00:00Z"), before),
        Loaded::Ready(_)
    ));
}

#[test]
fn a_computed_expiry_is_judged_from_its_moment_on() {
    let start = Moment { secs: 1431648000, nanos: 7 };
    let t = token(&KiroToken::compute_expiry_at(start, 5));
    assert!(!t.is_expired_at(Moment { secs: 1431648005, nanos: 6 }));
    assert!(t.is_expired_at(Moment { secs: 1431648005, nanos: 7 }));
    let before_year_0 = KiroToken::compute_expiry_at(start, -63_600_000_000 - 1431648000);
    assert!(before_year_0.starts_with('-'));
    assert_eq!(Moment::parse(&before_year_0), None);
    assert!(token(&before_year_0).is_expired_at(Moment { secs: 0, nanos: 0 }));
    let beyond = KiroToken::compute_expiry_at(start, 253_402_300_800);
    assert!(token(&beyond).is_expired_at(start));
}

#[test]
fn an_expiry_from_now() {
    let text = KiroToken::compute_expiry(3600).unwrap();
    assert!(!token(&text).is_expired());
    assert!(token(&KiroToken::compute_expiry(-5).unwrap()).is_expired());
    assert_eq!(KiroToken::compute_expiry(i64::MAX), None);
}

#[test]
fn the_request_for_a_new_token() {
    let reg = DeviceRegistration {
        client_id: "id".to_string(),
        client_secret: "secret".to_string(),
        region: "eu-west-1".to_string(),
    };
    let call = token("").refresh_request(&reg);
    assert_eq!(call.method, Method::Post);
    assert_eq!(call.url, "https://oidc.eu-west-1.amazonaws.com/token");
    assert!(call.headers.is_empty());
    assert_eq!(call.bearer, None);
    assert!(call.query.is_empty());
    assert_eq!(call.timeout_secs, None);
    let expected: serde_json::Value = serde_json::from_str(
        r#"{"grantType":"refresh_token","clientId":"id","clientSecret":"secret","refreshToken":"refresh"}"#,
    )
    .unwrap();
    assert_eq!(call.body.unwrap().to_value(), expected);
}

#[test]
fn a_new_token_is_taken() {
    let now = Moment { secs: 1431648000, nanos: 0 };
    let mut t = token("2015-05-15T00:00:00Z");
    t.refresh_at(
        RefreshTokenResponse {
            access_token: "new".to_string(),
            refresh_token: None,
            expires_in: 10,
        },
        now,
    );
    assert_eq!(t.access_token, "new");
    assert_eq!(t.refresh_token, "refresh");
    assert_eq!(t.expires_at, "2015-05-15T00:00:10+00:00");
    assert_eq!(t.region, "us-east-1");
    assert!(!t.is_expired_at(Moment { secs: 1431648009, nanos: 999_999_999 }));
    assert!(t.is_expired_at(Moment { secs: 1431648010, nanos: 0 }));
    t.refresh_at(
        RefreshTokenResponse {
            access_token: "newer".to_string(),
            refresh_token: Some("r2".to_string()),
            expires_in: 0,
        },
        now,
    );
    assert_eq!(t.refresh_token, "r2");
}

#[test]
fn a_new_token_is_taken_by_the_clock() {
    let mut t = token("2015-05-15T00:00:00Z");
    let given = RefreshTokenResponse {
        access_token: "new".to_string(),
        refresh_token: None,
        expires_in: 600,
    };
    assert!(t.refresh(given.clone()));
    assert!(!t.is_expired());
    assert_eq!(t.access_token, "new");
    let mut u = token("2015-05-15T00:00:00Z");
    assert!(!u.refresh(RefreshTokenResponse { expires_in: i64::MAX, ..given }));
    assert_eq!(u.access_token, "access");
    assert_eq!(u.expires_at, "2015-05-15T00:00:00Z");
}

#[test]
fn a_valid_token_is_used_and_an_expired_one_is_not() {
    let t = token("2015-05-15T00:00:00Z");
    assert_eq!(
        get_valid_token_at(&t, Moment { secs: 1431647999, nanos: 0 }),
        Some("access".to_string())
    );
    assert_eq!(get_valid_token_at(&t, Moment { secs: 1431648000, nanos: 0 }), None);
    assert_eq!(get_valid_token(&t), None);
    assert_eq!(get_valid_token(&token("9999-01-01T00:00:00Z")), Some("access".to_string()));
}

#[test]
fn a_token_that_cannot_be_renewed_is_refused() {
    assert_eq!(token_after_refresh(&token(""), true), Ok("access".to_string()));
    assert_eq!(token_after_refresh(&token(""), false), Err(Status::Unauthorized));
}

#[test]
fn what_came_of_a_request_for_a_new_token() {
    let given = || {
        Some(RefreshTokenResponse {
            access_token: "new".to_string(),
            refresh_token: None,
            expires_in: 10,
        })
    };
    let outcome = |reply, body| refresh_outcome(reply, body).map(|g| g.access_token);
    assert_eq!(outcome(Reply::Answered(200), given()), Ok("new".to_string()));
    assert_eq!(outcome(Reply::Answered(200), None), Err(RefreshError::Unreadable));
    assert_eq!(outcome(Reply::Answered(400), given()), Err(RefreshError::Refused(400)));
    assert_eq!(outcome(Reply::Failed, given()), Err(RefreshError::NoAnswer));
}
