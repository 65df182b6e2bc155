//! What every call to Kiro needs: its headers and a token that has not expired.
use vstd::prelude::*;

use crate::clock::{clock_moment, moment_now, Moment};
use crate::http::{
    header_text, header_values, lemma_header_text_joined, new_headers, set_header, sole_value,
    Status,
};
use crate::ids::{machine_id};
use crate::provider::kiro::credential::{expired, KiroToken};
use crate::text::join2;

verus! {

/// Who calls, up to the identifier of the machine: the parts come from the AWS SDK, the
/// operating system, the Node runtime, the AWS client package and the Kiro application.
pub open spec fn user_agent_start() -> Seq<char> {
    "aws-sdk-js/1.0.27 ua/2.1 os/win32#10.0.19044 lang/js md/nodejs#22.21.1 api/codewhispererstreaming#1.0.27 m/E KiroIDE-0.7.45-"@
}

/// Who calls in short, up to the identifier of the machine.
pub open spec fn short_user_agent_start() -> Seq<char> {
    "aws-sdk-js/1.0.27 KiroIDE-0.7.45-"@
}

/// The headers of a call to Kiro from the machine `machine`.
pub open spec fn kiro_headers(machine: Seq<char>) -> Map<Seq<char>, Seq<Seq<u8>>> {
    map![
        "user-agent"@ => sole_value(user_agent_start() + machine),
        "x-amz-user-agent"@ => sole_value(short_user_agent_start() + machine),
        "content-type"@ => sole_value("application/x-amz-json-1.0"@)
    ]
}

/// The identifier of a machine may stand in a header.
pub proof fn lemma_machine_id_is_header_text(machine: Seq<char>)
    requires
        machine_id(machine),
    ensures
        header_text(machine),
{
    assert forall|i: int| 0 <= i < machine.len() implies #[trigger] machine[i] == '\t' || (
    machine[i] >= ' ' && machine[i] != '\u{7f}') by {
        if i < 32 {
            assert(machine[i] == machine.take(32)[i]);
        } else {
            assert(machine[i] == machine.skip(32)[i - 32]);
        }
    }
}

/// Makes the headers of a call to Kiro from the machine `machine`.
pub fn get_kiro_headers(machine: &str) -> (r: axum::http::HeaderMap<axum::http::HeaderValue>)
    requires
        header_text(machine@),
    ensures
        header_values(r) == kiro_headers(machine@),
{
    let agent_start = "aws-sdk-js/1.0.27 ua/2.1 os/win32#10.0.19044 lang/js md/nodejs#22.21.1 api/codewhispererstreaming#1.0.27 m/E KiroIDE-0.7.45-";
    let short_start = "aws-sdk-js/1.0.27 KiroIDE-0.7.45-";
    proof {
        reveal_strlit("aws-sdk-js/1.0.27 ua/2.1 os/win32#10.0.19044 lang/js md/nodejs#22.21.1 api/codewhispererstreaming#1.0.27 m/E KiroIDE-0.7.45-");
        reveal_strlit("aws-sdk-js/1.0.27 KiroIDE-0.7.45-");
        reveal_strlit("application/x-amz-json-1.0");
        reveal_strlit("user-agent");
        reveal_strlit("x-amz-user-agent");
        reveal_strlit("content-type");
        lemma_header_text_joined(agent_start@, machine@);
        lemma_header_text_joined(short_start@, machine@);
    }
    let agent = join2(agent_start, machine);
    let short_agent = join2(short_start, machine);
    let mut headers = new_headers();
    set_header(&mut headers, "user-agent", agent.as_str());
    set_header(&mut headers, "x-amz-user-agent", short_agent.as_str());
    set_header(&mut headers, "content-type", "application/x-amz-json-1.0");
    headers
}

/// The access token at `now`; `None` where the token has expired and has to be renewed.
pub fn get_valid_token_at(token: &KiroToken, now: Moment) -> (r: Option<String>)
    ensures
        r == if expired(token.expires_at@, now) {
            None
        } else {
            Some(token.access_token)
        },
{
    if token.is_expired_at(now) {
        None
    } else {
        Some(token.access_token.clone())
    }
}

/// The access token; `None` where the token has expired and has to be renewed.
pub fn get_valid_token(token: &KiroToken) -> (r: Option<String>)
    ensures
        exists|now: Moment| #[trigger]
            clock_moment(now) && r == if expired(token.expires_at@, now) {
                None
            } else {
                Some(token.access_token)
            },
{
    get_valid_token_at(token, moment_now())
}

/// The access token after an attempt to renew it.
pub fn token_after_refresh(token: &KiroToken, refreshed: bool) -> (r: Result<String, Status>)
    ensures
        r == if refreshed {
            Ok::<String, Status>(token.access_token)
        } else {
            Err::<String, Status>(Status::Unauthorized)
        },
{
    if refreshed {
        Ok(token.access_token.clone())
    } else {
        Err(Status::Unauthorized)
    }
}

/// The headers of a call to Kiro name the calling software and the machine, and the type of the
/// body.
pub proof fn lemma_headers_hold_all(machine: Seq<char>)
    ensures
        kiro_headers(machine).dom() == set![
            "user-agent"@,
            "x-amz-user-agent"@,
            "content-type"@,
        ],
        kiro_headers(machine)["user-agent"@] == seq![
            vstd::utf8::encode_utf8(
                "aws-sdk-js/1.0.27 ua/2.1 os/win32#10.0.19044 lang/js md/nodejs#22.21.1 api/codewhispererstreaming#1.0.27 m/E KiroIDE-0.7.45-"@
                    + machine,
            ),
        ],
        kiro_headers(machine)["x-amz-user-agent"@] == seq![
            vstd::utf8::encode_utf8("aws-sdk-js/1.0.27 KiroIDE-0.7.45-"@ + machine),
        ],
        kiro_headers(machine)["content-type"@] == seq![
            vstd::utf8::encode_utf8("application/x-amz-json-1.0"@),
        ],
{
    reveal_strlit("user-agent");
    reveal_strlit("x-amz-user-agent");
    reveal_strlit("content-type");
    assert("user-agent"@.len() == 10 && "x-amz-user-agent"@.len() == 16 && "content-type"@.len()
        == 12);
    assert(kiro_headers(machine).dom() =~= set![
        "user-agent"@,
        "x-amz-user-agent"@,
        "content-type"@,
    ]);
}

} // verus!
