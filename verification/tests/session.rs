use token_board::json::{field, text, Json};
use token_board::kimi_session::{
    open_credential, parse_token_reply, token_reply, Credential, KimiStep, TokenReply,
};
use token_board::serde_value::parse_json;

fn parsed(source: &str) -> Json {
    parse_json(source.as_bytes()).unwrap()
}

fn reply(access: &str, refresh: Option<&str>, expires_in: Option<i64>) -> TokenReply {
    TokenReply {
        access_token: access.to_string(),
        refresh_token: refresh.map(str::to_string),
        expires_in: expires_in.map(Json::Integer),
    }
}

const CREDENTIAL: &str =
    "{\"access_token\":\"a1\",\"refresh_token\":\"r1\",\"expires_at\":100.5,\"scope\":\"s\"}";

const USAGES: &str = "{\"usage\":{\"limit\":4,\"used\":1}}";

#[test]
fn a_file_without_json_is_no_credential() {
    for file in [None, Some(b"oops".to_vec())] {
        let line = open_credential(file).err().unwrap();
        assert_eq!((line.provider, line.value.as_str(), line.plan), ("KIMI", "未登录", None));
    }
}

#[test]
fn a_credential_says_when_it_expires() {
    let credential = open_credential(Some(CREDENTIAL.as_bytes().to_vec())).ok().unwrap();
    match credential.expires_at() {
        Some(Json::Number(time)) => assert_eq!(time.as_f64(), Some(100.5)),
        other => panic!("{other:?}"),
    }
    assert_eq!(Credential::new(Json::Null).expires_at(), None);
}

#[test]
fn a_valid_token_is_used_as_it_is() {
    let step = Credential::new(parsed(CREDENTIAL)).begin(false);
    let KimiStep::Fetch(request) = step else { panic!("no request") };
    assert_eq!(request.token(), "a1");
    assert!(request.save().is_none());
    let Some(KimiStep::Done(line)) = request.finish(Some(USAGES.as_bytes().to_vec())) else {
        panic!("no line")
    };
    assert_eq!(line.value, "5h 75% / 7d 75%");
}

#[test]
fn an_expiring_token_is_renewed_and_saved() {
    let step = Credential::new(parsed(CREDENTIAL)).begin(true);
    let KimiStep::Renew(renewal) = step else { panic!("no renewal") };
    assert_eq!(
        renewal.form(),
        vec![
            ("grant_type", "refresh_token".to_string()),
            ("refresh_token", "r1".to_string()),
            ("client_id", "17e5f671-d194-4dfb-9706-5516cb48c098".to_string()),
        ]
    );
    let step = renewal.finish(Some(reply("a2", Some("r2"), Some(900))), Json::Integer(1000));
    let KimiStep::Fetch(request) = step else { panic!("no request") };
    assert_eq!(request.token(), "a2");
    assert_eq!(
        request.save().unwrap(),
        b"{\"access_token\":\"a2\",\"expires_at\":1000,\"refresh_token\":\"r2\",\"scope\":\"s\"}"
    );
}

#[test]
fn a_renewal_keeps_what_the_answer_does_not_renew() {
    let KimiStep::Renew(renewal) = Credential::new(parsed(CREDENTIAL)).begin(true) else {
        panic!("no renewal")
    };
    let step = renewal.finish(Some(reply("a2", None, None)), Json::Integer(1000));
    let KimiStep::Fetch(request) = step else { panic!("no request") };
    assert_eq!(
        request.save().unwrap(),
        b"{\"access_token\":\"a2\",\"expires_at\":100.5,\"refresh_token\":\"r1\",\"scope\":\"s\"}"
    );
}

#[test]
fn a_saved_credential_is_read_back_with_its_expiry() {
    let KimiStep::Renew(renewal) = Credential::new(parsed(CREDENTIAL)).begin(true) else {
        panic!("no renewal")
    };
    let expires_at = Json::Number(serde_json::Number::from_f64(1731739000.25).unwrap());
    let KimiStep::Fetch(request) = renewal.finish(Some(reply("a2", None, Some(900))), expires_at)
    else {
        panic!("no request")
    };
    let saved = request.save().unwrap().clone();
    assert_eq!(
        parse_json(&saved).unwrap(),
        parsed(
            "{\"access_token\":\"a2\",\"expires_at\":1731739000.25,\"refresh_token\":\"r1\",\"scope\":\"s\"}"
        )
    );
}

#[test]
fn a_stated_lifetime_replaces_the_expiry() {
    let KimiStep::Renew(renewal) = Credential::new(parsed(CREDENTIAL)).begin(true) else {
        panic!("no renewal")
    };
    let KimiStep::Fetch(request) = renewal.finish(Some(reply("a2", None, Some(900))), Json::Null)
    else {
        panic!("no request")
    };
    assert_eq!(
        request.save().unwrap(),
        b"{\"access_token\":\"a2\",\"expires_at\":null,\"refresh_token\":\"r1\",\"scope\":\"s\"}"
    );
}

#[test]
fn a_saved_credential_is_used_without_another_renewal() {
    let KimiStep::Renew(renewal) = Credential::new(parsed(CREDENTIAL)).begin(true) else {
        panic!("no renewal")
    };
    let KimiStep::Fetch(request) = renewal.finish(Some(reply("a2", None, None)), Json::Null) else {
        panic!("no request")
    };
    let saved = request.save().unwrap().clone();
    let credential = open_credential(Some(saved)).ok().unwrap();
    let KimiStep::Fetch(next) = credential.begin(false) else { panic!("no request") };
    assert_eq!(next.token(), "a2");
}

#[test]
fn an_empty_token_is_renewed() {
    for source in [
        "{\"access_token\":\"\",\"refresh_token\":\"r\"}",
        "{\"refresh_token\":\"r\"}",
        "{\"access_token\":5,\"refresh_token\":\"r\"}",
    ] {
        assert!(matches!(Credential::new(parsed(source)).begin(false), KimiStep::Renew(_)));
    }
}

#[test]
fn without_a_refresh_token_the_session_is_over() {
    for source in ["{}", "[]", "{\"access_token\":\"a\",\"refresh_token\":null}"] {
        let KimiStep::Done(line) = Credential::new(parsed(source)).begin(true) else {
            panic!("no line")
        };
        assert_eq!((line.value.as_str(), line.plan), ("认证失效", None));
    }
}

#[test]
fn a_refused_renewal_ends_the_session() {
    let KimiStep::Renew(renewal) = Credential::new(parsed(CREDENTIAL)).begin(true) else {
        panic!("no renewal")
    };
    let KimiStep::Done(line) = renewal.finish(None, Json::Null) else { panic!("no line") };
    assert_eq!(line.value, "认证失效");
}

#[test]
fn a_refused_token_is_renewed_once() {
    let KimiStep::Fetch(first) = Credential::new(parsed(CREDENTIAL)).begin(false) else {
        panic!("no request")
    };
    let Some(KimiStep::Renew(renewal)) = first.finish(None) else { panic!("no renewal") };
    let KimiStep::Fetch(second) = renewal.finish(Some(reply("a2", None, None)), Json::Null) else {
        panic!("no request")
    };
    let Some(KimiStep::Done(line)) = second.finish(Some(b"not json".to_vec())) else {
        panic!("no line")
    };
    assert_eq!(line.value, "认证失效");
}

#[test]
fn a_session_takes_at_most_four_requests() {
    let KimiStep::Renew(renewal) = Credential::new(parsed(CREDENTIAL)).begin(true) else {
        panic!("no renewal")
    };
    let KimiStep::Fetch(request) = renewal.finish(Some(reply("a2", Some("r2"), None)), Json::Null) else {
        panic!("no request")
    };
    let Some(KimiStep::Renew(again)) = request.finish(None) else { panic!("no renewal") };
    assert_eq!(again.form()[1].1, "r2");
    let KimiStep::Fetch(last) = again.finish(Some(reply("a3", None, None)), Json::Null) else {
        panic!("no request")
    };
    let KimiStep::Done(line) = last.answered(Some(parsed(USAGES))) else {
        panic!("no line")
    };
    assert_eq!(line.value, "5h 75% / 7d 75%");
}

#[test]
fn an_answer_beyond_the_range_has_no_step() {
    let KimiStep::Fetch(request) = Credential::new(parsed(CREDENTIAL)).begin(false) else {
        panic!("no request")
    };
    assert!(request.finish(Some(b"{\"usage\":{\"limit\":-5}}".to_vec())).is_none());
}

#[test]
fn a_token_reply_is_read() {
    let read = parse_token_reply(
        b"{\"access_token\":\"a\",\"refresh_token\":\"r\",\"expires_in\":900.5}",
    )
    .unwrap();
    assert_eq!(read.access_token, "a");
    assert_eq!(read.refresh_token.as_deref(), Some("r"));
    match read.expires_in {
        Some(Json::Number(seconds)) => assert_eq!(seconds.as_f64(), Some(900.5)),
        other => panic!("{other:?}"),
    }
    let read = token_reply(&parsed("{\"access_token\":\"a\",\"expires_in\":900}")).unwrap();
    assert_eq!(read.expires_in, Some(Json::Integer(900)));
    assert_eq!(read.refresh_token, None);
    let read =
        token_reply(&parsed("{\"access_token\":\"a\",\"expires_in\":18446744073709551615}")).unwrap();
    assert_eq!(read.expires_in, Some(Json::Unsigned(u64::MAX)));
    let read = token_reply(&parsed("{\"access_token\":\"a\",\"expires_in\":\"900\"}")).unwrap();
    assert_eq!(read.expires_in, None);
}

#[test]
fn a_token_reply_needs_an_access_token() {
    assert!(parse_token_reply(b"").is_none());
    assert!(parse_token_reply(b"{\"refresh_token\":\"r\"}").is_none());
    assert!(token_reply(&parsed("{\"access_token\":null}")).is_none());
}

#[test]
fn texts_are_read_back() {
    let json = parsed("{\"expires_at\":0.1,\"access_token\":\"a\"}");
    let bytes = token_board::serde_value::json_bytes(&json).unwrap();
    let read = parse_json(&bytes);
    assert_eq!(text(field(read.as_ref(), "access_token")), Some("a"));
}
