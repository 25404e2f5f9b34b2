//! Asking Kimi for its usages: when to renew the access token, when to try
//! again, and which line comes of it.
use vstd::prelude::*;
use vstd::string::*;

use crate::json::{
    field, field_in, is_within, record_view, seen, set_field, text, text_in, Json, JsonValue,
};
use crate::kimi_usage::{is_kimi_in_range, kimi_in_range, kimi_report, kimi_text};
use crate::quota::{QuotaLine, QuotaText};
use crate::serde_value::{
    depth_limit, is_faithful, json_bytes, json_from_bytes, json_to_bytes, law_texts_are_read_back,
    number_clone, parse_json, reads_as, reread,
};
use crate::text::optional_text;

verus! {

/// Where an access token is renewed.
pub const KIMI_TOKEN_URL: &'static str = "https://auth.kimi.com/api/oauth/token";

/// Where the usages are asked for.
pub const KIMI_USAGES_URL: &'static str = "https://api.kimi.com/coding/v1/usages";

/// The file of the credential, below the home directory.
pub const KIMI_CREDENTIAL_FILE: &'static str = ".kimi-code/credentials/kimi-code.json";

/// The client that the credential was issued to.
pub const KIMI_CLIENT_ID: &'static str = "17e5f671-d194-4dfb-9706-5516cb48c098";

/// The Kimi line where there is no answer to show.
pub open spec fn kimi_notice(value: Seq<char>) -> QuotaText {
    QuotaText { provider: "KIMI"@, value, plan: None }
}

/// What is to be done next, or the line that came of it all.
pub enum StepView {
    /// Renew the access token of a credential with its refresh token.
    Renew { credential: JsonValue, refresh_token: Seq<char>, last: bool },
    /// Ask for the usages with an access token, once the bytes to save are
    /// saved.
    Fetch { credential: JsonValue, token: Seq<char>, save: Option<Seq<u8>>, last: bool },
    /// Show a line.
    Done { line: QuotaText },
}

/// What the answer to a renewal says.
pub struct TokenReplyView {
    pub access_token: Seq<char>,
    pub refresh_token: Option<Seq<char>>,
    pub expires_in: Option<JsonValue>,
}

/// The access token of a credential; empty where it has none.
pub open spec fn access_token_in(credential: JsonValue) -> Seq<char> {
    match text_in(field_in(Some(credential), "access_token"@)) {
        Some(token) => token,
        None => Seq::empty(),
    }
}

/// Renewing a credential, which takes a refresh token.
pub open spec fn renewing(credential: JsonValue, last: bool) -> StepView {
    match text_in(field_in(Some(credential), "refresh_token"@)) {
        Some(refresh_token) => StepView::Renew { credential, refresh_token, last },
        None => StepView::Done { line: kimi_notice("认证失效"@) },
    }
}

/// The first step: a credential without access token, or one that expires
/// within the minute, is renewed before it is used.
pub open spec fn first_step(credential: JsonValue, expiring: bool) -> StepView {
    let token = access_token_in(credential);
    if token.len() == 0 || expiring {
        renewing(credential, false)
    } else {
        StepView::Fetch { credential, token, save: None, last: false }
    }
}

/// A value is a number.
pub open spec fn is_number(value: JsonValue) -> bool {
    value is Integer || value is Unsigned || value is Real
}

/// What the answer to a renewal says; one without access token says nothing.
pub open spec fn reply_in(body: JsonValue) -> Option<TokenReplyView> {
    match text_in(field_in(Some(body), "access_token"@)) {
        Some(access_token) => Some(
            TokenReplyView {
                access_token,
                refresh_token: text_in(field_in(Some(body), "refresh_token"@)),
                expires_in: match field_in(Some(body), "expires_in"@) {
                    Some(value) => if is_number(value) {
                        Some(value)
                    } else {
                        None
                    },
                    None => None,
                },
            },
        ),
        None => None,
    }
}

/// The fields of a credential once it is renewed: the new access token, the new
/// refresh token if there is one, and the new expiry if the answer states a
/// lifetime.
pub open spec fn renewed_fields(
    fields: Map<Seq<char>, JsonValue>,
    reply: TokenReplyView,
    expires_at: JsonValue,
) -> Map<Seq<char>, JsonValue> {
    let with_access = fields.insert("access_token"@, JsonValue::Text(reply.access_token));
    let with_refresh = match reply.refresh_token {
        Some(token) => with_access.insert("refresh_token"@, JsonValue::Text(token)),
        None => with_access,
    };
    match reply.expires_in {
        Some(_) => with_refresh.insert("expires_at"@, expires_at),
        None => with_refresh,
    }
}

/// A credential once it is renewed.
pub open spec fn renewed(
    credential: JsonValue,
    reply: TokenReplyView,
    expires_at: JsonValue,
) -> JsonValue {
    match credential {
        JsonValue::Record(fields) => JsonValue::Record(renewed_fields(fields, reply, expires_at)),
        _ => credential,
    }
}

/// What reading saved bytes gives back of a credential: the credential itself,
/// where it is faithful, and otherwise, if anything, the credential with each
/// number as it is read back alone; with its access token in either case.
pub open spec fn reads_back(bytes: Seq<u8>, credential: JsonValue, token: Seq<char>) -> bool {
    &&& is_faithful(credential, depth_limit()) ==> json_from_bytes(bytes) == Some(credential)
    &&& reads_as(bytes, credential)
    &&& json_from_bytes(bytes) matches Some(read) ==> access_token_in(read) == token
}

/// The step after a renewal: a renewed credential is saved and used, a refused
/// one ends it all.
pub open spec fn after_renewal(
    credential: JsonValue,
    last: bool,
    reply: Option<TokenReplyView>,
    expires_at: JsonValue,
) -> StepView {
    match reply {
        Some(reply) => {
            let credential = renewed(credential, reply, expires_at);
            StepView::Fetch {
                credential,
                token: reply.access_token,
                save: json_to_bytes(credential),
                last,
            }
        },
        None => StepView::Done { line: kimi_notice("认证失效"@) },
    }
}

/// The step after asking for the usages: an answer is shown; a refusal has the
/// credential renewed and the question asked once more, the first time only.
pub open spec fn after_usages(
    credential: JsonValue,
    last: bool,
    payload: Option<JsonValue>,
) -> StepView {
    match payload {
        Some(payload) => StepView::Done { line: kimi_text(payload) },
        None => if last {
            StepView::Done { line: kimi_notice("认证失效"@) }
        } else {
            renewing(credential, true)
        },
    }
}

/// How many requests can still follow.
pub open spec fn requests_left(step: StepView) -> nat {
    match step {
        StepView::Renew { last, .. } => if last {
            2
        } else {
            4
        },
        StepView::Fetch { last, .. } => if last {
            1
        } else {
            3
        },
        StepView::Done { .. } => 0,
    }
}

/// A session ends: it starts with at most four requests to go, and each answer,
/// whatever it is, leaves fewer.
pub proof fn law_session_ends(
    credential: JsonValue,
    expiring: bool,
    last: bool,
    refresh_token: Seq<char>,
    reply: Option<TokenReplyView>,
    expires_at: JsonValue,
    token: Seq<char>,
    save: Option<Seq<u8>>,
    payload: Option<JsonValue>,
)
    ensures
        requests_left(first_step(credential, expiring)) <= 4,
        requests_left(after_renewal(credential, last, reply, expires_at)) < requests_left(
            StepView::Renew { credential, refresh_token, last },
        ),
        requests_left(after_usages(credential, last, payload)) < requests_left(
            StepView::Fetch { credential, token, save, last },
        ),
{
}

/// A credential that expires, or has no access token, is renewed before it is
/// used, with its refresh token; without one, the session is over. Any other is
/// used as it is.
pub proof fn law_expiring_credential_is_renewed_first(credential: JsonValue, expiring: bool)
    ensures
        expiring || access_token_in(credential).len() == 0 ==> (match text_in(
            field_in(Some(credential), "refresh_token"@),
        ) {
            Some(refresh_token) => first_step(credential, expiring) == (StepView::Renew {
                credential,
                refresh_token,
                last: false,
            }),
            None => first_step(credential, expiring) == (StepView::Done {
                line: kimi_notice("认证失效"@),
            }),
        }),
        !expiring && access_token_in(credential).len() > 0 ==> first_step(credential, expiring) == (
        StepView::Fetch {
            credential,
            token: access_token_in(credential),
            save: None,
            last: false,
        }),
{
}

/// The line of a session is the one of an answer to it, or says that the
/// credential is no good.
pub proof fn law_line_comes_from_an_answer(
    credential: JsonValue,
    expiring: bool,
    last: bool,
    reply: Option<TokenReplyView>,
    expires_at: JsonValue,
    payload: Option<JsonValue>,
)
    ensures
        first_step(credential, expiring) matches StepView::Done { line } ==> line == kimi_notice(
            "认证失效"@,
        ),
        after_renewal(credential, last, reply, expires_at) matches StepView::Done { line } ==> line
            == kimi_notice("认证失效"@),
        after_usages(credential, last, payload) matches StepView::Done { line } ==> (match payload {
            Some(answer) => line == kimi_text(answer),
            None => line == kimi_notice("认证失效"@),
        }),
{
}

/// A refusal of a token that was not renewed because of a refusal is answered
/// by one renewal and one more request, and no other refusal is.
pub proof fn law_refusal_is_retried_once(credential: JsonValue, refresh_token: Seq<char>)
    requires
        text_in(field_in(Some(credential), "refresh_token"@)) == Some(refresh_token),
    ensures
        after_usages(credential, false, None) == (StepView::Renew {
            credential,
            refresh_token,
            last: true,
        }),
        after_usages(credential, true, None) == (StepView::Done {
            line: kimi_notice("认证失效"@),
        }),
        forall|reply: TokenReplyView, expires_at: JsonValue|
            #[trigger] after_renewal(credential, true, Some(reply), expires_at) matches
                StepView::Fetch { last, .. } && last,
{
}

/// A renewed credential keeps every field that the answer does not renew.
pub proof fn law_renewal_keeps_the_rest(
    credential: JsonValue,
    reply: TokenReplyView,
    expires_at: JsonValue,
    key: Seq<char>,
)
    requires
        credential is Record,
        key != "access_token"@,
        key != "refresh_token"@ || reply.refresh_token is None,
        key != "expires_at"@ || reply.expires_in is None,
    ensures
        field_in(Some(renewed(credential, reply, expires_at)), key) == field_in(
            Some(credential),
            key,
        ),
{
}

/// A renewed credential holds the tokens of the answer.
pub proof fn law_renewal_stores_the_tokens(
    credential: JsonValue,
    reply: TokenReplyView,
    expires_at: JsonValue,
)
    requires
        credential is Record,
    ensures
        access_token_in(renewed(credential, reply, expires_at)) == reply.access_token,
        reply.refresh_token is Some ==> text_in(
            field_in(Some(renewed(credential, reply, expires_at)), "refresh_token"@),
        ) == reply.refresh_token,
        reply.expires_in is Some ==> field_in(
            Some(renewed(credential, reply, expires_at)),
            "expires_at"@,
        ) == Some(expires_at),
{
    reveal_strlit("access_token");
    reveal_strlit("refresh_token");
    reveal_strlit("expires_at");
    assert("access_token"@.len() == 12);
    assert("refresh_token"@.len() == 13);
    assert("expires_at"@.len() == 10);
}

/// A session that starts from a renewed credential which does not expire yet
/// asks with the renewed token, without another renewal.
pub proof fn law_renewed_credential_is_used(
    credential: JsonValue,
    reply: TokenReplyView,
    expires_at: JsonValue,
)
    requires
        credential is Record,
        reply.access_token.len() > 0,
    ensures
        first_step(renewed(credential, reply, expires_at), false) == (StepView::Fetch {
            credential: renewed(credential, reply, expires_at),
            token: reply.access_token,
            save: None,
            last: false,
        }),
{
    law_renewal_stores_the_tokens(credential, reply, expires_at);
}

/// A renewed credential is faithful where the credential and the new expiry are.
pub proof fn law_renewal_stays_faithful(
    credential: JsonValue,
    reply: TokenReplyView,
    expires_at: JsonValue,
    depth: nat,
)
    requires
        credential is Record,
        is_faithful(credential, depth),
        reply.expires_in is Some ==> is_faithful(expires_at, (depth - 1) as nat),
    ensures
        is_faithful(renewed(credential, reply, expires_at), depth),
{
    let allowed = |n: serde_json::Number| reread(n) == Some(JsonValue::Real(n));
    let before = credential->Record_0;
    let after = renewed_fields(before, reply, expires_at);
    let inner = (depth - 1) as nat;
    assert forall|key: Seq<char>| #[trigger] after.contains_key(key) implies is_within(
        after[key],
        inner,
        allowed,
    ) by {
        if before.contains_key(key) {
            assert(is_within(before[key], inner, allowed));
        }
    }
}

/// What is saved of a renewed credential is read back as it is, where the
/// credential and the new expiry are faithful.
pub proof fn law_renewed_credential_reads_back(
    bytes: Seq<u8>,
    credential: JsonValue,
    reply: TokenReplyView,
    expires_at: JsonValue,
)
    requires
        credential is Record,
        is_faithful(credential, depth_limit()),
        reply.expires_in is Some ==> is_faithful(expires_at, (depth_limit() - 1) as nat),
        reads_back(bytes, renewed(credential, reply, expires_at), reply.access_token),
    ensures
        json_from_bytes(bytes) == Some(renewed(credential, reply, expires_at)),
{
    law_renewal_stays_faithful(credential, reply, expires_at, depth_limit());
}

/// A session that starts from what was saved of a renewed credential, if that
/// can be read and does not expire yet, asks with the renewed token, and still
/// has the refresh token.
pub proof fn law_saved_credential_is_used(
    credential: JsonValue,
    bytes: Seq<u8>,
    token: Seq<char>,
    read: JsonValue,
)
    requires
        reads_back(bytes, credential, token),
        json_from_bytes(bytes) == Some(read),
        token.len() > 0,
    ensures
        first_step(read, false) == (StepView::Fetch {
            credential: read,
            token,
            save: None,
            last: false,
        }),
        text_in(field_in(Some(read), "refresh_token"@)) == text_in(
            field_in(Some(credential), "refresh_token"@),
        ),
{
    law_texts_are_read_back(credential, read, "refresh_token"@);
}

/// A credential as its file holds it.
pub struct Credential {
    content: Json,
}

impl View for Credential {
    type V = JsonValue;

    closed spec fn view(&self) -> JsonValue {
        self.content@
    }
}

/// The renewal of an access token, about to be requested.
pub struct Renewal {
    fields: Vec<(String, Json)>,
    refresh_token: String,
    last: bool,
}

impl Renewal {
    /// The credential to renew.
    pub closed spec fn credential(self) -> JsonValue {
        JsonValue::Record(record_view(self.fields@))
    }

    /// The token to renew it with.
    pub closed spec fn token(self) -> Seq<char> {
        self.refresh_token@
    }

    /// Whether a refusal has come before.
    pub closed spec fn is_last(self) -> bool {
        self.last
    }
}

/// What is renewed is a record.
pub proof fn law_renewal_holds_a_record(renewal: Renewal)
    ensures
        renewal.credential() is Record,
{
}

/// The question for the usages, about to be asked.
pub struct UsageRequest {
    credential: Json,
    token: String,
    save: Option<Vec<u8>>,
    last: bool,
}

impl UsageRequest {
    /// The credential that the token comes from.
    pub closed spec fn credential_view(self) -> JsonValue {
        self.credential@
    }

    /// The token to ask with.
    pub closed spec fn token_view(self) -> Seq<char> {
        self.token@
    }

    /// The bytes to save as the credential before asking.
    pub closed spec fn save_view(self) -> Option<Seq<u8>> {
        match self.save {
            Some(bytes) => Some(bytes@),
            None => None,
        }
    }

    /// Whether a refusal has come before.
    pub closed spec fn is_last(self) -> bool {
        self.last
    }
}

/// What is to be done next, or the line that came of it all.
pub enum KimiStep {
    Renew(Renewal),
    Fetch(UsageRequest),
    Done(QuotaLine),
}

impl View for KimiStep {
    type V = StepView;

    open spec fn view(&self) -> StepView {
        match self {
            KimiStep::Renew(renewal) => StepView::Renew {
                credential: renewal.credential(),
                refresh_token: renewal.token(),
                last: renewal.is_last(),
            },
            KimiStep::Fetch(request) => StepView::Fetch {
                credential: request.credential_view(),
                token: request.token_view(),
                save: request.save_view(),
                last: request.is_last(),
            },
            KimiStep::Done(line) => StepView::Done { line: line@ },
        }
    }
}

/// What the answer to a renewal says.
pub struct TokenReply {
    pub access_token: String,
    pub refresh_token: Option<String>,
    pub expires_in: Option<Json>,
}

impl View for TokenReply {
    type V = TokenReplyView;

    open spec fn view(&self) -> TokenReplyView {
        TokenReplyView {
            access_token: self.access_token@,
            refresh_token: optional_text(self.refresh_token),
            expires_in: optional_json(self.expires_in),
        }
    }
}

/// What an optional document says.
pub open spec fn optional_json(json: Option<Json>) -> Option<JsonValue> {
    match json {
        Some(j) => Some(j@),
        None => None,
    }
}

/// The Kimi line where there is no answer to show.
fn notice(value: &str) -> (line: QuotaLine)
    ensures
        line@ == kimi_notice(value@),
{
    QuotaLine { provider: "KIMI", value: value.to_owned(), plan: None }
}

/// Renewing a credential, which takes a refresh token.
fn renew(credential: Json, last: bool) -> (step: KimiStep)
    ensures
        step@ == renewing(credential@, last),
{
    let refresh_token: Option<String> = match text(field(Some(&credential), "refresh_token")) {
        Some(token) => Some(token.to_owned()),
        None => None,
    };
    match (credential, refresh_token) {
        (Json::Record(fields), Some(refresh_token)) => KimiStep::Renew(
            Renewal { fields, refresh_token, last },
        ),
        _ => KimiStep::Done(notice("认证失效")),
    }
}

/// The credential in a file; the line to show instead, where there is no file
/// or it holds no JSON.
pub fn open_credential(file: Option<Vec<u8>>) -> (credential: Result<Credential, QuotaLine>)
    ensures
        match file {
            Some(bytes) => match json_from_bytes(bytes@) {
                Some(content) => credential matches Ok(c) && c@ == content,
                None => credential matches Err(line) && line@ == kimi_notice("未登录"@),
            },
            None => credential matches Err(line) && line@ == kimi_notice("未登录"@),
        },
{
    match file {
        Some(bytes) => match parse_json(bytes.as_slice()) {
            Some(content) => Ok(Credential { content }),
            None => Err(notice("未登录")),
        },
        None => Err(notice("未登录")),
    }
}

impl Credential {
    /// A credential that holds a document.
    pub fn new(content: Json) -> (credential: Credential)
        ensures
            credential@ == content@,
    {
        Credential { content }
    }

    /// When the access token expires, as the credential has it.
    pub fn expires_at(&self) -> (time: Option<&Json>)
        ensures
            seen(time) == field_in(Some(self@), "expires_at"@),
    {
        field(Some(&self.content), "expires_at")
    }

    /// The first step, given whether the access token expires within the
    /// minute.
    pub fn begin(self, expiring: bool) -> (step: KimiStep)
        ensures
            step@ == first_step(self@, expiring),
    {
        let token: String = match text(field(Some(&self.content), "access_token")) {
            Some(token) => token.to_owned(),
            None => String::new(),
        };
        if token.as_str().is_empty() || expiring {
            renew(self.content, false)
        } else {
            KimiStep::Fetch(
                UsageRequest { credential: self.content, token, save: None, last: false },
            )
        }
    }
}

/// What the answer to a renewal says; `None` where it has no access token.
pub fn token_reply(body: &Json) -> (reply: Option<TokenReply>)
    ensures
        reply_in(body@) == (match reply {
            Some(r) => Some(r@),
            None => None::<TokenReplyView>,
        }),
{
    let access_token: String = match text(field(Some(body), "access_token")) {
        Some(token) => token.to_owned(),
        None => {
            return None;
        },
    };
    let refresh_token: Option<String> = match text(field(Some(body), "refresh_token")) {
        Some(token) => Some(token.to_owned()),
        None => None,
    };
    let expires_in: Option<Json> = match field(Some(body), "expires_in") {
        Some(Json::Integer(seconds)) => Some(Json::Integer(*seconds)),
        Some(Json::Unsigned(seconds)) => Some(Json::Unsigned(*seconds)),
        Some(Json::Number(seconds)) => Some(Json::Number(number_clone(seconds))),
        _ => None,
    };
    Some(TokenReply { access_token, refresh_token, expires_in })
}

/// What the bytes of the answer to a renewal say; `None` where they are no JSON
/// or have no access token.
pub fn parse_token_reply(body: &[u8]) -> (reply: Option<TokenReply>)
    ensures
        (match json_from_bytes(body@) {
            Some(content) => reply_in(content),
            None => None,
        }) == (match reply {
            Some(r) => Some(r@),
            None => None::<TokenReplyView>,
        }),
{
    match parse_json(body) {
        Some(content) => token_reply(&content),
        None => None,
    }
}

impl Renewal {
    /// The form to post: the kind of grant, the refresh token and the client.
    pub fn form(&self) -> (form: Vec<(&'static str, String)>)
        ensures
            form@.len() == 3,
            form@[0].0@ == "grant_type"@ && form@[0].1@ == "refresh_token"@,
            form@[1].0@ == "refresh_token"@ && form@[1].1@ == self.token(),
            form@[2].0@ == "client_id"@ && form@[2].1@ == KIMI_CLIENT_ID@,
    {
        let mut form: Vec<(&'static str, String)> = Vec::new();
        form.push(("grant_type", "refresh_token".to_owned()));
        form.push(("refresh_token", self.refresh_token.clone()));
        form.push(("client_id", KIMI_CLIENT_ID.to_owned()));
        form
    }

    /// The step after the renewal, given what the answer says, `None` where
    /// there is none, and when the new access token expires, which counts only
    /// where the answer states a lifetime. A renewed
    /// credential holds the new access token and is always saved, and what is
    /// saved reads back with that token.
    pub fn finish(self, reply: Option<TokenReply>, expires_at: Json) -> (step: KimiStep)
        ensures
            step@ == after_renewal(
                self.credential(),
                self.is_last(),
                (match reply {
                    Some(r) => Some(r@),
                    None => None::<TokenReplyView>,
                }),
                expires_at@,
            ),
            step matches KimiStep::Fetch(request) ==> {
                &&& access_token_in(request.credential_view()) == request.token_view()
                &&& request.save_view() matches Some(bytes)
                &&& reads_back(bytes, request.credential_view(), request.token_view())
            },
    {
        let mut fields = self.fields;
        match reply {
            Some(reply) => {
                let ghost reply_view = reply@;
                let ghost time = expires_at@;
                set_field(&mut fields, "access_token", Json::Text(reply.access_token.clone()));
                match reply.refresh_token {
                    Some(token) => {
                        set_field(&mut fields, "refresh_token", Json::Text(token));
                    },
                    None => {},
                }
                match reply.expires_in {
                    Some(_) => {
                        set_field(&mut fields, "expires_at", expires_at);
                    },
                    None => {},
                }
                let credential: Json = Json::Record(fields);
                let save: Option<Vec<u8>> = json_bytes(&credential);
                proof {
                    law_renewal_stores_the_tokens(
                        self.credential(),
                        reply_view,
                        time,
                    );
                    if json_from_bytes(save->0@) is Some {
                        law_texts_are_read_back(
                            credential@,
                            json_from_bytes(save->0@)->0,
                            "access_token"@,
                        );
                    }
                }
                KimiStep::Fetch(
                    UsageRequest { credential, token: reply.access_token, save, last: self.last },
                )
            },
            None => KimiStep::Done(notice("认证失效")),
        }
    }
}

impl UsageRequest {
    /// The token to ask with.
    pub fn token(&self) -> (token: &str)
        ensures
            token@ == self.token_view(),
    {
        self.token.as_str()
    }

    /// The bytes to save as the credential before asking.
    pub fn save(&self) -> (bytes: Option<&Vec<u8>>)
        ensures
            self.save_view() == (match bytes {
                Some(b) => Some(b@),
                None => None::<Seq<u8>>,
            }),
    {
        self.save.as_ref()
    }

    /// The step after asking, given the answer, `None` where there is none.
    pub fn answered(self, payload: Option<Json>) -> (step: KimiStep)
        requires
            payload matches Some(p) ==> kimi_in_range(p@),
        ensures
            step@ == after_usages(self.credential_view(), self.is_last(), optional_json(payload)),
    {
        match payload {
            Some(payload) => KimiStep::Done(kimi_report(&payload)),
            None => if self.last {
                KimiStep::Done(notice("认证失效"))
            } else {
                renew(self.credential, true)
            },
        }
    }

    /// The step after asking, given the bytes of the answer, `None` where the
    /// request failed; bytes that are no JSON are no answer. There is no step
    /// where the answer holds a quota beyond 64 bits.
    pub fn finish(self, body: Option<Vec<u8>>) -> (step: Option<KimiStep>)
        ensures
            ({
                let payload = match body {
                    Some(bytes) => json_from_bytes(bytes@),
                    None => None,
                };
                match step {
                    Some(s) => {
                        &&& payload matches Some(p) ==> kimi_in_range(p)
                        &&& s@ == after_usages(self.credential_view(), self.is_last(), payload)
                    },
                    None => payload matches Some(p) && !kimi_in_range(p),
                }
            }),
    {
        let payload: Option<Json> = match body {
            Some(bytes) => parse_json(bytes.as_slice()),
            None => None,
        };
        let fits: bool = match &payload {
            Some(payload) => is_kimi_in_range(payload),
            None => true,
        };
        if fits {
            Some(self.answered(payload))
        } else {
            None
        }
    }
}

/// The answer to a renewal says its access token, without which it says nothing,
/// its refresh token, wherever that is a text, and its lifetime, wherever that
/// is a number, each whatever its other fields hold.
pub proof fn law_answer_says_its_tokens(body: &Json, reply: Option<TokenReply>)
    requires
        call_ensures(token_reply, (body,), reply),
    ensures
        reply is None <==> text_in(field_in(Some(body@), "access_token"@)) is None,
        reply matches Some(r) ==> Some(r.access_token@) == text_in(
            field_in(Some(body@), "access_token"@),
        ) && optional_text(r.refresh_token) == text_in(field_in(Some(body@), "refresh_token"@)),
        reply matches Some(r) ==> (match field_in(Some(body@), "expires_in"@) {
            Some(JsonValue::Integer(seconds)) => r.expires_in matches Some(json) && json@
                == JsonValue::Integer(seconds),
            Some(JsonValue::Unsigned(seconds)) => r.expires_in matches Some(json) && json@
                == JsonValue::Unsigned(seconds),
            Some(JsonValue::Real(seconds)) => r.expires_in matches Some(json) && json@
                == JsonValue::Real(seconds),
            _ => r.expires_in is None,
        }),
{
}

/// The bytes of an answer say what their document says; bytes that are no JSON
/// say nothing.
pub proof fn law_answer_is_read_from_bytes(
    bytes: &[u8],
    reply: Option<TokenReply>,
    body: &Json,
    other: Option<TokenReply>,
)
    requires
        call_ensures(parse_token_reply, (bytes,), reply),
        call_ensures(token_reply, (body,), other),
    ensures
        json_from_bytes(bytes@) is None ==> reply is None,
        json_from_bytes(bytes@) == Some(body@) ==> {
            &&& reply is Some <==> other is Some
            &&& reply is Some ==> reply->0@ == other->0@
        },
{
}

/// What comes of an answer to a renewal: the next step asks with its access
/// token, and the credential that is saved holds that token, its refresh token,
/// or else the one from before, the new expiry where the answer states a
/// lifetime, or else the one from before, and every other field from before.
/// What is saved is always there, and if it can be read, it has the same
/// tokens.
pub proof fn law_answer_is_saved(
    renewal: Renewal,
    body: &Json,
    reply: Option<TokenReply>,
    expires_at: Json,
    step: KimiStep,
    access_token: Seq<char>,
    key: Seq<char>,
)
    requires
        call_ensures(token_reply, (body,), reply),
        call_ensures(Renewal::finish, (renewal, reply, expires_at), step),
        text_in(field_in(Some(body@), "access_token"@)) == Some(access_token),
    ensures
        step is Fetch,
        (step->Fetch_0).token_view() == access_token,
        (step->Fetch_0).is_last() == renewal.is_last(),
        ({
            let saved = (step->Fetch_0).credential_view();
            &&& text_in(field_in(Some(saved), "access_token"@)) == Some(access_token)
            &&& match text_in(field_in(Some(body@), "refresh_token"@)) {
                Some(token) => text_in(field_in(Some(saved), "refresh_token"@)) == Some(token),
                None => field_in(Some(saved), "refresh_token"@) == field_in(
                    Some(renewal.credential()),
                    "refresh_token"@,
                ),
            }
            &&& match field_in(Some(body@), "expires_in"@) {
                Some(JsonValue::Integer(_)) => field_in(Some(saved), "expires_at"@) == Some(
                    expires_at@,
                ),
                Some(JsonValue::Unsigned(_)) => field_in(Some(saved), "expires_at"@) == Some(
                    expires_at@,
                ),
                Some(JsonValue::Real(_)) => field_in(Some(saved), "expires_at"@) == Some(
                    expires_at@,
                ),
                _ => field_in(Some(saved), "expires_at"@) == field_in(
                    Some(renewal.credential()),
                    "expires_at"@,
                ),
            }
            &&& key != "access_token"@ && key != "refresh_token"@ && key != "expires_at"@
                ==> field_in(Some(saved), key) == field_in(Some(renewal.credential()), key)
            &&& (step->Fetch_0).save_view() == json_to_bytes(saved)
            &&& (step->Fetch_0).save_view() matches Some(bytes) && (json_from_bytes(bytes) matches
                Some(read) ==> {
                &&& text_in(field_in(Some(read), "access_token"@)) == Some(access_token)
                &&& text_in(field_in(Some(read), "refresh_token"@)) == text_in(
                    field_in(Some(saved), "refresh_token"@),
                )
            })
        }),
{
    let reply_view = reply->0@;
    let credential = renewal.credential();
    law_renewal_holds_a_record(renewal);
    law_renewal_stores_the_tokens(credential, reply_view, expires_at@);
    let saved = (step->Fetch_0).credential_view();
    assert(step@ == after_renewal(credential, renewal.is_last(), Some(reply_view), expires_at@));
    assert(saved == renewed(credential, reply_view, expires_at@));
    reveal_strlit("access_token");
    reveal_strlit("refresh_token");
    reveal_strlit("expires_at");
    assert("access_token"@.len() == 12);
    assert("refresh_token"@.len() == 13);
    assert("expires_at"@.len() == 10);
    let bytes = (step->Fetch_0).save_view()->0;
    if json_from_bytes(bytes) is Some {
        law_texts_are_read_back(saved, json_from_bytes(bytes)->0, "access_token"@);
        law_texts_are_read_back(saved, json_from_bytes(bytes)->0, "refresh_token"@);
    }
}

/// A renewal without an answer, or with one that has no access token, ends the
/// session.
pub proof fn law_refused_renewal_ends_the_session(
    renewal: Renewal,
    body: &Json,
    reply: Option<TokenReply>,
    expires_at: Json,
    step: KimiStep,
)
    requires
        reply is None || (call_ensures(token_reply, (body,), reply) && text_in(
            field_in(Some(body@), "access_token"@),
        ) is None),
        call_ensures(Renewal::finish, (renewal, reply, expires_at), step),
    ensures
        step is Done,
        step->Done_0@.provider == "KIMI"@,
        step->Done_0@.value == "认证失效"@,
        step->Done_0@.plan is None,
{
    assert(step@ == after_renewal(renewal.credential(), renewal.is_last(), None, expires_at@));
}

/// A session starts by asking with the access token of the credential, where it
/// has one that does not expire yet, and saves nothing.
pub proof fn law_valid_token_is_used(
    credential: Credential,
    step: KimiStep,
    token: Seq<char>,
    shown: &str,
)
    requires
        call_ensures(Credential::begin, (credential, false), step),
        text_in(field_in(Some(credential@), "access_token"@)) == Some(token),
        token.len() > 0,
        call_ensures(UsageRequest::token, (&step->Fetch_0,), shown),
    ensures
        step is Fetch,
        shown@ == token,
        (step->Fetch_0).credential_view() == credential@,
        (step->Fetch_0).save_view() is None,
        !(step->Fetch_0).is_last(),
{
    assert(step@ == first_step(credential@, false));
}

/// A session whose access token expires, or is missing or empty, starts with a
/// renewal, which posts the refresh token of the credential.
pub proof fn law_expiring_token_is_renewed(
    credential: Credential,
    expiring: bool,
    step: KimiStep,
    token: Seq<char>,
    form: Vec<(&'static str, String)>,
)
    requires
        call_ensures(Credential::begin, (credential, expiring), step),
        expiring || text_in(field_in(Some(credential@), "access_token"@)) is None || text_in(
            field_in(Some(credential@), "access_token"@),
        ) == Some(Seq::<char>::empty()),
        text_in(field_in(Some(credential@), "refresh_token"@)) == Some(token),
        call_ensures(Renewal::form, (&step->Renew_0,), form),
    ensures
        step is Renew,
        (step->Renew_0).credential() == credential@,
        !(step->Renew_0).is_last(),
        form@.len() == 3,
        form@[0].0@ == "grant_type"@ && form@[0].1@ == "refresh_token"@,
        form@[1].0@ == "refresh_token"@ && form@[1].1@ == token,
        form@[2].0@ == "client_id"@ && form@[2].1@ == KIMI_CLIENT_ID@,
{
    assert(step@ == first_step(credential@, expiring));
}

/// Without a refresh token there is no renewal, and the session is over.
pub proof fn law_no_refresh_token_ends_the_session(
    credential: Credential,
    expiring: bool,
    step: KimiStep,
)
    requires
        call_ensures(Credential::begin, (credential, expiring), step),
        expiring || text_in(field_in(Some(credential@), "access_token"@)) is None || text_in(
            field_in(Some(credential@), "access_token"@),
        ) == Some(Seq::<char>::empty()),
        text_in(field_in(Some(credential@), "refresh_token"@)) is None,
    ensures
        step is Done,
        step->Done_0@.provider == "KIMI"@,
        step->Done_0@.value == "认证失效"@,
        step->Done_0@.plan is None,
{
    assert(step@ == first_step(credential@, expiring));
}

/// An answer to the question for the usages is shown as its document is, whether
/// or not a refusal has come before.
pub proof fn law_usages_are_shown(
    request: UsageRequest,
    body: Vec<u8>,
    step: Option<KimiStep>,
    payload: &Json,
    report: QuotaLine,
    fits: bool,
)
    requires
        call_ensures(UsageRequest::finish, (request, Some(body)), step),
        json_from_bytes(body@) == Some(payload@),
        call_ensures(kimi_report, (payload,), report),
        call_ensures(is_kimi_in_range, (payload,), fits),
    ensures
        step is Some <==> fits,
        step is Some ==> step->0 is Done && (step->0)->Done_0@ == report@,
{
    if step is Some {
        assert(step->0@ == after_usages(
            request.credential_view(),
            request.is_last(),
            Some(payload@),
        ));
    }
}

/// A request that failed, or was answered with what is no JSON, is followed by a
/// renewal with the refresh token of the credential and then by one more
/// request; after that, or without a refresh token, the session is over.
pub proof fn law_refused_token_is_renewed_once(
    request: UsageRequest,
    body: Option<Vec<u8>>,
    step: Option<KimiStep>,
)
    requires
        call_ensures(UsageRequest::finish, (request, body), step),
        body matches Some(bytes) ==> json_from_bytes(bytes@) is None,
    ensures
        step is Some,
        match text_in(field_in(Some(request.credential_view()), "refresh_token"@)) {
            Some(token) => if !request.is_last() {
                &&& step->0 is Renew
                &&& ((step->0)->Renew_0).token() == token
                &&& ((step->0)->Renew_0).credential() == request.credential_view()
                &&& ((step->0)->Renew_0).is_last()
            } else {
                &&& step->0 is Done
                &&& (step->0)->Done_0@.provider == "KIMI"@
                &&& (step->0)->Done_0@.value == "认证失效"@
                &&& (step->0)->Done_0@.plan is None
            },
            None => {
                &&& step->0 is Done
                &&& (step->0)->Done_0@.provider == "KIMI"@
                &&& (step->0)->Done_0@.value == "认证失效"@
                &&& (step->0)->Done_0@.plan is None
            },
        },
{
    assert(step->0@ == after_usages(request.credential_view(), request.is_last(), None));
}

/// A file that holds JSON is a credential with that content; without a file, or
/// with any other, there is no login.
pub proof fn law_credential_is_what_the_file_holds(
    file: Option<Vec<u8>>,
    credential: Result<Credential, QuotaLine>,
    time: Option<&Json>,
)
    requires
        call_ensures(open_credential, (file,), credential),
        call_ensures(Credential::expires_at, (&credential->Ok_0,), time),
    ensures
        credential is Ok <==> (file matches Some(bytes) && json_from_bytes(bytes@) is Some),
        credential is Ok ==> Some((credential->Ok_0)@) == json_from_bytes(file->0@) && seen(time)
            == field_in(json_from_bytes(file->0@), "expires_at"@),
        credential matches Err(line) ==> line@.provider == "KIMI"@ && line@.value == "未登录"@
            && line@.plan is None,
{
}

/// The bytes that a request hands out to be saved, before it is asked, are those
/// of its credential.
pub proof fn law_saved_bytes_are_handed_out(request: &UsageRequest, bytes: Option<&Vec<u8>>)
    requires
        call_ensures(UsageRequest::save, (request,), bytes),
    ensures
        bytes is Some <==> request.save_view() is Some,
        bytes matches Some(b) ==> request.save_view() == Some(b@),
{
}

/// A credential made from a document holds that document.
pub proof fn law_new_credential_holds_its_document(content: Json, credential: Credential)
    requires
        call_ensures(Credential::new, (content,), credential),
    ensures
        credential@ == content@,
{
}

}
