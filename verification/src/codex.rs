//! The Codex line: the requests to the local Codex server, its replies, and
//! what they show.
use vstd::prelude::*;
use vstd::string::*;

use crate::decimal::{decimal, decimal_text};
use crate::json::{
    field, field_in, integer, integer_in, is_plain, is_within, number, number_in, record_view,
    seen, set_field, text, text_in, Json, JsonValue,
};
use crate::quota::{percent, percent_text, QuotaLine, QuotaText};
use crate::serde_value::{depth_limit, json_from_text, json_line, json_to_text, parse_json_text};
use crate::text::{join, joined, optional_text, texts, titled, to_uppercase_first};

verus! {

/// The length of a window in the greatest unit that it is a whole number of:
/// days, hours or minutes.
pub open spec fn window_label(minutes: int) -> Seq<char> {
    if minutes % 1440 == 0 {
        decimal(minutes / 1440) + "d"@
    } else if minutes % 60 == 0 {
        decimal(minutes / 60) + "h"@
    } else {
        decimal(minutes) + "m"@
    }
}

/// The percentage that is used of a window, kept between nothing and all; a
/// window that does not say is used up.
pub open spec fn window_used(window: JsonValue) -> int {
    match number_in(field_in(Some(window), "usedPercent"@)) {
        Some(used) => if used < 0 {
            0
        } else if used > 100 {
            100
        } else {
            used as int
        },
        None => 100,
    }
}

/// A window of a rate limit: its length in minutes and how it is shown.
pub struct RateWindowText {
    pub minutes: i64,
    pub shown: Seq<char>,
}

/// The window that a value describes; none where it states no length.
pub open spec fn rate_window_in(window: Option<JsonValue>) -> Option<RateWindowText> {
    match window {
        Some(value) => match number_in(field_in(window, "windowDurationMins"@)) {
            Some(minutes) => Some(
                RateWindowText {
                    minutes,
                    shown: window_label(minutes as int) + " "@ + percent(100 - window_used(value)),
                },
            ),
            None => None,
        },
        None => None,
    }
}

/// The windows of the rate limits, the shorter one first; windows of equal
/// length stand with the secondary one first.
pub open spec fn rate_windows_in(limits: JsonValue) -> Seq<RateWindowText> {
    let secondary = rate_window_in(field_in(Some(limits), "secondary"@));
    let primary = rate_window_in(field_in(Some(limits), "primary"@));
    match (secondary, primary) {
        (Some(s), Some(p)) => if p.minutes < s.minutes {
            seq![p, s]
        } else {
            seq![s, p]
        },
        (Some(s), None) => seq![s],
        (None, Some(p)) => seq![p],
        (None, None) => Seq::empty(),
    }
}

/// How the rate limits are shown: their windows, separated by slashes.
pub open spec fn rate_limits_text(limits: JsonValue) -> Option<Seq<char>> {
    let windows = rate_windows_in(limits);
    if windows.len() == 0 {
        None
    } else {
        Some(joined(windows.map_values(|window: RateWindowText| window.shown), " / "@))
    }
}

/// A window is shown with a percentage, whatever the server says is used.
pub proof fn law_window_share_is_a_percentage(window: JsonValue)
    ensures
        0 <= 100 - window_used(window) <= 100,
{
}

/// The windows stand in order of their length, and each window that states its
/// length stands among them.
pub proof fn law_windows_are_ordered(limits: JsonValue)
    ensures
        forall|i: int, j: int|
            0 <= i < j < rate_windows_in(limits).len() ==> (#[trigger] rate_windows_in(
                limits,
            )[i]).minutes <= (#[trigger] rate_windows_in(limits)[j]).minutes,
        rate_window_in(field_in(Some(limits), "secondary"@)) matches Some(s)
            ==> rate_windows_in(limits).contains(s),
        rate_window_in(field_in(Some(limits), "primary"@)) matches Some(p)
            ==> rate_windows_in(limits).contains(p),
{
    let windows = rate_windows_in(limits);
    if windows.len() > 0 {
        assert(windows.contains(windows[0]));
    }
    if windows.len() > 1 {
        assert(windows.contains(windows[1]));
    }
}

/// What the program is run with to serve on its standard streams.
pub const SERVER_ARGUMENTS: [&'static str; 2] = ["app-server", "--stdio"];

/// How many seconds a reply is waited for.
pub const REPLY_SECONDS: u64 = 3;

/// What the server is asked for.
#[derive(Clone, Copy, PartialEq, Eq, Structural)]
pub enum Question {
    /// The rate limits of the account.
    Limits,
    /// The plan of the account.
    Plan,
}

/// The number of the request that asks a question.
pub open spec fn request_id(question: Question) -> i64 {
    match question {
        Question::Limits => 2,
        Question::Plan => 3,
    }
}

/// The fields that every message has: the version of the protocol, the method
/// and its parameters.
pub open spec fn message(method: Seq<char>, params: JsonValue) -> Map<Seq<char>, JsonValue> {
    Map::<Seq<char>, JsonValue>::empty().insert("jsonrpc"@, JsonValue::Text("2.0"@)).insert(
        "method"@,
        JsonValue::Text(method),
    ).insert("params"@, params)
}

/// A message that is to be replied to under a number.
pub open spec fn request(id: i64, method: Seq<char>, params: JsonValue) -> JsonValue {
    JsonValue::Record(message(method, params).insert("id"@, JsonValue::Integer(id)))
}

/// The request that opens a conversation: who is asking, and that experimental
/// methods are wanted.
pub open spec fn initialize_request() -> JsonValue {
    request(
        1,
        "initialize"@,
        JsonValue::Record(
            Map::<Seq<char>, JsonValue>::empty().insert(
                "clientInfo"@,
                JsonValue::Record(
                    Map::<Seq<char>, JsonValue>::empty().insert(
                        "name"@,
                        JsonValue::Text("Token 看板"@),
                    ).insert("version"@, JsonValue::Text("0.2.0"@)),
                ),
            ).insert(
                "capabilities"@,
                JsonValue::Record(
                    Map::<Seq<char>, JsonValue>::empty().insert(
                        "experimentalApi"@,
                        JsonValue::Bool(true),
                    ),
                ),
            ),
        ),
    )
}

/// The notification that the conversation is open.
pub open spec fn initialized_notice() -> JsonValue {
    JsonValue::Record(message("initialized"@, JsonValue::Null))
}

/// The request that asks a question.
pub open spec fn question_request(question: Question) -> JsonValue {
    match question {
        Question::Limits => request(
            request_id(question),
            "account/rateLimits/read"@,
            JsonValue::Null,
        ),
        Question::Plan => request(
            request_id(question),
            "account/read"@,
            JsonValue::Record(
                Map::<Seq<char>, JsonValue>::empty().insert("refreshToken"@, JsonValue::Bool(false)),
            ),
        ),
    }
}

/// The messages that ask a question, in the order in which they are sent.
pub open spec fn conversation(question: Question) -> Seq<JsonValue> {
    seq![initialize_request(), initialized_notice(), question_request(question)]
}

/// The messages that ask a question hold no numbers but 64-bit integers, and
/// nest little.
proof fn lemma_conversation_is_plain(question: Question)
    ensures
        forall|i: int|
            0 <= i < conversation(question).len() ==> is_plain(
                #[trigger] conversation(question)[i],
                depth_limit(),
            ),
{
    reveal_with_fuel(is_within, 5);
}

/// What the reply to a question shows, if it shows anything.
pub open spec fn reply_text(question: Question, reply: JsonValue) -> Option<Seq<char>> {
    let result = field_in(Some(reply), "result"@);
    match question {
        Question::Limits => match field_in(result, "rateLimits"@) {
            Some(limits) => rate_limits_text(limits),
            None => None,
        },
        Question::Plan => match text_in(field_in(field_in(result, "account"@), "planType"@)) {
            Some(plan) => Some(titled(plan)),
            None => None,
        },
    }
}

/// A message is the reply to a question: it has the number of the request.
pub open spec fn is_reply(question: Question, content: JsonValue) -> bool {
    integer_in(field_in(Some(content), "id"@)) == Some(request_id(question))
}

/// The outcome of reading one more line.
pub enum VerdictView {
    /// The next line is to be read.
    More,
    /// The conversation is over, with what is to be shown.
    Over { shown: Option<Seq<char>> },
}

/// How many lines are read in search of a reply.
pub open spec fn line_limit() -> int {
    64
}

/// The outcome of reading a line after `count` others; a line that cannot be
/// read ends the conversation, one that is not the reply is passed over.
pub open spec fn verdict(question: Question, count: int, line: Option<Seq<char>>) -> VerdictView {
    if count >= line_limit() {
        VerdictView::Over { shown: None }
    } else {
        match line {
            None => VerdictView::Over { shown: None },
            Some(characters) => match json_from_text(characters) {
                Some(content) if is_reply(question, content) => VerdictView::Over {
                    shown: reply_text(question, content),
                },
                _ => if count + 1 >= line_limit() {
                    VerdictView::Over { shown: None }
                } else {
                    VerdictView::More
                },
            },
        }
    }
}

/// The outcome of reading lines one by one after `count` others, for as long as
/// more is to be read.
pub open spec fn verdict_of_lines(
    question: Question,
    count: int,
    lines: Seq<Option<Seq<char>>>,
) -> VerdictView
    decreases lines.len(),
{
    if lines.len() == 0 {
        VerdictView::More
    } else {
        match verdict(question, count, lines[0]) {
            VerdictView::More => verdict_of_lines(question, count + 1, lines.skip(1)),
            VerdictView::Over { shown } => VerdictView::Over { shown },
        }
    }
}

/// A line that is read but is not the reply to the question.
pub open spec fn is_passed_over(question: Question, line: Option<Seq<char>>) -> bool {
    match line {
        Some(characters) => match json_from_text(characters) {
            Some(content) => !is_reply(question, content),
            None => true,
        },
        None => false,
    }
}

/// The first reply decides, if it stands among the lines that are read:
/// neither the lines before it nor those behind it matter.
pub proof fn law_first_reply_decides(
    question: Question,
    count: int,
    lines: Seq<Option<Seq<char>>>,
    at: int,
    characters: Seq<char>,
    content: JsonValue,
)
    requires
        0 <= count,
        0 <= at < lines.len(),
        count + at < line_limit(),
        forall|i: int| 0 <= i < at ==> is_passed_over(question, #[trigger] lines[i]),
        lines[at] == Some(characters),
        json_from_text(characters) == Some(content),
        is_reply(question, content),
    ensures
        verdict_of_lines(question, count, lines) == (VerdictView::Over {
            shown: reply_text(question, content),
        }),
    decreases at,
{
    if at > 0 {
        assert(is_passed_over(question, lines[0]));
        let rest = lines.skip(1);
        assert forall|i: int| 0 <= i < at - 1 implies is_passed_over(
            question,
            #[trigger] rest[i],
        ) by {
            assert(is_passed_over(question, lines[i + 1]));
        }
        law_first_reply_decides(question, count + 1, rest, at - 1, characters, content);
    }
}

/// Reading ends: no more than the limit of lines is read, whatever they hold.
pub proof fn law_reading_ends(question: Question, count: int, lines: Seq<Option<Seq<char>>>)
    requires
        0 <= count,
        count + lines.len() >= line_limit(),
        lines.len() > 0,
    ensures
        verdict_of_lines(question, count, lines) is Over,
    decreases lines.len(),
{
    if verdict(question, count, lines[0]) is More {
        law_reading_ends(question, count + 1, lines.skip(1));
    }
}

/// Whatever came of asking for the plan, the line shows the same rate limits.
pub proof fn law_plan_does_not_touch_the_limits(
    value: Option<Seq<char>>,
    plan: Option<Seq<char>>,
    other: Option<Seq<char>>,
)
    ensures
        codex_text(value, plan).value == codex_text(value, other).value,
{
}

/// The Codex line.
pub open spec fn codex_text(value: Option<Seq<char>>, plan: Option<Seq<char>>) -> QuotaText {
    QuotaText {
        provider: "CODEX"@,
        value: match value {
            Some(shown) => shown,
            None => "读取失败"@,
        },
        plan,
    }
}

/// A window of a rate limit, by its length in minutes.
pub struct RateWindow {
    pub minutes: i64,
    pub shown: String,
}

impl View for RateWindow {
    type V = RateWindowText;

    open spec fn view(&self) -> RateWindowText {
        RateWindowText { minutes: self.minutes, shown: self.shown@ }
    }
}

/// The window that a value describes; `None` where it states no length.
pub fn codex_window(window: &Json) -> (described: Option<RateWindow>)
    ensures
        rate_window_in(Some(window@)) == (match described {
            Some(w) => Some(w@),
            None => None::<RateWindowText>,
        }),
{
    let minutes: i64 = match number(field(Some(window), "windowDurationMins")) {
        Some(minutes) => minutes,
        None => {
            return None;
        },
    };
    let used: i64 = match number(field(Some(window), "usedPercent")) {
        Some(used) => if used < 0 {
            0
        } else if used > 100 {
            100
        } else {
            used
        },
        None => 100,
    };
    let mut shown: String = if minutes % 1440 == 0 {
        let mut label = decimal_text(minutes / 1440);
        label.append("d");
        label
    } else if minutes % 60 == 0 {
        let mut label = decimal_text(minutes / 60);
        label.append("h");
        label
    } else {
        let mut label = decimal_text(minutes);
        label.append("m");
        label
    };
    shown.append(" ");
    shown.append(percent_text(100 - used).as_str());
    Some(RateWindow { minutes, shown })
}

/// How the rate limits are shown.
pub fn limits_text(limits: &Json) -> (shown: Option<String>)
    ensures
        optional_text(shown) == rate_limits_text(limits@),
{
    let secondary: Option<RateWindow> = match field(Some(limits), "secondary") {
        Some(window) => codex_window(window),
        None => None,
    };
    let primary: Option<RateWindow> = match field(Some(limits), "primary") {
        Some(window) => codex_window(window),
        None => None,
    };
    let ghost windows = rate_windows_in(limits@);
    let ghost texts_of = windows.map_values(|window: RateWindowText| window.shown);
    let mut list: Vec<String> = Vec::new();
    match (secondary, primary) {
        (Some(s), Some(p)) => {
            if p.minutes < s.minutes {
                list.push(p.shown);
                list.push(s.shown);
            } else {
                list.push(s.shown);
                list.push(p.shown);
            }
        },
        (Some(s), None) => {
            list.push(s.shown);
        },
        (None, Some(p)) => {
            list.push(p.shown);
        },
        (None, None) => {},
    }
    assert(texts(list@) =~= texts_of);
    if list.len() == 0 {
        None
    } else {
        Some(join(&list, " / "))
    }
}

/// The fields that every message has.
fn message_fields(method: &str, params: Json) -> (fields: Vec<(String, Json)>)
    ensures
        record_view(fields@) == message(method@, params@),
{
    let mut fields: Vec<(String, Json)> = Vec::new();
    set_field(&mut fields, "jsonrpc", Json::Text("2.0".to_owned()));
    set_field(&mut fields, "method", Json::Text(method.to_owned()));
    set_field(&mut fields, "params", params);
    fields
}

/// A message that is to be replied to under a number.
fn request_message(id: i64, method: &str, params: Json) -> (json: Json)
    ensures
        json@ == request(id, method@, params@),
{
    let mut fields = message_fields(method, params);
    set_field(&mut fields, "id", Json::Integer(id));
    Json::Record(fields)
}

/// The request that opens a conversation.
pub fn initialize_message() -> (json: Json)
    ensures
        json@ == initialize_request(),
{
    let mut client: Vec<(String, Json)> = Vec::new();
    set_field(&mut client, "name", Json::Text("Token 看板".to_owned()));
    set_field(&mut client, "version", Json::Text("0.2.0".to_owned()));
    let mut capabilities: Vec<(String, Json)> = Vec::new();
    set_field(&mut capabilities, "experimentalApi", Json::Bool(true));
    let mut params: Vec<(String, Json)> = Vec::new();
    set_field(&mut params, "clientInfo", Json::Record(client));
    set_field(&mut params, "capabilities", Json::Record(capabilities));
    request_message(1, "initialize", Json::Record(params))
}

/// The notification that the conversation is open.
pub fn initialized_message() -> (json: Json)
    ensures
        json@ == initialized_notice(),
{
    Json::Record(message_fields("initialized", Json::Null))
}

/// The request that asks a question.
pub fn question_message(question: Question) -> (json: Json)
    ensures
        json@ == question_request(question),
{
    match question {
        Question::Limits => request_message(2, "account/rateLimits/read", Json::Null),
        Question::Plan => {
            let mut params: Vec<(String, Json)> = Vec::new();
            set_field(&mut params, "refreshToken", Json::Bool(false));
            request_message(3, "account/read", Json::Record(params))
        },
    }
}

/// The lines to send to the server to ask a question: each message is one line,
/// from which it can be read.
pub fn request_lines(question: Question) -> (lines: Vec<String>)
    ensures
        texts(lines@) == conversation(question).map_values(|m: JsonValue| json_to_text(m)),
        forall|i: int| 0 <= i < lines@.len() ==> !(#[trigger] lines@[i])@.contains('\n'),
        forall|i: int|
            0 <= i < lines@.len() ==> json_from_text((#[trigger] lines@[i])@) == Some(
                conversation(question)[i],
            ),
{
    let mut lines: Vec<String> = Vec::new();
    proof {
        lemma_conversation_is_plain(question);
        assert(is_plain(conversation(question)[0], depth_limit()));
        assert(is_plain(conversation(question)[1], depth_limit()));
        assert(is_plain(conversation(question)[2], depth_limit()));
    }
    lines.push(json_line(&initialize_message()));
    lines.push(json_line(&initialized_message()));
    lines.push(json_line(&question_message(question)));
    assert(texts(lines@) =~= conversation(question).map_values(|m: JsonValue| json_to_text(m)));
    lines
}

/// What the reply to a question shows, if it shows anything.
pub fn shown_reply(question: Question, reply: &Json) -> (shown: Option<String>)
    ensures
        optional_text(shown) == reply_text(question, reply@),
{
    let result: Option<&Json> = field(Some(reply), "result");
    match question {
        Question::Limits => match field(result, "rateLimits") {
            Some(limits) => limits_text(limits),
            None => None,
        },
        Question::Plan => match text(field(field(result, "account"), "planType")) {
            Some(plan) => Some(to_uppercase_first(plan)),
            None => None,
        },
    }
}

/// The outcome of reading one more line.
pub enum Verdict {
    /// The next line is to be read.
    More,
    /// The conversation is over, with what is to be shown.
    Over(Option<String>),
}

impl View for Verdict {
    type V = VerdictView;

    open spec fn view(&self) -> VerdictView {
        match self {
            Verdict::More => VerdictView::More,
            Verdict::Over(shown) => VerdictView::Over { shown: optional_text(*shown) },
        }
    }
}

/// The search for the reply to a question in the lines of the server.
pub struct ReplySearch {
    question: Question,
    count: u64,
}

impl ReplySearch {
    /// The question whose reply is searched.
    pub closed spec fn question(self) -> Question {
        self.question
    }

    /// How many lines have been read.
    pub closed spec fn count(self) -> int {
        self.count as int
    }

    /// A search that has read nothing yet.
    pub fn new(question: Question) -> (search: ReplySearch)
        ensures
            search.question() == question,
            search.count() == 0,
    {
        ReplySearch { question, count: 0 }
    }

    /// Reads one more line, `None` where the server closed its output or the
    /// line cannot be read.
    pub fn read(&mut self, line: Option<&str>) -> (outcome: Verdict)
        ensures
            outcome@ == verdict(
                old(self).question(),
                old(self).count(),
                (match line {
                    Some(s) => Some(s@),
                    None => None::<Seq<char>>,
                }),
            ),
            final(self).question() == old(self).question(),
            final(self).count() == (if old(self).count() < line_limit() {
                old(self).count() + 1
            } else {
                old(self).count()
            }),
    {
        if self.count >= 64 {
            return Verdict::Over(None);
        }
        self.count = self.count + 1;
        let content: Option<Json> = match line {
            Some(characters) => parse_json_text(characters),
            None => {
                return Verdict::Over(None);
            },
        };
        match content {
            Some(content) => {
                let id: i64 = match self.question {
                    Question::Limits => 2,
                    Question::Plan => 3,
                };
                match integer(field(Some(&content), "id")) {
                    Some(number) => {
                        if number == id {
                            return Verdict::Over(shown_reply(self.question, &content));
                        }
                    },
                    None => {},
                }
            },
            None => {},
        }
        if self.count >= 64 {
            Verdict::Over(None)
        } else {
            Verdict::More
        }
    }
}

/// The program to run: the one that comes with the desktop application, where
/// it is there, or else the one on the search path.
pub open spec fn program_path(bundled: bool) -> Seq<char> {
    if bundled {
        "/Applications/ChatGPT.app/Contents/Resources/codex"@
    } else {
        "codex"@
    }
}

/// How far a session has come: what it is about to ask, and what it knows.
pub enum StageView {
    /// The rate limits are asked for, the first time or once more.
    Limits { again: bool },
    /// The plan is asked for, with what the rate limits showed.
    Plan { value: Option<Seq<char>> },
}

/// What is to be asked next, or the line that came of it all.
pub enum CodexStepView {
    /// Run a program and ask it the question of a stage.
    Ask { program: Seq<char>, stage: StageView },
    /// Show a line.
    Done { line: QuotaText },
}

/// The question of a stage.
pub open spec fn stage_question(stage: StageView) -> Question {
    match stage {
        StageView::Limits { .. } => Question::Limits,
        StageView::Plan { .. } => Question::Plan,
    }
}

/// How many milliseconds to wait before the question of a stage.
pub open spec fn stage_pause(stage: StageView) -> u64 {
    match stage {
        StageView::Limits { again } => if again {
            600
        } else {
            0
        },
        StageView::Plan { .. } => 0,
    }
}

/// The first step: the rate limits are asked for before anything else.
pub open spec fn codex_start(bundled: bool) -> CodexStepView {
    CodexStepView::Ask {
        program: program_path(bundled),
        stage: StageView::Limits { again: false },
    }
}

/// The step after a question, given what its reply showed: rate limits that
/// show nothing are asked for once more, and then the plan is asked for; with
/// the plan, or without it, the line is made.
pub open spec fn after_codex(
    program: Seq<char>,
    stage: StageView,
    shown: Option<Seq<char>>,
) -> CodexStepView {
    match stage {
        StageView::Limits { again } => if shown is None && !again {
            CodexStepView::Ask { program, stage: StageView::Limits { again: true } }
        } else {
            CodexStepView::Ask { program, stage: StageView::Plan { value: shown } }
        },
        StageView::Plan { value } => CodexStepView::Done { line: codex_text(value, shown) },
    }
}

/// A question that was put to a program.
pub struct AskedView {
    pub program: Seq<char>,
    pub question: Question,
}

/// The questions that are asked from a step on, where the replies show one
/// after the other what `replies` holds.
pub open spec fn asked(step: CodexStepView, replies: Seq<Option<Seq<char>>>) -> Seq<AskedView>
    decreases replies.len(),
{
    match step {
        CodexStepView::Ask { program, stage } => {
            let first = seq![AskedView { program, question: stage_question(stage) }];
            if replies.len() == 0 {
                first
            } else {
                first + asked(after_codex(program, stage, replies[0]), replies.skip(1))
            }
        },
        CodexStepView::Done { .. } => Seq::empty(),
    }
}

/// The step that is reached from a step by the replies.
pub open spec fn reached(step: CodexStepView, replies: Seq<Option<Seq<char>>>) -> CodexStepView
    decreases replies.len(),
{
    match step {
        CodexStepView::Ask { program, stage } => if replies.len() == 0 {
            step
        } else {
            reached(after_codex(program, stage, replies[0]), replies.skip(1))
        },
        CodexStepView::Done { .. } => step,
    }
}

/// How often a question is among those that were asked.
pub open spec fn times_asked(questions: Seq<AskedView>, question: Question) -> nat
    decreases questions.len(),
{
    if questions.len() == 0 {
        0
    } else {
        times_asked(questions.drop_last(), question) + (if questions.last().question == question {
            1nat
        } else {
            0
        })
    }
}

/// A session asks for the rate limits first, once more where the first reply
/// showed nothing, and then for the plan, once and last, of the same program;
/// the line shows what the last reply on the rate limits showed, with the plan
/// as it came.
pub proof fn law_plan_is_asked_once_and_last(bundled: bool, replies: Seq<Option<Seq<char>>>)
    requires
        replies.len() >= 3,
    ensures
        ({
            let limits = AskedView { program: program_path(bundled), question: Question::Limits };
            let plan = AskedView { program: program_path(bundled), question: Question::Plan };
            if replies[0] is Some {
                &&& asked(codex_start(bundled), replies) == seq![limits, plan]
                &&& reached(codex_start(bundled), replies) == (CodexStepView::Done {
                    line: codex_text(replies[0], replies[1]),
                })
            } else {
                &&& asked(codex_start(bundled), replies) == seq![limits, limits, plan]
                &&& reached(codex_start(bundled), replies) == (CodexStepView::Done {
                    line: codex_text(replies[1], replies[2]),
                })
            }
        }),
{
    reveal_with_fuel(asked, 4);
    reveal_with_fuel(reached, 4);
    let limits = AskedView { program: program_path(bundled), question: Question::Limits };
    let plan = AskedView { program: program_path(bundled), question: Question::Plan };
    let second = replies.skip(1);
    let third = second.skip(1);
    assert(second[0] == replies[1]);
    assert(third[0] == replies[2]);
    if replies[0] is Some {
        assert(asked(codex_start(bundled), replies) =~= seq![limits, plan]);
    } else {
        assert(asked(codex_start(bundled), replies) =~= seq![limits, limits, plan]);
    }
}

/// Whatever the replies show, a session asks for the rate limits at most twice
/// and for the plan at most once; once three replies are in, it has asked for
/// the plan.
pub proof fn law_questions_are_counted(bundled: bool, replies: Seq<Option<Seq<char>>>)
    ensures
        1 <= times_asked(asked(codex_start(bundled), replies), Question::Limits) <= 2,
        times_asked(asked(codex_start(bundled), replies), Question::Plan) <= 1,
        replies.len() >= 3 ==> times_asked(asked(codex_start(bundled), replies), Question::Plan)
            == 1,
{
    reveal_with_fuel(times_asked, 4);
    let questions = asked(codex_start(bundled), replies);
    if replies.len() >= 3 {
        law_plan_is_asked_once_and_last(bundled, replies);
    } else {
        reveal_with_fuel(asked, 4);
        let limits = AskedView { program: program_path(bundled), question: Question::Limits };
        let plan = AskedView { program: program_path(bundled), question: Question::Plan };
        if replies.len() == 0 {
            assert(questions =~= seq![limits]);
        } else if replies[0] is Some {
            assert(questions =~= seq![limits, plan]);
        } else if replies.len() == 1 {
            assert(questions =~= seq![limits, limits]);
        } else {
            assert(replies.skip(1)[0] == replies[1]);
            assert(questions =~= seq![limits, limits, plan]);
        }
    }
}

/// How far a session has come.
enum Stage {
    FirstLimits,
    SecondLimits,
    Plan(Option<String>),
}

/// A session with the local server, about to ask a question.
pub struct CodexSession {
    program: &'static str,
    stage: Stage,
}

/// What is to be asked next, or the line that came of it all.
pub enum CodexStep {
    Ask(CodexSession),
    Done(QuotaLine),
}

impl View for CodexStep {
    type V = CodexStepView;

    open spec fn view(&self) -> CodexStepView {
        match self {
            CodexStep::Ask(session) => CodexStepView::Ask {
                program: session.program_view(),
                stage: session.stage(),
            },
            CodexStep::Done(line) => CodexStepView::Done { line: line@ },
        }
    }
}

impl CodexSession {
    /// The program that is asked.
    pub closed spec fn program_view(self) -> Seq<char> {
        self.program@
    }

    /// How far the session has come.
    pub closed spec fn stage(self) -> StageView {
        match self.stage {
            Stage::FirstLimits => StageView::Limits { again: false },
            Stage::SecondLimits => StageView::Limits { again: true },
            Stage::Plan(value) => StageView::Plan { value: optional_text(value) },
        }
    }

    /// The program to run.
    pub fn program(&self) -> (path: &'static str)
        ensures
            path@ == self.program_view(),
    {
        self.program
    }

    /// The question to ask.
    pub fn question(&self) -> (question: Question)
        ensures
            question == stage_question(self.stage()),
    {
        match self.stage {
            Stage::FirstLimits => Question::Limits,
            Stage::SecondLimits => Question::Limits,
            Stage::Plan(_) => Question::Plan,
        }
    }

    /// How many milliseconds to wait before asking.
    pub fn pause(&self) -> (milliseconds: u64)
        ensures
            milliseconds == stage_pause(self.stage()),
    {
        match self.stage {
            Stage::FirstLimits => 0,
            Stage::SecondLimits => 600,
            Stage::Plan(_) => 0,
        }
    }

    /// The step after asking, given what the reply showed, `None` where there
    /// was no reply or it showed nothing.
    pub fn answered(self, shown: Option<String>) -> (step: CodexStep)
        ensures
            step@ == after_codex(self.program_view(), self.stage(), optional_text(shown)),
    {
        match self.stage {
            Stage::FirstLimits => if shown.is_none() {
                CodexStep::Ask(CodexSession { program: self.program, stage: Stage::SecondLimits })
            } else {
                CodexStep::Ask(CodexSession { program: self.program, stage: Stage::Plan(shown) })
            },
            Stage::SecondLimits => CodexStep::Ask(
                CodexSession { program: self.program, stage: Stage::Plan(shown) },
            ),
            Stage::Plan(value) => CodexStep::Done(codex_line(value, shown)),
        }
    }
}

/// The program to run: the one that comes with the desktop application, where
/// it is there, or else the one on the search path.
pub fn codex_program(bundled: bool) -> (path: &'static str)
    ensures
        path@ == program_path(bundled),
{
    if bundled {
        "/Applications/ChatGPT.app/Contents/Resources/codex"
    } else {
        "codex"
    }
}

/// The first step of a session, given whether the program that comes with the
/// desktop application is there.
pub fn begin_codex(bundled: bool) -> (step: CodexStep)
    ensures
        step@ == codex_start(bundled),
{
    CodexStep::Ask(CodexSession { program: codex_program(bundled), stage: Stage::FirstLimits })
}

/// The Codex line.
pub fn codex_line(value: Option<String>, plan: Option<String>) -> (line: QuotaLine)
    ensures
        line@ == codex_text(optional_text(value), optional_text(plan)),
{
    match value {
        Some(value) => QuotaLine { provider: "CODEX", value, plan },
        None => QuotaLine { provider: "CODEX", value: "读取失败".to_owned(), plan },
    }
}

/// A length of whole days is labelled in days, one of whole hours that is not of
/// whole days in hours, and any other in minutes.
pub proof fn law_label_states_the_length(count: int)
    ensures
        window_label(count * 1440) == decimal(count) + "d"@,
        count % 24 != 0 ==> window_label(count * 60) == decimal(count) + "h"@,
        count % 60 != 0 ==> window_label(count) == decimal(count) + "m"@,
{
}

/// A window that states its length shows it with the share that is left, which
/// adds up to a hundred with the percentage that it states as used; what is
/// stated below nothing or above all counts as nothing or all, and a window that
/// states no percentage has nothing left.
pub proof fn law_window_shows_what_is_left(
    window: &Json,
    described: Option<RateWindow>,
    minutes: i64,
    share: int,
)
    requires
        call_ensures(codex_window, (window,), described),
        number_in(field_in(Some(window@), "windowDurationMins"@)) == Some(minutes),
        number_in(field_in(Some(window@), "usedPercent"@)) matches Some(used) ==> (0 <= used <= 100
            ==> share + used == 100) && (used < 0 ==> share == 100) && (used > 100 ==> share == 0),
        number_in(field_in(Some(window@), "usedPercent"@)) is None ==> share == 0,
    ensures
        described matches Some(w) && w.minutes == minutes && w.shown@ == window_label(
            minutes as int,
        ) + " "@ + (decimal(share) + "%"@),
{
}

/// A window that states no length is not shown.
pub proof fn law_window_needs_a_length(window: &Json, described: Option<RateWindow>)
    requires
        call_ensures(codex_window, (window,), described),
    ensures
        described is None <==> number_in(field_in(Some(window@), "windowDurationMins"@)) is None,
{
}

/// A window is what the rate limits describe under a key, if they have the key.
pub open spec fn is_window_of(
    limits: JsonValue,
    key: Seq<char>,
    part: Option<&Json>,
    described: Option<RateWindow>,
) -> bool {
    &&& seen(part) == field_in(Some(limits), key)
    &&& match part {
        Some(window) => call_ensures(codex_window, (window,), described),
        None => described is None,
    }
}

/// Rate limits show each of their two windows that is described, the shorter one
/// first; of two equal ones, the secondary one first. Without any, they show
/// nothing.
pub proof fn law_shorter_window_comes_first(
    limits: &Json,
    shown: Option<String>,
    secondary_part: Option<&Json>,
    secondary: Option<RateWindow>,
    primary_part: Option<&Json>,
    primary: Option<RateWindow>,
)
    requires
        call_ensures(limits_text, (limits,), shown),
        is_window_of(limits@, "secondary"@, secondary_part, secondary),
        is_window_of(limits@, "primary"@, primary_part, primary),
    ensures
        match (secondary, primary) {
            (Some(s), Some(p)) => shown matches Some(text) && text@ == (if p.minutes < s.minutes {
                p.shown@ + " / "@ + s.shown@
            } else {
                s.shown@ + " / "@ + p.shown@
            }),
            (Some(s), None) => shown matches Some(text) && text@ == s.shown@,
            (None, Some(p)) => shown matches Some(text) && text@ == p.shown@,
            (None, None) => shown is None,
        },
{
    let windows = rate_windows_in(limits@);
    let list = windows.map_values(|window: RateWindowText| window.shown);
    reveal_with_fuel(joined, 3);
    if windows.len() == 2 {
        assert(list.drop_last() =~= seq![windows[0].shown]);
        assert(list.last() == windows[1].shown);
    }
}

/// The reply on the rate limits shows them, and the reply on the plan shows its
/// title; a reply without them shows nothing.
pub proof fn law_reply_shows_what_was_asked(
    reply: &Json,
    limits: Option<&Json>,
    limits_shown: Option<String>,
    shown_limits: Option<String>,
    shown_plan: Option<String>,
)
    requires
        seen(limits) == field_in(field_in(Some(reply@), "result"@), "rateLimits"@),
        match limits {
            Some(part) => call_ensures(limits_text, (part,), limits_shown),
            None => limits_shown is None,
        },
        call_ensures(shown_reply, (Question::Limits, reply), shown_limits),
        call_ensures(shown_reply, (Question::Plan, reply), shown_plan),
    ensures
        optional_text(shown_limits) == optional_text(limits_shown),
        optional_text(shown_limits) == reply_text(Question::Limits, reply@),
        match text_in(
            field_in(field_in(field_in(Some(reply@), "result"@), "account"@), "planType"@),
        ) {
            Some(plan) => shown_plan matches Some(text) && text@ == titled(plan),
            None => shown_plan is None,
        },
        optional_text(shown_plan) == reply_text(Question::Plan, reply@),
{
}

/// The reply to a question is the message whose `id` is the one of the request;
/// neither another number nor a text will do.
pub proof fn law_reply_has_the_number_of_the_request(
    question: Question,
    content: JsonValue,
    message: Json,
)
    requires
        call_ensures(question_message, (question,), message),
    ensures
        is_reply(question, content) <==> (integer_in(field_in(Some(message@), "id"@)) is Some
            && integer_in(field_in(Some(content), "id"@)) == integer_in(
            field_in(Some(message@), "id"@),
        )),
        is_reply(Question::Limits, content) <==> field_in(Some(content), "id"@) == Some(
            JsonValue::Integer(2),
        ),
        is_reply(Question::Plan, content) <==> field_in(Some(content), "id"@) == Some(
            JsonValue::Integer(3),
        ),
{
    reveal_strlit("id");
    reveal_strlit("jsonrpc");
    reveal_strlit("method");
    reveal_strlit("params");
}

/// A line that is no JSON, or that is not the reply, is passed over as long as
/// fewer than sixty-four have been read with it; the sixty-fourth is the last.
pub proof fn law_other_lines_are_passed_over(
    question: Question,
    count: int,
    characters: Seq<char>,
)
    requires
        0 <= count,
        json_from_text(characters) matches Some(content) ==> !is_reply(question, content),
    ensures
        count < 63 ==> verdict(question, count, Some(characters)) is More,
        count >= 63 ==> verdict(question, count, Some(characters)) == (VerdictView::Over {
            shown: None,
        }),
        is_passed_over(question, Some(characters)),
{
}

/// The reply is taken from each of the first sixty-four lines, and from none
/// behind them; a line that cannot be read ends the search with nothing.
pub proof fn law_reply_is_taken_in_time(
    question: Question,
    count: int,
    characters: Seq<char>,
    content: JsonValue,
)
    requires
        0 <= count,
        json_from_text(characters) == Some(content),
        is_reply(question, content),
    ensures
        count < 64 ==> verdict(question, count, Some(characters)) == (VerdictView::Over {
            shown: reply_text(question, content),
        }),
        count >= 64 ==> verdict(question, count, Some(characters)) == (VerdictView::Over {
            shown: None,
        }),
        verdict(question, count, None) == (VerdictView::Over { shown: None }),
        !is_passed_over(question, Some(characters)),
        !is_passed_over(question, None),
{
}

/// The line shows the rate limits as they were shown, or else that they could
/// not be read, with the plan as it came.
pub proof fn law_codex_line_shows_what_came(
    value: Option<String>,
    plan: Option<String>,
    line: QuotaLine,
)
    requires
        call_ensures(codex_line, (value, plan), line),
    ensures
        line@.provider == "CODEX"@,
        value matches Some(shown) ==> line@.value == shown@,
        value is None ==> line@.value == "读取失败"@,
        line@.plan == optional_text(plan),
        line@ == codex_text(optional_text(value), optional_text(plan)),
{
}

/// A session whose first reply shows the rate limits asks the same program for
/// the plan next, and shows both.
pub proof fn law_shown_limits_are_kept(
    bundled: bool,
    start: CodexStep,
    limits: String,
    next: CodexStep,
    plan: Option<String>,
    end: CodexStep,
    questions: (Question, Question),
    programs: (&'static str, &'static str),
)
    requires
        call_ensures(begin_codex, (bundled,), start),
        call_ensures(CodexSession::answered, (start->Ask_0, Some(limits)), next),
        call_ensures(CodexSession::answered, (next->Ask_0, plan), end),
        call_ensures(CodexSession::question, (&start->Ask_0,), questions.0),
        call_ensures(CodexSession::question, (&next->Ask_0,), questions.1),
        call_ensures(CodexSession::program, (&start->Ask_0,), programs.0),
        call_ensures(CodexSession::program, (&next->Ask_0,), programs.1),
    ensures
        start is Ask && next is Ask && end is Done,
        questions == (Question::Limits, Question::Plan),
        programs.0@ == (if bundled {
            "/Applications/ChatGPT.app/Contents/Resources/codex"@
        } else {
            "codex"@
        }),
        programs.1@ == programs.0@,
        end->Done_0@.provider == "CODEX"@,
        end->Done_0@.value == limits@,
        end->Done_0@.plan == optional_text(plan),
{
    assert(start@ == codex_start(bundled));
    let first = start->Ask_0;
    assert(next@ == after_codex(first.program_view(), first.stage(), Some(limits@)));
    let second = next->Ask_0;
    assert(end@ == after_codex(second.program_view(), second.stage(), optional_text(plan)));
}

/// A session whose first reply shows nothing asks for the rate limits once more,
/// after a pause, and then for the plan, whatever came; the line shows what came
/// the second time.
pub proof fn law_limits_are_asked_for_once_more(
    bundled: bool,
    start: CodexStep,
    again: CodexStep,
    limits: Option<String>,
    next: CodexStep,
    plan: Option<String>,
    end: CodexStep,
    pauses: (u64, u64, u64),
)
    requires
        call_ensures(begin_codex, (bundled,), start),
        call_ensures(CodexSession::answered, (start->Ask_0, None::<String>), again),
        call_ensures(CodexSession::answered, (again->Ask_0, limits), next),
        call_ensures(CodexSession::answered, (next->Ask_0, plan), end),
        call_ensures(CodexSession::pause, (&start->Ask_0,), pauses.0),
        call_ensures(CodexSession::pause, (&again->Ask_0,), pauses.1),
        call_ensures(CodexSession::pause, (&next->Ask_0,), pauses.2),
    ensures
        start is Ask && again is Ask && next is Ask && end is Done,
        stage_question((again->Ask_0).stage()) == Question::Limits,
        stage_question((next->Ask_0).stage()) == Question::Plan,
        (again->Ask_0).program_view() == (start->Ask_0).program_view(),
        (next->Ask_0).program_view() == (start->Ask_0).program_view(),
        pauses == (0u64, 600u64, 0u64),
        end->Done_0@.provider == "CODEX"@,
        limits matches Some(shown) ==> end->Done_0@.value == shown@,
        limits is None ==> end->Done_0@.value == "读取失败"@,
        end->Done_0@.plan == optional_text(plan),
{
    assert(start@ == codex_start(bundled));
    let first = start->Ask_0;
    assert(again@ == after_codex(first.program_view(), first.stage(), None));
    let second = again->Ask_0;
    assert(next@ == after_codex(second.program_view(), second.stage(), optional_text(limits)));
    let third = next->Ask_0;
    assert(end@ == after_codex(third.program_view(), third.stage(), optional_text(plan)));
}

/// A search reads up to sixty-four lines. The first that holds the reply ends it
/// with what the reply shows, one that cannot be read ends it with nothing, and
/// any other is passed over; each line that is read counts.
pub proof fn law_search_reads_for_the_reply(
    question: Question,
    fresh: ReplySearch,
    search: &mut ReplySearch,
    line: Option<&str>,
    outcome: Verdict,
    reply: &Json,
    shown: Option<String>,
)
    requires
        call_ensures(ReplySearch::new, (question,), fresh),
        call_ensures(ReplySearch::read, (search, line), outcome),
        old(search).question() == question,
        0 <= old(search).count() < 64,
        call_ensures(shown_reply, (question, reply), shown),
    ensures
        fresh.question() == question && fresh.count() == 0,
        final(search).question() == question,
        final(search).count() == old(search).count() + 1,
        line is None ==> outcome == Verdict::Over(None),
        line matches Some(s) ==> json_from_text(s@) == Some(reply@) && field_in(
            Some(reply@),
            "id"@,
        ) == Some(
            JsonValue::Integer(
                match question {
                    Question::Limits => 2,
                    Question::Plan => 3,
                },
            ),
        ) ==> (outcome matches Verdict::Over(found) && optional_text(found) == optional_text(shown)),
        line matches Some(s) ==> (json_from_text(s@) matches Some(content) ==> integer_in(
            field_in(Some(content), "id"@),
        ) != Some(
            match question {
                Question::Limits => 2i64,
                Question::Plan => 3i64,
            },
        )) ==> (if old(search).count() < 63 {
            outcome is More
        } else {
            outcome == Verdict::Over(None)
        }),
{
    assert(outcome@ == verdict(
        question,
        old(search).count(),
        match line {
            Some(s) => Some(s@),
            None => None::<Seq<char>>,
        },
    ));
}

/// A search that has read sixty-four lines finds nothing any more.
pub proof fn law_search_is_over_after_its_lines(
    search: &mut ReplySearch,
    line: Option<&str>,
    outcome: Verdict,
)
    requires
        call_ensures(ReplySearch::read, (search, line), outcome),
        old(search).count() >= 64,
    ensures
        outcome == Verdict::Over(None),
        final(search).count() == old(search).count(),
        final(search).question() == old(search).question(),
{
}

/// The messages of a conversation are an introduction, the notice that it is
/// open, and the question, and each can be read from its line.
pub proof fn law_conversation_is_sent_in_order(question: Question, lines: Vec<String>, asked: Json)
    requires
        call_ensures(request_lines, (question,), lines),
        call_ensures(question_message, (question,), asked),
    ensures
        lines@.len() == 3,
        forall|i: int| 0 <= i < 3 ==> !(#[trigger] lines@[i])@.contains('\n'),
        text_in(field_in(json_from_text(lines@[0]@), "method"@)) == Some("initialize"@),
        integer_in(field_in(json_from_text(lines@[0]@), "id"@)) == Some(1i64),
        text_in(field_in(json_from_text(lines@[1]@), "method"@)) == Some("initialized"@),
        field_in(json_from_text(lines@[1]@), "id"@) is None,
        json_from_text(lines@[2]@) == Some(asked@),
        text_in(field_in(Some(asked@), "method"@)) == Some(
            match question {
                Question::Limits => "account/rateLimits/read"@,
                Question::Plan => "account/read"@,
            },
        ),
{
    assert(texts(lines@).len() == 3);
    reveal_strlit("id");
    reveal_strlit("jsonrpc");
    reveal_strlit("method");
    reveal_strlit("params");
    assert("id"@.len() == 2 && "jsonrpc"@.len() == 7);
    assert("method"@[0] == 'm' && "params"@[0] == 'p');
    assert(json_from_text(lines@[0]@) == Some(conversation(question)[0]));
    assert(json_from_text(lines@[1]@) == Some(conversation(question)[1]));
    assert(json_from_text(lines@[2]@) == Some(conversation(question)[2]));
}

}
