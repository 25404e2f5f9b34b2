//! The board as a whole, and the applications that it opens.
use vstd::prelude::*;
use vstd::string::*;

use crate::quota::{QuotaLine, QuotaText};
use crate::text::same_text;

verus! {

/// The lines of the providers; the one of Codex is missing where the task that
/// makes it came to grief.
pub struct Answers {
    pub codex: Option<QuotaLine>,
    pub kimi: QuotaLine,
    pub glm: QuotaLine,
    pub deepseek: QuotaLine,
}

/// What each line of a list says.
pub open spec fn line_texts(lines: Seq<QuotaLine>) -> Seq<QuotaText> {
    lines.map_values(|line: QuotaLine| line@)
}

/// The Codex line in place of a missing one.
pub open spec fn missing_codex() -> QuotaText {
    QuotaText { provider: "CODEX"@, value: "读取失败"@, plan: Some("Plus"@) }
}

/// The lines of the board, from top to bottom; it is empty where no provider
/// could be asked.
pub open spec fn board_texts(answers: Option<Answers>) -> Seq<QuotaText> {
    match answers {
        Some(answers) => seq![
            match answers.codex {
                Some(line) => line@,
                None => missing_codex(),
            },
            answers.kimi@,
            answers.glm@,
            answers.deepseek@,
        ],
        None => Seq::empty(),
    }
}

/// The lines of the board.
pub fn get_quotas(answers: Option<Answers>) -> (lines: Vec<QuotaLine>)
    ensures
        line_texts(lines@) == board_texts(answers),
{
    let mut lines: Vec<QuotaLine> = Vec::new();
    match answers {
        Some(answers) => {
            lines.push(
                match answers.codex {
                    Some(line) => line,
                    None => QuotaLine {
                        provider: "CODEX",
                        value: "读取失败".to_owned(),
                        plan: Some("Plus".to_owned()),
                    },
                },
            );
            lines.push(answers.kimi);
            lines.push(answers.glm);
            lines.push(answers.deepseek);
        },
        None => {},
    }
    assert(line_texts(lines@) =~= board_texts(answers));
    lines
}

/// The application that goes by a short name.
pub open spec fn application_named(app: Seq<char>) -> Option<Seq<char>> {
    if app == "huide"@ {
        Some("汇兑"@)
    } else if app == "renren"@ {
        Some("人人视频 for Mac"@)
    } else if app == "parallels"@ {
        Some("Parallels Desktop"@)
    } else {
        None
    }
}

/// The application that goes by a short name; no other may be opened.
pub fn application(app: &str) -> (name: Result<&'static str, String>)
    ensures
        match name {
            Ok(n) => application_named(app@) == Some(n@),
            Err(message) => {
                &&& application_named(app@) is None
                &&& message@ == "不允许打开未配置的应用"@
            },
        },
{
    if same_text(app, "huide") {
        Ok("汇兑")
    } else if same_text(app, "renren") {
        Ok("人人视频 for Mac")
    } else if same_text(app, "parallels") {
        Ok("Parallels Desktop")
    } else {
        Err("不允许打开未配置的应用".to_owned())
    }
}

/// What came of opening an application: an error of the command that opens it,
/// or else whether that command succeeded.
pub fn opened(name: &str, outcome: Result<bool, String>) -> (result: Result<(), String>)
    ensures
        match outcome {
            Ok(success) => if success {
                result is Ok
            } else {
                result matches Err(message) && message@ == "未能打开 "@ + name@
            },
            Err(error) => result matches Err(message) && message@
                == "无法调用 macOS open 命令："@ + error@,
        },
{
    match outcome {
        Ok(success) => if success {
            Ok(())
        } else {
            let mut message: String = "未能打开 ".to_owned();
            message.append(name);
            Err(message)
        },
        Err(error) => {
            let mut message: String = "无法调用 macOS open 命令：".to_owned();
            message.append(error.as_str());
            Err(message)
        },
    }
}

/// The board shows the lines of Codex, Kimi, GLM and DeepSeek as they came, in
/// this order; in place of a Codex line that did not come, it says so.
pub proof fn law_board_shows_the_lines(answers: Answers, lines: Vec<QuotaLine>)
    requires
        call_ensures(get_quotas, (Some(answers),), lines),
    ensures
        lines@.len() == 4,
        answers.codex matches Some(line) ==> lines@[0]@ == line@,
        answers.codex is None ==> lines@[0]@.provider == "CODEX"@ && lines@[0]@.value
            == "读取失败"@ && lines@[0]@.plan == Some("Plus"@),
        lines@[1]@ == answers.kimi@,
        lines@[2]@ == answers.glm@,
        lines@[3]@ == answers.deepseek@,
{
    let texts = line_texts(lines@);
    assert(texts.len() == 4);
    assert(texts[0] == lines@[0]@ && texts[1] == lines@[1]@);
    assert(texts[2] == lines@[2]@ && texts[3] == lines@[3]@);
}

/// Where nobody could be asked, the board is empty.
pub proof fn law_board_may_be_empty(lines: Vec<QuotaLine>)
    requires
        call_ensures(get_quotas, (None::<Answers>,), lines),
    ensures
        lines@.len() == 0,
{
    assert(line_texts(lines@).len() == lines@.len());
}

/// No application is opened but the three that are known, each by its own short
/// name; any other name is refused.
pub proof fn law_only_known_applications_open(app: &str, name: Result<&'static str, String>)
    requires
        call_ensures(application, (app,), name),
    ensures
        app@ == "huide"@ ==> (name matches Ok(n) && n@ == "汇兑"@),
        app@ == "renren"@ ==> (name matches Ok(n) && n@ == "人人视频 for Mac"@),
        app@ == "parallels"@ ==> (name matches Ok(n) && n@ == "Parallels Desktop"@),
        name is Ok <==> app@ == "huide"@ || app@ == "renren"@ || app@ == "parallels"@,
        name matches Err(message) ==> message@ == "不允许打开未配置的应用"@,
{
    reveal_strlit("huide");
    reveal_strlit("renren");
    reveal_strlit("parallels");
    assert("huide"@.len() == 5);
    assert("renren"@.len() == 6);
    assert("parallels"@.len() == 9);
}

/// Opening succeeds exactly where the command did; a failure names the
/// application, an error of the command is passed on.
pub proof fn law_outcome_of_opening_is_passed_on(
    name: &str,
    outcome: Result<bool, String>,
    result: Result<(), String>,
)
    requires
        call_ensures(opened, (name, outcome), result),
    ensures
        result is Ok <==> outcome == Ok::<bool, String>(true),
        outcome == Ok::<bool, String>(false) ==> (result matches Err(message) && message@
            == "未能打开 "@ + name@),
        outcome matches Err(error) ==> (result matches Err(message) && message@
            == "无法调用 macOS open 命令："@ + error@),
{
}

}
