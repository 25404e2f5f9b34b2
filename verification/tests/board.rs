use token_board::board::{application, get_quotas, opened, Answers};
use token_board::codex::{
    begin_codex, codex_line, codex_program, codex_window, initialize_message, initialized_message,
    limits_text, question_message, request_lines, shown_reply, CodexSession, CodexStep, Question,
    ReplySearch, Verdict,
};
use token_board::json::{field, integer, text, Json};
use token_board::quota::QuotaLine;
use token_board::serde_value::parse_json;

fn parsed(source: &str) -> Json {
    parse_json(source.as_bytes()).unwrap()
}

fn window(source: &str) -> (i64, String) {
    let described = codex_window(&parsed(source)).unwrap();
    (described.minutes, described.shown)
}

fn line(provider: &'static str) -> QuotaLine {
    QuotaLine { provider, value: provider.to_lowercase(), plan: None }
}

const LIMITS_REPLY: &str = "{\"id\":2,\"result\":{\"rateLimits\":{
    \"primary\":{\"windowDurationMins\":300,\"usedPercent\":12},
    \"secondary\":{\"windowDurationMins\":10080,\"usedPercent\":40}}}}";

#[test]
fn a_window_is_labelled_by_its_greatest_unit() {
    assert_eq!(window("{\"windowDurationMins\":300,\"usedPercent\":25}"), (300, "5h 75%".into()));
    assert_eq!(window("{\"windowDurationMins\":10080,\"usedPercent\":0}"), (10080, "7d 100%".into()));
    assert_eq!(window("{\"windowDurationMins\":90,\"usedPercent\":1}"), (90, "90m 99%".into()));
    assert_eq!(window("{\"windowDurationMins\":0,\"usedPercent\":1}"), (0, "0d 99%".into()));
    assert_eq!(window("{\"windowDurationMins\":\"-60\",\"usedPercent\":1}"), (-60, "-1h 99%".into()));
}

#[test]
fn a_window_share_is_a_percentage() {
    assert_eq!(window("{\"windowDurationMins\":60,\"usedPercent\":250}").1, "1h 0%");
    assert_eq!(window("{\"windowDurationMins\":60,\"usedPercent\":-3}").1, "1h 100%");
    assert_eq!(window("{\"windowDurationMins\":60}").1, "1h 0%");
}

#[test]
fn a_window_needs_a_length() {
    assert!(codex_window(&parsed("{\"usedPercent\":3}")).is_none());
    assert!(codex_window(&Json::Null).is_none());
}

#[test]
fn windows_stand_in_order_of_their_length() {
    let limits = parsed(
        "{\"primary\":{\"windowDurationMins\":10080,\"usedPercent\":1},
          \"secondary\":{\"windowDurationMins\":300,\"usedPercent\":2}}",
    );
    assert_eq!(limits_text(&limits).as_deref(), Some("5h 98% / 7d 99%"));
    let equal = parsed(
        "{\"primary\":{\"windowDurationMins\":60,\"usedPercent\":1},
          \"secondary\":{\"windowDurationMins\":60,\"usedPercent\":2}}",
    );
    assert_eq!(limits_text(&equal).as_deref(), Some("1h 98% / 1h 99%"));
    let one = parsed("{\"primary\":{\"windowDurationMins\":60,\"usedPercent\":1},\"secondary\":null}");
    assert_eq!(limits_text(&one).as_deref(), Some("1h 99%"));
    assert_eq!(limits_text(&parsed("{}")), None);
}

#[test]
fn a_conversation_starts_with_an_introduction() {
    let lines = request_lines(Question::Limits);
    assert_eq!(lines.len(), 3);
    assert_eq!(
        lines[0],
        "{\"id\":1,\"jsonrpc\":\"2.0\",\"method\":\"initialize\",\"params\":{\"capabilities\":\
         {\"experimentalApi\":true},\"clientInfo\":{\"name\":\"Token 看板\",\"version\":\"0.2.0\"}}}"
    );
    assert_eq!(lines[1], "{\"jsonrpc\":\"2.0\",\"method\":\"initialized\",\"params\":null}");
    assert_eq!(
        lines[2],
        "{\"id\":2,\"jsonrpc\":\"2.0\",\"method\":\"account/rateLimits/read\",\"params\":null}"
    );
}

#[test]
fn the_plan_is_asked_for_without_renewal() {
    assert_eq!(
        request_lines(Question::Plan)[2],
        "{\"id\":3,\"jsonrpc\":\"2.0\",\"method\":\"account/read\",\"params\":{\"refreshToken\":false}}"
    );
}

#[test]
fn messages_are_numbered_where_they_are_replied_to() {
    assert_eq!(integer(field(Some(&initialize_message()), "id")), Some(1));
    assert_eq!(field(Some(&initialized_message()), "id"), None);
    assert_eq!(integer(field(Some(&question_message(Question::Plan)), "id")), Some(3));
    assert_eq!(
        text(field(Some(&question_message(Question::Limits)), "method")),
        Some("account/rateLimits/read")
    );
}

#[test]
fn a_reply_shows_limits_or_plan() {
    assert_eq!(
        shown_reply(Question::Limits, &parsed(LIMITS_REPLY)).as_deref(),
        Some("5h 88% / 7d 60%")
    );
    let plan = parsed("{\"id\":3,\"result\":{\"account\":{\"planType\":\"self_serve_pro\"}}}");
    assert_eq!(shown_reply(Question::Plan, &plan).as_deref(), Some("Self Serve Pro"));
    assert_eq!(shown_reply(Question::Limits, &plan), None);
    assert_eq!(shown_reply(Question::Plan, &parsed("{\"id\":3,\"error\":{}}")), None);
}

#[test]
fn the_first_reply_decides() {
    let mut search = ReplySearch::new(Question::Limits);
    for other in ["starting", "{\"id\":1}", "{\"id\":\"2\"}", "{\"method\":\"x\"}", ""] {
        assert!(matches!(search.read(Some(other)), Verdict::More));
    }
    let reply = LIMITS_REPLY.replace('\n', "");
    match search.read(Some(&reply)) {
        Verdict::Over(shown) => assert_eq!(shown.as_deref(), Some("5h 88% / 7d 60%")),
        Verdict::More => panic!("no reply"),
    }
}

#[test]
fn a_reply_without_limits_ends_the_search() {
    let mut search = ReplySearch::new(Question::Limits);
    assert!(matches!(search.read(Some("{\"id\":2,\"error\":1}")), Verdict::Over(None)));
    let mut search = ReplySearch::new(Question::Plan);
    assert!(matches!(search.read(None), Verdict::Over(None)));
}

#[test]
fn reading_ends_after_its_limit_of_lines() {
    let mut search = ReplySearch::new(Question::Plan);
    for _ in 0..63 {
        assert!(matches!(search.read(Some("{}")), Verdict::More));
    }
    assert!(matches!(search.read(Some("{}")), Verdict::Over(None)));
    let reply = "{\"id\":3,\"result\":{\"account\":{\"planType\":\"pro\"}}}";
    assert!(matches!(search.read(Some(reply)), Verdict::Over(None)));
}

#[test]
fn the_last_line_may_hold_the_reply() {
    let mut search = ReplySearch::new(Question::Plan);
    for _ in 0..63 {
        assert!(matches!(search.read(Some("-")), Verdict::More));
    }
    let reply = "{\"id\":3,\"result\":{\"account\":{\"planType\":\"pro\"}}}";
    match search.read(Some(reply)) {
        Verdict::Over(shown) => assert_eq!(shown.as_deref(), Some("Pro")),
        Verdict::More => panic!("no reply"),
    }
}

fn session(step: CodexStep) -> CodexSession {
    match step {
        CodexStep::Ask(session) => session,
        CodexStep::Done(line) => panic!("{line:?}"),
    }
}

fn last_line(step: CodexStep) -> QuotaLine {
    match step {
        CodexStep::Done(line) => line,
        CodexStep::Ask(_) => panic!("no line"),
    }
}

#[test]
fn the_plan_is_asked_for_after_the_limits() {
    let first = session(begin_codex(false));
    assert_eq!((first.program(), first.pause()), ("codex", 0));
    assert!(first.question() == Question::Limits);
    let plan = session(first.answered(Some("5h 1%".to_string())));
    assert_eq!((plan.program(), plan.pause()), ("codex", 0));
    assert!(plan.question() == Question::Plan);
    let line = last_line(plan.answered(Some("Pro".to_string())));
    assert_eq!((line.value.as_str(), line.plan.as_deref()), ("5h 1%", Some("Pro")));
}

#[test]
fn the_limits_are_asked_for_twice_at_most() {
    let bundled = "/Applications/ChatGPT.app/Contents/Resources/codex";
    let second = session(session(begin_codex(true)).answered(None));
    assert_eq!((second.program(), second.pause()), (bundled, 600));
    assert!(second.question() == Question::Limits);
    let plan = session(second.answered(None));
    assert_eq!(plan.program(), bundled);
    assert!(plan.question() == Question::Plan);
    let line = last_line(plan.answered(Some("Pro".to_string())));
    assert_eq!((line.value.as_str(), line.plan.as_deref()), ("读取失败", Some("Pro")));
}

#[test]
fn the_second_attempt_may_show_the_limits() {
    let second = session(session(begin_codex(false)).answered(None));
    let plan = session(second.answered(Some("7d 2%".to_string())));
    let line = last_line(plan.answered(None));
    assert_eq!((line.value.as_str(), line.plan), ("7d 2%", None));
}

#[test]
fn the_bundled_program_comes_first() {
    assert_eq!(codex_program(true), "/Applications/ChatGPT.app/Contents/Resources/codex");
    assert_eq!(codex_program(false), "codex");
}

#[test]
fn the_plan_does_not_touch_the_limits() {
    let with = codex_line(Some("5h 1%".to_string()), Some("Pro".to_string()));
    let without = codex_line(Some("5h 1%".to_string()), None);
    assert_eq!(with.value, without.value);
    assert_eq!(with.plan.as_deref(), Some("Pro"));
    let failed = codex_line(None, Some("Pro".to_string()));
    assert_eq!((failed.provider, failed.value.as_str()), ("CODEX", "读取失败"));
}

#[test]
fn the_board_lists_codex_first() {
    let lines = get_quotas(Some(Answers {
        codex: Some(line("CODEX")),
        kimi: line("KIMI"),
        glm: line("GLM"),
        deepseek: line("DEEPSEEK"),
    }));
    let providers: Vec<&str> = lines.iter().map(|line| line.provider).collect();
    assert_eq!(providers, vec!["CODEX", "KIMI", "GLM", "DEEPSEEK"]);
    assert_eq!(lines[0].value, "codex");
}

#[test]
fn a_missing_codex_line_is_replaced() {
    let lines = get_quotas(Some(Answers {
        codex: None,
        kimi: line("KIMI"),
        glm: line("GLM"),
        deepseek: line("DEEPSEEK"),
    }));
    assert_eq!(lines.len(), 4);
    assert_eq!((lines[0].provider, lines[0].value.as_str()), ("CODEX", "读取失败"));
    assert_eq!(lines[0].plan.as_deref(), Some("Plus"));
}

#[test]
fn the_board_is_empty_where_nobody_could_be_asked() {
    assert!(get_quotas(None).is_empty());
}

#[test]
fn only_known_applications_are_opened() {
    assert_eq!(application("huide"), Ok("汇兑"));
    assert_eq!(application("renren"), Ok("人人视频 for Mac"));
    assert_eq!(application("parallels"), Ok("Parallels Desktop"));
    assert_eq!(application("Terminal"), Err("不允许打开未配置的应用".to_string()));
    assert_eq!(application(""), Err("不允许打开未配置的应用".to_string()));
}

#[test]
fn the_outcome_of_opening_is_reported() {
    assert_eq!(opened("汇兑", Ok(true)), Ok(()));
    assert_eq!(opened("汇兑", Ok(false)), Err("未能打开 汇兑".to_string()));
    assert_eq!(
        opened("汇兑", Err("not found".to_string())),
        Err("无法调用 macOS open 命令：not found".to_string())
    );
}
