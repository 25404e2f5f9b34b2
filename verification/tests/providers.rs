use token_board::deepseek::{deepseek_line, deepseek_report};
use token_board::glm::{glm_line, glm_report, is_glm_in_range};
use token_board::json::Json;
use token_board::kimi_usage::{is_kimi_in_range, kimi_report, plan_text, windows_text, Window};
use token_board::quota::{
    api_key, is_in_range, percent_text, provider_key, provider_query, remaining,
    two_windows_text, Fetched,
};
use token_board::serde_value::parse_json;

fn parsed(source: &str) -> Json {
    parse_json(source.as_bytes()).unwrap()
}

fn body(source: &str) -> Fetched {
    Fetched::Body(source.as_bytes().to_vec())
}

#[test]
fn the_share_that_is_left_is_rounded_down() {
    assert_eq!(remaining(30, 100), "70%");
    assert_eq!(remaining(1, 3), "66%");
    assert_eq!(remaining(999, 1000), "0%");
}

#[test]
fn the_share_stays_between_nothing_and_all() {
    assert_eq!(remaining(0, 50), "100%");
    assert_eq!(remaining(-10, 50), "100%");
    assert_eq!(remaining(50, 50), "0%");
    assert_eq!(remaining(80, 50), "0%");
    assert_eq!(remaining(0, 0), "0%");
}

#[test]
fn using_more_leaves_no_more() {
    let mut last = 100;
    for used in 0..40 {
        let shown = remaining(used, 37);
        let share: i64 = shown.trim_end_matches('%').parse().unwrap();
        assert!(share <= last);
        last = share;
    }
    assert_eq!(last, 0);
}

#[test]
fn quotas_beyond_the_range_are_told_apart() {
    assert!(is_in_range(0, 0));
    assert!(is_in_range(0, i64::MAX / 100));
    assert!(!is_in_range(0, i64::MAX / 100 + 1));
    assert!(is_in_range(i64::MAX, i64::MAX));
    assert!(!is_in_range(0, -1));
    assert!(!is_in_range(i64::MIN, 1));
}

#[test]
fn percentages_and_windows_are_shown() {
    assert_eq!(percent_text(-5), "-5%");
    assert_eq!(two_windows_text("12%", "80%"), "5h 12% / 7d 80%");
}

#[test]
fn the_settings_of_a_provider_are_queried_by_name() {
    assert_eq!(
        provider_query("DeepSeek"),
        "SELECT settings_config FROM providers WHERE app_type='codex' AND name='DeepSeek' LIMIT 1;"
    );
}

#[test]
fn the_key_is_found_in_the_settings() {
    assert_eq!(
        provider_key(b"{\"auth\":{\"OPENAI_API_KEY\":\"k-1\"}}\n"),
        Some("k-1".to_string())
    );
    assert_eq!(provider_key(b""), None);
    assert_eq!(provider_key(b"{\"auth\":{\"OPENAI_API_KEY\":7}}"), None);
    assert_eq!(provider_key(b"{\"auth\":[\"OPENAI_API_KEY\"]}"), None);
    assert_eq!(api_key(Some(&parsed("{\"auth\":{}}"))), None);
    assert_eq!(api_key(None), None);
}

#[test]
fn glm_shows_the_limits_that_reset_first_and_last() {
    let line = glm_line(body(
        "{\"data\":{\"level\":\"pro\",\"limits\":[
            {\"type\":\"TOKENS_LIMIT\",\"nextResetTime\":900,\"percentage\":40},
            {\"type\":\"TIME_LIMIT\",\"nextResetTime\":1,\"percentage\":99},
            {\"type\":\"TOKENS_LIMIT\",\"nextResetTime\":\"100\",\"percentage\":\"15\"},
            {\"type\":\"TOKENS_LIMIT\",\"nextResetTime\":500,\"percentage\":70}
        ]}}",
    ))
    .unwrap();
    assert_eq!(line.provider, "GLM");
    assert_eq!(line.value, "5h 85% / 7d 60%");
    assert_eq!(line.plan.as_deref(), Some("pro"));
}

#[test]
fn glm_keeps_the_order_of_equal_reset_times() {
    let line = glm_report(&parsed(
        "{\"data\":{\"limits\":[
            {\"type\":\"TOKENS_LIMIT\",\"nextResetTime\":5,\"percentage\":1},
            {\"type\":\"TOKENS_LIMIT\",\"nextResetTime\":5,\"percentage\":2},
            {\"type\":\"TOKENS_LIMIT\",\"nextResetTime\":5,\"percentage\":3}
        ]}}",
    ));
    assert_eq!(line.value, "5h 99% / 7d 97%");
    assert_eq!(line.plan, None);
}

#[test]
fn glm_takes_a_limit_without_numbers_as_used_up_and_last() {
    let line = glm_report(&parsed(
        "{\"data\":{\"limits\":[
            {\"type\":\"TOKENS_LIMIT\"},
            {\"type\":\"TOKENS_LIMIT\",\"nextResetTime\":7,\"percentage\":120}
        ]}}",
    ));
    assert_eq!(line.value, "5h -20% / 7d 0%");
}

#[test]
fn glm_shows_a_single_limit_twice() {
    let line = glm_report(&parsed(
        "{\"data\":{\"limits\":[{\"type\":\"TOKENS_LIMIT\",\"percentage\":25}]}}",
    ));
    assert_eq!(line.value, "5h 75% / 7d 75%");
}

#[test]
fn glm_without_limits_shows_that() {
    let line = glm_report(&parsed("{\"data\":{\"level\":\"lite\",\"limits\":[]}}"));
    assert_eq!(line.value, "暂无额度");
    assert_eq!(line.plan.as_deref(), Some("lite"));
    assert_eq!(glm_report(&parsed("[]")).value, "暂无额度");
}

#[test]
fn glm_without_an_answer_shows_why() {
    let line = glm_line(Fetched::NoKey).unwrap();
    assert_eq!((line.value.as_str(), line.plan), ("未配置", None));
    let line = glm_line(Fetched::Failed).unwrap();
    assert_eq!((line.value.as_str(), line.plan), ("读取失败", None));
    let line = glm_line(body("<html>")).unwrap();
    assert_eq!((line.value.as_str(), line.plan), ("读取失败", None));
}

#[test]
fn glm_has_no_line_beyond_the_range() {
    let source = "{\"data\":{\"limits\":[
        {\"type\":\"TOKENS_LIMIT\",\"percentage\":-9223372036854775808}
    ]}}";
    assert!(!is_glm_in_range(&parsed(source)));
    assert!(glm_line(body(source)).is_none());
}

#[test]
fn deepseek_shows_the_first_balance() {
    let line = deepseek_line(body(
        "{\"balance_infos\":[{\"total_balance\":\"110.00\"},{\"total_balance\":\"9\"}]}",
    ));
    assert_eq!(line.provider, "DEEPSEEK");
    assert_eq!(line.value, "余额 ¥110.00");
    assert_eq!(line.plan.as_deref(), Some("Token"));
}

#[test]
fn deepseek_shows_a_dash_for_a_missing_balance() {
    for source in ["{}", "{\"balance_infos\":[]}", "{\"balance_infos\":[{\"total_balance\":5}]}"] {
        assert_eq!(deepseek_report(&parsed(source)).value, "余额 ¥—");
    }
}

#[test]
fn deepseek_without_an_answer_shows_why() {
    for (fetched, value) in [
        (Fetched::NoKey, "未配置"),
        (Fetched::Failed, "读取失败"),
        (body("{"), "读取失败"),
    ] {
        let line = deepseek_line(fetched);
        assert_eq!(line.value, value);
        assert_eq!(line.plan.as_deref(), Some("Token"));
    }
}

#[test]
fn kimi_levels_have_names() {
    assert_eq!(plan_text("LEVEL_FREE"), "Adagio");
    assert_eq!(plan_text("LEVEL_TRIAL"), "Andante");
    assert_eq!(plan_text("LEVEL_BASIC"), "Moderato");
    assert_eq!(plan_text("LEVEL_INTERMEDIATE"), "Allegretto");
    assert_eq!(plan_text("LEVEL_ADVANCED"), "Allegro");
    assert_eq!(plan_text("LEVEL_LEVEL_X"), "X");
    assert_eq!(plan_text("GOLD"), "GOLD");
}

#[test]
fn kimi_shows_its_window_and_the_overall_usage() {
    let line = kimi_report(&parsed(
        "{\"user\":{\"membership\":{\"level\":\"LEVEL_BASIC\"}},
          \"limits\":[{\"window\":{\"duration\":300,\"timeUnit\":\"TIME_UNIT_MINUTE\"},
                       \"detail\":{\"limit\":\"100\",\"used\":\"12\"}}],
          \"usage\":{\"limit\":\"200\",\"remaining\":\"50\"}}",
    ));
    assert_eq!(line.provider, "KIMI");
    assert_eq!(line.value, "5h 88% / 7d 25%");
    assert_eq!(line.plan.as_deref(), Some("Moderato"));
}

#[test]
fn kimi_names_a_lone_window() {
    let line = kimi_report(&parsed(
        "{\"limits\":[{\"limit\":10,\"used\":4,
                       \"window\":{\"duration\":90,\"timeUnit\":\"MINUTE\"}}]}",
    ));
    assert_eq!(line.value, "额度 60%");
    assert_eq!(line.plan, None);
    let line = kimi_report(&parsed(
        "{\"limits\":[{\"limit\":10,\"window\":{\"duration\":-120,\"timeUnit\":\"MINUTE\"}}]}",
    ));
    assert_eq!(line.value, "-2h 100%");
    let line = kimi_report(&parsed("{\"limits\":[{\"detail\":{\"name\":\"月\",\"limit\":8}}]}"));
    assert_eq!(line.value, "月 100%");
    let line = kimi_report(&parsed(
        "{\"limits\":[{\"name\":\"日\",\"detail\":{\"name\":\"月\",\"limit\":8}}]}",
    ));
    assert_eq!(line.value, "日 100%");
}

#[test]
fn kimi_falls_back_on_the_order_of_the_windows() {
    let line = kimi_report(&parsed(
        "{\"limits\":[{\"name\":\"a\",\"limit\":10,\"used\":1},{\"used\":3},
                      {\"name\":\"b\",\"limit\":10,\"used\":2}]}",
    ));
    assert_eq!(line.value, "5h 90% / 7d 80%");
}

#[test]
fn kimi_prefers_windows_by_their_names() {
    let window = |name: &str, share: &str| Window {
        name: name.to_string(),
        share: share.to_string(),
    };
    let list = vec![window("x", "1%"), window("7D", "2%"), window("5H", "3%"), window("5h", "4%")];
    assert_eq!(windows_text(&list), "5h 3% / 7d 2%");
    assert_eq!(windows_text(&vec![window("7d", "9%")]), "5h 9% / 7d 9%");
    assert_eq!(windows_text(&vec![]), "暂无额度");
}

#[test]
fn kimi_without_windows_shows_that() {
    assert_eq!(kimi_report(&parsed("{}")).value, "暂无额度");
    assert_eq!(kimi_report(&parsed("{\"limits\":[{\"used\":1}],\"usage\":[]}")).value, "暂无额度");
}

#[test]
fn kimi_quotas_beyond_the_range_are_told_apart() {
    assert!(is_kimi_in_range(&parsed("{\"usage\":{\"limit\":100,\"used\":-1}}")));
    assert!(!is_kimi_in_range(&parsed("{\"usage\":{\"limit\":-1}}")));
    assert!(!is_kimi_in_range(&parsed(
        "{\"limits\":[{\"limit\":1,\"remaining\":-9223372036854775808}]}"
    )));
}
