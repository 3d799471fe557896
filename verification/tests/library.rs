use token_board::clock::{epoch_ms_of, now_ms};
use token_board::deepseek::deepseek_line;
use token_board::dialogs::{app_name_for, codex_full_script, open_outcome};
use token_board::glm::glm_line;
use token_board::json::{number, Json, JsonNumber};
use token_board::kimi::{
    kimi_fetch_start, kimi_fetch_step, KimiAction, KimiEvent, KimiPhase, kimi_line, kimi_refreshed_tokens, kimi_usable_token, kimi_credential_paths_from_home};
use token_board::menu::{
    provider_visible, providers_to_show, select_tray_provider, tray_action, tray_line_index,
    tray_menu_entries, TrayAction, TrayQuotaLine,
};
use token_board::fonts::{font_choice, FontChoice};
use token_board::quota::{
    codex_after_failure, codex_read_step, codex_read_text, plan_name_of_cased, provider_key_from_output, CodexLine, CodexRetry, CodexStep,
    codex_reply, provider_key_from_config, provider_key_query, provider_key_with_override,
    readable_plan_name, remaining, window_label, CodexReply, QuotaLine,
};
use token_board::reset::{parse_iso_utc_ms, reset_epoch_ms, ResetStamp};
use token_board::settings::{settings_or_default, BoardSettings};
use token_board::tray::{tray_title, TrayColor};

fn num(n: i64) -> Json {
    if n >= 0 {
        Json::Number(JsonNumber::PosInt(n as u64))
    } else {
        Json::Number(JsonNumber::NegInt(n))
    }
}

fn text(s: &str) -> Json {
    Json::String(s.to_owned())
}

fn obj(members: Vec<(&str, Json)>) -> Json {
    Json::Object(members.into_iter().map(|(k, v)| (k.to_owned(), v)).collect())
}

fn same_settings(a: &BoardSettings, b: &BoardSettings) -> bool {
    a.auto_hide == b.auto_hide
        && a.hide_delay_seconds == b.hide_delay_seconds
        && a.show_plans == b.show_plans
        && a.visible_providers == b.visible_providers
        && a.glm_api_key == b.glm_api_key
        && a.deepseek_api_key == b.deepseek_api_key
        && a.auto_update == b.auto_update
        && a.tray_provider == b.tray_provider
        && a.codex_alert == b.codex_alert
        && a.show_board == b.show_board
        && a.show_tray == b.show_tray
        && a.show_resets == b.show_resets
}

fn odd_settings() -> BoardSettings {
    BoardSettings {
        auto_hide: true,
        hide_delay_seconds: 0,
        show_plans: false,
        visible_providers: vec!["KIMI".into(), "kimi".into(), "DEEPSEEK".into(), "".into()],
        glm_api_key: "\u{3000}sk-glm\u{a0}".into(),
        deepseek_api_key: "\t\n".into(),
        auto_update: false,
        tray_provider: "OTHER".into(),
        codex_alert: false,
        show_board: false,
        show_tray: false,
        show_resets: false,
    }
}

#[test]
fn normalizing_twice_equals_normalizing_once() {
    let once = odd_settings().normalized();
    let twice = odd_settings().normalized().normalized();
    assert!(same_settings(&once, &twice));
    assert_eq!(once.visible_providers, ["KIMI", "DEEPSEEK"]);
    assert_eq!(once.glm_api_key, "sk-glm");
    assert_eq!(once.deepseek_api_key, "");
    assert_eq!(once.tray_provider, "CODEX");
    assert!(once.show_board && !once.show_tray);
    assert_eq!(once.hide_delay_seconds, 1);
    assert!(once.auto_hide && !once.show_plans && !once.auto_update && !once.codex_alert && !once.show_resets);
}

#[test]
fn defaults_are_kept_by_normalizing() {
    let d = BoardSettings::default();
    assert!(same_settings(&d, &BoardSettings::default().normalized()));
    assert_eq!(d.visible_providers, ["CODEX", "KIMI", "GLM", "DEEPSEEK"]);
    assert_eq!(d.tray_provider, "CODEX");
    assert!(d.glm_api_key.is_empty() && d.deepseek_api_key.is_empty());
    assert!(d.auto_update && d.codex_alert && d.show_board && d.show_tray && d.show_resets);
    assert!(same_settings(&settings_or_default(None), &d));
    let stored = settings_or_default(Some(BoardSettings { hide_delay_seconds: 5000, ..BoardSettings::default() }));
    assert_eq!(stored.hide_delay_seconds, 3600);
}

#[test]
fn colours_follow_the_thresholds() {
    assert_eq!(TrayColor::for_pct(0), TrayColor::Red);
    assert_eq!(TrayColor::for_pct(30), TrayColor::Red);
    assert_eq!(TrayColor::for_pct(31), TrayColor::Orange);
    assert_eq!(TrayColor::for_pct(60), TrayColor::Orange);
    assert_eq!(TrayColor::for_pct(61), TrayColor::White);
    assert_eq!(TrayColor::White.rgb(), [245, 245, 245]);
    assert_eq!(TrayColor::Orange.rgb(), [235, 138, 10]);
    assert_eq!(TrayColor::Red.rgb(), [255, 69, 58]);
}

#[test]
fn remaining_is_a_percentage_of_the_limit() {
    assert_eq!(remaining(0, 100), "100%");
    assert_eq!(remaining(150, 100), "0%");
    assert_eq!(remaining(-5, 100), "100%");
    assert_eq!(remaining(1, 3), "66%");
    assert_eq!(remaining(0, 0), "0%");
    assert_eq!(remaining(15, 100), "85%");
}

#[test]
fn window_labels_prefer_days_then_hours_then_minutes() {
    assert_eq!(window_label(300), "5h");
    assert_eq!(window_label(10_080), "7d");
    assert_eq!(window_label(90), "90m");
    assert_eq!(window_label(-60), "-1h");
    assert_eq!(window_label(0), "0d");
}

#[test]
fn numbers_come_from_integers_and_integer_strings() {
    assert_eq!(number(Some(&text("+12"))), Some(12));
    assert_eq!(number(Some(&text("-7"))), Some(-7));
    assert_eq!(number(Some(&text("-"))), None);
    assert_eq!(number(Some(&text(" 5"))), None);
    assert_eq!(number(Some(&text("9223372036854775808"))), None);
    assert_eq!(number(Some(&text("-9223372036854775808"))), Some(i64::MIN));
    assert_eq!(number(Some(&Json::Number(JsonNumber::PosInt(u64::MAX)))), None);
    assert_eq!(number(Some(&Json::Number(JsonNumber::Float))), None);
    assert_eq!(number(Some(&Json::Bool(true))), None);
    assert_eq!(number(None), None);
}

#[test]
fn iso_times_need_a_date_a_time_and_a_real_month() {
    assert!(parse_iso_utc_ms("2026-13-01T00:00:00Z").is_none());
    assert!(parse_iso_utc_ms("2026-01-32T00:00:00Z").is_none());
    assert!(parse_iso_utc_ms("2026-01-01").is_none());
    assert!(parse_iso_utc_ms("2026-01T00:00").is_none());
    let t = parse_iso_utc_ms("  2026-08-27T01:58 ").expect("no seconds");
    assert_eq!((t.year, t.month, t.day, t.hour, t.minute), (2026, 8, 27, 1, 58));
    assert_eq!(t.seconds, "0");
    let t = parse_iso_utc_ms("2026-08-27T01:58:06.5Z").expect("fraction");
    assert_eq!(t.seconds, "06.5");
}

#[test]
fn small_and_second_timestamps() {
    match reset_epoch_ms(Some(&num(999_999_999))) {
        None => {}
        _ => panic!("a placeholder gives no reset"),
    }
    match reset_epoch_ms(Some(&num(1_000_000_000))) {
        Some(ResetStamp::Millis(ms)) => assert_eq!(ms, 1_000_000_000_000),
        _ => panic!("seconds become milliseconds"),
    }
    match reset_epoch_ms(Some(&num(i64::MAX / 10))) {
        Some(ResetStamp::Millis(ms)) => assert_eq!(ms, i64::MAX / 10),
        _ => panic!("milliseconds stay"),
    }
}

fn glm_payload() -> Json {
    obj(vec![(
        "data",
        obj(vec![
            (
                "limits",
                Json::Array(vec![
                    obj(vec![
                        ("type", text("TOKENS_LIMIT")),
                        ("unit", num(6)),
                        ("number", num(1)),
                        ("percentage", num(55)),
                        ("nextResetTime", num(1_770_000_000_000)),
                    ]),
                    obj(vec![("type", text("TIME_LIMIT")), ("unit", num(3)), ("number", num(1))]),
                    obj(vec![
                        ("type", text("TOKENS_LIMIT")),
                        ("unit", num(3)),
                        ("number", num(5)),
                        ("percentage", num(10)),
                    ]),
                ]),
            ),
            ("level", text("pro")),
        ]),
    )])
}

#[test]
fn glm_line_shows_shortest_then_longest_window() {
    let line = glm_line(&glm_payload()).expect("no overflow");
    assert_eq!(line.provider, "GLM");
    assert_eq!(line.value, "5h 90% / 7d 45%");
    assert_eq!(line.plan.as_deref(), Some("pro"));
    assert_eq!(line.resets.len(), 1);
    assert_eq!(line.resets[0].label, "7d");
    match &line.resets[0].reset.absolute {
        Some(ResetStamp::Millis(ms)) => assert_eq!(*ms, 1_770_000_000_000),
        _ => panic!("reset in milliseconds"),
    }
    let empty = glm_line(&obj(vec![])).expect("no overflow");
    assert_eq!(empty.value, "暂无额度");
    assert!(empty.plan.is_none() && empty.resets.is_empty());
    let unknown = obj(vec![(
        "data",
        obj(vec![("limits", Json::Array(vec![obj(vec![("type", text("TOKENS_LIMIT")), ("unit", num(9))])]))]),
    )]);
    assert_eq!(glm_line(&unknown).expect("no overflow").value, "? 0% / ? 0%");
}

#[test]
fn glm_line_refuses_overflowing_windows() {
    let huge = obj(vec![(
        "data",
        obj(vec![(
            "limits",
            Json::Array(vec![obj(vec![
                ("type", text("TOKENS_LIMIT")),
                ("unit", num(6)),
                ("number", num(i64::MAX / 100)),
            ])]),
        )]),
    )]);
    assert!(glm_line(&huge).is_none());
    let low = obj(vec![(
        "data",
        obj(vec![(
            "limits",
            Json::Array(vec![obj(vec![
                ("type", text("TOKENS_LIMIT")),
                ("unit", num(3)),
                ("number", num(5)),
                ("percentage", num(i64::MIN)),
            ])]),
        )]),
    )]);
    assert!(glm_line(&low).is_none());
}

fn kimi_payload() -> Json {
    obj(vec![
        (
            "limits",
            Json::Array(vec![obj(vec![
                ("window", obj(vec![("duration", num(300)), ("timeUnit", text("TIME_UNIT_MINUTE"))])),
                (
                    "detail",
                    obj(vec![
                        ("limit", text("100")),
                        ("remaining", num(85)),
                        ("resetTime", text("2026-08-27T01:58:06Z")),
                    ]),
                ),
            ])]),
        ),
        ("usage", obj(vec![("limit", num(100)), ("used", num(40))])),
        ("user", obj(vec![("membership", obj(vec![("level", text("LEVEL_BASIC"))]))])),
    ])
}

#[test]
fn kimi_line_shows_five_hour_and_seven_day_rows() {
    let line = kimi_line(&kimi_payload()).expect("no overflow");
    assert_eq!(line.provider, "KIMI");
    assert_eq!(line.value, "5h 85% / 7d 60%");
    assert_eq!(line.plan.as_deref(), Some("Adagio"));
    assert_eq!(line.resets.len(), 1);
    assert_eq!(line.resets[0].label, "5h");
    let single = obj(vec![("usage", obj(vec![("limit", num(10)), ("remaining", num(3))]))]);
    let line = kimi_line(&single).expect("no overflow");
    assert_eq!(line.value, "5h 30% / 7d 30%");
    let none = kimi_line(&obj(vec![])).expect("no overflow");
    assert_eq!(none.value, "暂无额度");
    let named = obj(vec![(
        "limits",
        Json::Array(vec![obj(vec![("name", text("weekly")), ("detail", obj(vec![("limit", num(4)), ("used", num(1))]))])]),
    )]);
    assert_eq!(kimi_line(&named).expect("no overflow").value, "weekly 75%");
}

#[test]
fn kimi_line_refuses_negative_limits() {
    let bad = obj(vec![("usage", obj(vec![("limit", num(-1))]))]);
    assert!(kimi_line(&bad).is_none());
    let wide = obj(vec![("usage", obj(vec![("limit", num(i64::MAX)), ("used", num(0))]))]);
    assert!(kimi_line(&wide).is_none());
}

#[test]
fn deepseek_line_shows_the_balance() {
    let payload = obj(vec![(
        "balance_infos",
        Json::Array(vec![obj(vec![("total_balance", text("7.38"))])]),
    )]);
    let line = deepseek_line(&payload);
    assert_eq!(line.value, "余额 ¥7.38");
    assert_eq!(line.plan.as_deref(), Some("Token"));
    assert_eq!(deepseek_line(&obj(vec![])).value, "余额 ¥—");
}

#[test]
fn codex_reply_sorts_windows_and_skips_other_lines() {
    match codex_reply(&obj(vec![("id", num(1))])) {
        CodexReply::Skip => {}
        _ => panic!("other replies are skipped"),
    }
    match codex_reply(&obj(vec![("id", num(2)), ("result", obj(vec![]))])) {
        CodexReply::Done(None) => {}
        _ => panic!("a reply without limits ends the reading"),
    }
    let reply = obj(vec![
        ("id", num(2)),
        (
            "result",
            obj(vec![(
                "rateLimits",
                obj(vec![
                    ("secondary", obj(vec![("windowDurationMins", num(10_080)), ("usedPercent", num(3)), ("resetsAt", num(1_700_000_000))])),
                    ("primary", obj(vec![("windowDurationMins", num(300)), ("usedPercent", num(150))])),
                    ("planType", text("plus")),
                ]),
            )]),
        ),
    ]);
    match codex_reply(&reply) {
        CodexReply::Done(Some(limits)) => {
            assert_eq!(limits.usage, "5h 0% / 7d 97%");
            assert_eq!(limits.plan.as_deref(), Some("Plus"));
            assert_eq!(limits.resets.len(), 1);
            assert_eq!(limits.resets[0].label, "7d");
        }
        _ => panic!("limits expected"),
    }
}

#[test]
fn tray_menu_items_select_their_provider() {
    let settings = BoardSettings {
        visible_providers: vec!["GLM".into(), "CODEX".into()],
        tray_provider: "GLM".into(),
        ..BoardSettings::default()
    };
    let names = providers_to_show(&settings);
    assert_eq!(names, ["CODEX", "GLM"]);
    assert!(provider_visible(&settings, "GLM"));
    assert!(!provider_visible(&settings, "KIMI"));
    let entries = tray_menu_entries(&settings);
    assert_eq!(entries.len(), 2);
    assert_eq!(entries[0].id, "tray-provider-CODEX");
    assert!(!entries[0].checked && entries[1].checked);
    for entry in &entries {
        match tray_action(&entry.id) {
            TrayAction::SelectProvider(p) => assert_eq!(p, entry.label),
            _ => panic!("a provider item selects its provider"),
        }
    }
    assert!(matches!(tray_action("tray-refresh"), TrayAction::Refresh));
    assert!(matches!(tray_action("tray-settings"), TrayAction::OpenSettings));
    assert!(matches!(tray_action("tray-update"), TrayAction::CheckUpdates));
    assert!(matches!(tray_action("tray-quit"), TrayAction::Quit));
    assert!(matches!(tray_action("tray-version"), TrayAction::Nothing));
    let chosen = select_tray_provider(BoardSettings::default(), "KIMI");
    assert_eq!(chosen.tray_provider, "KIMI");
    let unknown = select_tray_provider(BoardSettings::default(), "NOPE");
    assert_eq!(unknown.tray_provider, "CODEX");
}

#[test]
fn tray_shows_the_chosen_provider_or_the_first_line() {
    let lines = vec![
        TrayQuotaLine { provider: "KIMI".into(), value: "5h 1% / 7d 2%".into(), peak: false },
        TrayQuotaLine { provider: "GLM".into(), value: "5h 3% / 7d 4%".into(), peak: true },
    ];
    assert_eq!(tray_line_index(&lines, "GLM"), Some(1));
    assert_eq!(tray_line_index(&lines, "CODEX"), Some(0));
    assert_eq!(tray_line_index(&Vec::new(), "CODEX"), None);
}

#[test]
fn case_mapping_goes_through_the_standard_library() {
    assert_eq!(tray_title("codex", "7d 97%"), "CODEX 97%");
    assert_eq!(readable_plan_name("ENTERPRISE-TEAM"), "Enterprise Team");
    assert_eq!(readable_plan_name("LEVEL_LEVEL_pro__max"), "Pro Max");
    assert_eq!(readable_plan_name("  "), "");
}

#[test]
fn launcher_keys_map_to_applications() {
    assert_eq!(app_name_for("huide"), Ok("汇兑".to_owned()));
    assert_eq!(app_name_for("renren"), Ok("人人视频 for Mac".to_owned()));
    assert_eq!(app_name_for("parallels"), Ok("Parallels Desktop".to_owned()));
    assert_eq!(app_name_for("calculator"), Err("不允许打开未配置的应用".to_owned()));
    assert_eq!(open_outcome("汇兑", true), Ok(()));
    assert_eq!(open_outcome("汇兑", false), Err("未能打开 汇兑".to_owned()));
    assert!(codex_full_script().starts_with("display dialog \"codex重置了"));
}

#[test]
fn keys_come_from_settings_or_cc_switch() {
    assert_eq!(provider_key_with_override(""), None);
    assert_eq!(provider_key_with_override("sk-1"), Some("sk-1".to_owned()));
    assert_eq!(
        provider_key_query("Zhipu GLM"),
        "SELECT settings_config FROM providers WHERE app_type='codex' AND name='Zhipu GLM' LIMIT 1;"
    );
    let config = obj(vec![("auth", obj(vec![("OPENAI_API_KEY", text("sk-x"))]))]);
    assert_eq!(provider_key_from_config(&config), Some("sk-x".to_owned()));
    assert_eq!(provider_key_from_config(&obj(vec![("auth", obj(vec![]))])), None);
}

#[test]
fn kimi_tokens_and_paths() {
    let credential = obj(vec![("access_token", text("tok")), ("refresh_token", text("ref"))]);
    assert_eq!(kimi_usable_token(&credential, false), Some("tok".to_owned()));
    assert_eq!(kimi_usable_token(&credential, true), None);
    assert_eq!(kimi_usable_token(&obj(vec![("access_token", text(""))]), false), None);
    assert_eq!(
        kimi_refreshed_tokens(&obj(vec![("access_token", text("new"))])),
        Some(("new".to_owned(), None))
    );
    assert_eq!(kimi_refreshed_tokens(&obj(vec![])), None);
    assert_eq!(kimi_credential_paths_from_home("/Users/me/")[1], "/Users/me/.kimi/credentials/kimi-code.json");
    assert_eq!(kimi_credential_paths_from_home("")[0], ".kimi-code/credentials/kimi-code.json");
}

#[test]
fn status_lines_and_clock() {
    let line = QuotaLine::status("CODEX", "读取失败");
    assert_eq!(line.provider, "CODEX");
    assert_eq!(line.value, "读取失败");
    assert!(line.plan.is_none() && line.resets.is_empty());
    assert!(now_ms() > 1_600_000_000_000);
}

#[test]
fn clock_readings_become_signed_milliseconds() {
    assert_eq!(epoch_ms_of(None), 0);
    assert_eq!(epoch_ms_of(Some(1_700_000_000_123)), 1_700_000_000_123);
    assert_eq!(epoch_ms_of(Some((1u128 << 64) + 5)), 5);
    assert_eq!(epoch_ms_of(Some(1u128 << 63)), i64::MIN);
}

#[test]
fn saved_settings_read_back_normalized() {
    let saved = odd_settings().normalized();
    let read = settings_or_default(Some(odd_settings().normalized()));
    assert!(same_settings(&read, &saved));
    let raw = settings_or_default(Some(odd_settings()));
    assert!(same_settings(&raw, &saved));
    assert!(same_settings(&settings_or_default(None), &BoardSettings::default()));
}

#[test]
fn zone_mark_and_white_space_do_not_change_a_time() {
    let plain = parse_iso_utc_ms("2026-08-27T01:58:06.064").expect("fields");
    for text in ["2026-08-27T01:58:06.064Z", "  2026-08-27T01:58:06.064Z ", "\t2026-08-27T01:58:06.064\n"] {
        let t = parse_iso_utc_ms(text).expect("fields");
        assert_eq!(
            (t.year, t.month, t.day, t.hour, t.minute, t.seconds.as_str()),
            (plain.year, plain.month, plain.day, plain.hour, plain.minute, plain.seconds.as_str())
        );
    }
    assert_eq!((plain.year, plain.month, plain.day, plain.hour, plain.minute), (2026, 8, 27, 1, 58));
    assert_eq!(plain.seconds, "06.064");
}

#[test]
fn codex_reading_stops_at_the_reply_or_the_line_limit() {
    assert!(matches!(codex_read_step(0, CodexLine::End), CodexStep::Finish(None)));
    assert!(matches!(codex_read_step(3, CodexLine::Broken), CodexStep::Finish(None)));
    assert!(matches!(codex_read_step(0, CodexLine::NotJson), CodexStep::ReadOn));
    assert!(matches!(codex_read_step(62, CodexLine::NotJson), CodexStep::ReadOn));
    assert!(matches!(codex_read_step(63, CodexLine::NotJson), CodexStep::Finish(None)));
    assert!(matches!(codex_read_step(5, CodexLine::Payload(obj(vec![("id", num(1))]))), CodexStep::ReadOn));
    assert!(matches!(
        codex_read_step(63, CodexLine::Payload(obj(vec![("id", num(1))]))),
        CodexStep::Finish(None)
    ));
    let reply = obj(vec![(
        "id",
        num(2),
    ), (
        "result",
        obj(vec![("rateLimits", obj(vec![("primary", obj(vec![("windowDurationMins", num(300)), ("usedPercent", num(40))]))]))]),
    )]);
    match codex_read_step(63, CodexLine::Payload(reply)) {
        CodexStep::Finish(Some(limits)) => assert_eq!(limits.usage, "5h 60%"),
        _ => panic!("the reply ends the reading with its limits"),
    }
    assert_eq!(codex_after_failure(0), CodexRetry::AfterPause(600));
    assert_eq!(codex_after_failure(1), CodexRetry::GiveUp);
}

#[test]
fn fonts_fall_back_only_for_missing_glyphs() {
    assert_eq!(font_choice(12, Some(40)), FontChoice::Primary);
    assert_eq!(font_choice(0, Some(40)), FontChoice::Fallback);
    assert_eq!(font_choice(0, Some(0)), FontChoice::Primary);
    assert_eq!(font_choice(0, None), FontChoice::Primary);
}

#[test]
fn plan_names_join_their_cased_words() {
    let parts = vec![("E".to_owned(), "nterprise".to_owned()), ("T".to_owned(), "eam".to_owned())];
    assert_eq!(plan_name_of_cased(&parts), "Enterprise Team");
    assert_eq!(plan_name_of_cased(&vec![]), "");
    assert_eq!(readable_plan_name("plus"), "Plus");
}

#[test]
fn codex_lines_are_read_as_json_text() {
    assert!(matches!(codex_read_text(0, None), CodexStep::Finish(None)));
    assert!(matches!(codex_read_text(0, Some(None)), CodexStep::Finish(None)));
    assert!(matches!(codex_read_text(0, Some(Some("not json"))), CodexStep::ReadOn));
    assert!(matches!(codex_read_text(63, Some(Some("not json"))), CodexStep::Finish(None)));
    assert!(matches!(codex_read_text(0, Some(Some(r#"{"id":1,"result":{}}"#))), CodexStep::ReadOn));
    let reply = r#"{"id":2,"result":{"rateLimits":{"primary":{"windowDurationMins":300,"usedPercent":25},"planType":"plus"}}}"#;
    match codex_read_text(10, Some(Some(reply))) {
        CodexStep::Finish(Some(limits)) => {
            assert_eq!(limits.usage, "5h 75%");
            assert_eq!(limits.plan.as_deref(), Some("Plus"));
        }
        _ => panic!("the reply gives the limits"),
    }
}

#[test]
fn cc_switch_output_gives_the_stored_key() {
    assert_eq!(provider_key_from_output(br#"{"auth":{"OPENAI_API_KEY":"sk-1"}}"#).as_deref(), Some("sk-1"));
    assert_eq!(provider_key_from_output(b"{\"auth\":{}}\n").as_deref(), None);
    assert_eq!(provider_key_from_output(b"").as_deref(), None);
    assert_eq!(provider_key_from_output(b"Error: no such table").as_deref(), None);
}

#[test]
fn kimi_fetch_uses_a_fresh_token_then_refreshes_once_on_refusal() {
    let (state, action) = kimi_fetch_start();
    assert!(matches!(action, KimiAction::ReadCredential(0)));
    let credential = br#"{"access_token":"at","refresh_token":"rt","expires_at":1}"#.to_vec();
    let (state, action) = kimi_fetch_step(state, KimiEvent::Credential { bytes: Some(credential), expiring: false });
    assert!(matches!(&action, KimiAction::Fetch(t) if t == "at"));
    let (state, action) = kimi_fetch_step(state, KimiEvent::Usages(None));
    assert!(matches!(&action, KimiAction::Refresh(t) if t == "rt"));
    let body = obj(vec![("access_token", text("at2")), ("refresh_token", text("rt2"))]);
    let (state, action) = kimi_fetch_step(state, KimiEvent::Refreshed(Some(body)));
    assert_eq!(state.phase, KimiPhase::RetryFetch);
    assert_eq!(state.refresh_token.as_deref(), Some("rt2"));
    match &action {
        KimiAction::SaveAndFetch { access_token, refresh_token } => {
            assert_eq!(access_token, "at2");
            assert_eq!(refresh_token.as_deref(), Some("rt2"));
        }
        _ => panic!("new tokens are stored and used"),
    }
    let (_, action) = kimi_fetch_step(state, KimiEvent::Usages(Some(obj(vec![("limits", Json::Array(vec![]))]))));
    assert!(matches!(action, KimiAction::Done(Some(_))));
}

#[test]
fn kimi_fetch_passes_to_the_next_file_and_gives_up_after_the_last() {
    let (state, _) = kimi_fetch_start();
    let (state, action) = kimi_fetch_step(state, KimiEvent::Credential { bytes: Some(b"{oops".to_vec()), expiring: false });
    assert!(matches!(action, KimiAction::ReadCredential(1)));
    let expired = br#"{"access_token":"at","expires_at":1}"#.to_vec();
    let (state, action) = kimi_fetch_step(state, KimiEvent::Credential { bytes: Some(expired), expiring: true });
    assert!(matches!(action, KimiAction::Done(None)));
    assert_eq!(state.phase, KimiPhase::Finished);
    let (state, _) = kimi_fetch_start();
    let (state, action) = kimi_fetch_step(state, KimiEvent::Credential { bytes: None, expiring: true });
    assert!(matches!(action, KimiAction::ReadCredential(1)));
    let credential = br#"{"access_token":"","refresh_token":"rt"}"#.to_vec();
    let (state, action) = kimi_fetch_step(state, KimiEvent::Credential { bytes: Some(credential), expiring: false });
    assert!(matches!(&action, KimiAction::Refresh(t) if t == "rt"));
    let (_, action) = kimi_fetch_step(state, KimiEvent::Refreshed(None));
    assert!(matches!(action, KimiAction::Done(None)));
}
