use std::path::PathBuf;

use token_board::dialogs::update_failed_script;
use token_board::json::{Json, JsonNumber};
use token_board::kimi::kimi_credential_paths_from_home;
use token_board::quota::{codex_window, kimi_membership_name, readable_plan_name};
use token_board::reset::{
    civil_epoch_ms, civil_ms_in_range, codex_reset, codex_reset_epoch_ms, reset_epoch_ms, ResetStamp,
};
use token_board::settings::BoardSettings;
use token_board::tray::{tray_segments, tray_title, TextSize, TrayColor};

const TRAY_FONT_PX: f32 = 26.0;
const TRAY_NAME_FONT_PX: f32 = 22.0;

fn px(size: TextSize) -> f32 {
    match size {
        TextSize::Name => TRAY_NAME_FONT_PX,
        TextSize::Figure => TRAY_FONT_PX,
    }
}

fn segments(provider: &str, value: &str, peak: bool) -> Vec<(String, TrayColor, f32)> {
    tray_segments(provider, value, peak)
        .into_iter()
        .map(|s| (s.text, s.color, px(s.size)))
        .collect()
}

fn num(n: i64) -> Json {
    if n >= 0 {
        Json::Number(JsonNumber::PosInt(n as u64))
    } else {
        Json::Number(JsonNumber::NegInt(n))
    }
}

fn text(s: &str) -> Json {
    Json::String(s.to_owned())
}

fn obj(members: Vec<(&str, Json)>) -> Json {
    Json::Object(members.into_iter().map(|(k, v)| (k.to_owned(), v)).collect())
}

/// A reset time in milliseconds, the seconds of a UTC time read as the app
/// reads them.
fn reset_ms(stamp: &ResetStamp) -> Option<i64> {
    match stamp {
        ResetStamp::Millis(ms) => Some(*ms),
        ResetStamp::Civil(t) => {
            let second_ms = (t.seconds.parse::<f64>().ok()? * 1000.0).round() as i64;
            assert!(civil_ms_in_range(t, second_ms));
            Some(civil_epoch_ms(t, second_ms))
        }
    }
}

fn codex_reset_now(window: &Json) -> Option<i64> {
    let plan = codex_reset(window);
    let absolute = plan.absolute.as_ref().and_then(reset_ms);
    codex_reset_epoch_ms(absolute, plan.relative_secs, token_board::clock::now_ms())
}

#[test]
fn kimi_credentials_prefer_kimi_code_then_legacy_kimi() {
    let paths = kimi_credential_paths_from_home("home");
    assert_eq!(
        paths.map(PathBuf::from),
        [
            PathBuf::from("home/.kimi-code/credentials/kimi-code.json"),
            PathBuf::from("home/.kimi/credentials/kimi-code.json"),
        ]
    );
}

#[test]
fn board_settings_default_to_ten_seconds_and_clamp_invalid_values() {
    let defaults = BoardSettings::default();
    assert!(!defaults.auto_hide);
    assert_eq!(defaults.hide_delay_seconds, 10);
    assert!(defaults.show_plans);
    assert_eq!(
        BoardSettings { auto_hide: true, hide_delay_seconds: 0, ..BoardSettings::default() }
            .normalized()
            .hide_delay_seconds,
        1
    );
    assert_eq!(
        BoardSettings { auto_hide: true, hide_delay_seconds: 9_999, ..BoardSettings::default() }
            .normalized()
            .hide_delay_seconds,
        3_600
    );
}

#[test]
fn normalized_settings_drop_unknown_providers_and_trim_api_keys() {
    let settings = BoardSettings {
        visible_providers: vec!["GLM".into(), "UNKNOWN".into(), "KIMI".into()],
        glm_api_key: "  sk-glm  ".into(),
        deepseek_api_key: " sk-deepseek ".into(),
        ..BoardSettings::default()
    }
    .normalized();
    assert_eq!(settings.visible_providers, ["GLM", "KIMI"]);
    assert_eq!(settings.glm_api_key, "sk-glm");
    assert_eq!(settings.deepseek_api_key, "sk-deepseek");
}

#[test]
fn normalized_settings_keep_at_least_one_display_target() {
    let settings = BoardSettings { show_board: false, show_tray: false, ..BoardSettings::default() }.normalized();
    assert!(settings.show_board);
    let settings = BoardSettings { show_board: false, show_tray: true, ..BoardSettings::default() }.normalized();
    assert!(!settings.show_board);
    assert!(settings.show_tray);
}

#[test]
fn tray_title_joins_percent_windows_and_falls_back_to_last_word() {
    assert_eq!(tray_title("CODEX", "7d 97%"), "CODEX 97%");
    assert_eq!(tray_title("KIMI", "5h 85% / 7d 85%"), "KIMI 85% 85%");
    assert_eq!(tray_title("DEEPSEEK", "余额 ¥7.38"), "DEEPSEEK ¥7.38");
    assert_eq!(tray_title("CODEX", "读取失败"), "CODEX 读取失败");
}

#[test]
fn tray_segments_name_stays_white_and_each_window_colored() {
    let segments_glm = segments("GLM", "5h 90% / 7d 45%", false);
    assert_eq!(
        segments_glm,
        vec![
            ("GLM".to_owned(), TrayColor::White, TRAY_NAME_FONT_PX),
            ("90%".to_owned(), TrayColor::White, TRAY_FONT_PX),
            ("45%".to_owned(), TrayColor::Orange, TRAY_FONT_PX),
        ]
    );
    assert_eq!(
        segments("CODEX", "7d 22%", false),
        vec![
            ("CODEX".to_owned(), TrayColor::White, TRAY_NAME_FONT_PX),
            ("22%".to_owned(), TrayColor::Red, TRAY_FONT_PX)
        ]
    );
    assert_eq!(
        segments("DEEPSEEK", "余额 ¥7.38", false),
        vec![
            ("DEEPSEEK".to_owned(), TrayColor::White, TRAY_NAME_FONT_PX),
            ("¥7.38".to_owned(), TrayColor::White, TRAY_FONT_PX)
        ]
    );
    assert_eq!(
        segments("CODEX", "读取失败", false),
        vec![
            ("CODEX".to_owned(), TrayColor::White, TRAY_NAME_FONT_PX),
            ("读取失败".to_owned(), TrayColor::Red, TRAY_FONT_PX)
        ]
    );
}

#[test]
fn tray_segments_append_peak_marker_to_provider_name() {
    assert_eq!(
        segments("GLM", "5h 41% / 7d 86%", true)[0],
        ("GLM(高)".to_owned(), TrayColor::White, TRAY_NAME_FONT_PX)
    );
    assert_eq!(
        segments("DEEPSEEK", "余额 ¥14.99", true),
        vec![
            ("DEEPSEEK(高)".to_owned(), TrayColor::White, TRAY_NAME_FONT_PX),
            ("¥14.99".to_owned(), TrayColor::White, TRAY_FONT_PX)
        ]
    );
    assert_eq!(segments("GLM", "读取失败", true)[0], ("GLM".to_owned(), TrayColor::White, TRAY_NAME_FONT_PX));
    assert_eq!(segments("GLM", "未配置", true)[0], ("GLM".to_owned(), TrayColor::White, TRAY_NAME_FONT_PX));
}

#[test]
fn update_failed_script_is_valid_multiline_applescript_dialog() {
    let script = update_failed_script();
    assert!(script.starts_with("display dialog \""));
    assert!(script.contains("\" & return & \""));
    assert!(script.contains(r#"com.apple.quarantine \"/Applications/Token 看板.app\""#));
    assert!(script.contains("1.关闭app并将Token 看板.app移入Applications中"));
    assert!(script.contains("3.重新打开app会自动更新下载"));
}

#[test]
fn provider_plan_names_are_readable() {
    assert_eq!(readable_plan_name("plus"), "Plus");
    assert_eq!(readable_plan_name("enterprise_team"), "Enterprise Team");
    assert_eq!(kimi_membership_name("LEVEL_INTERMEDIATE"), "Allegretto");
    assert_eq!(kimi_membership_name("LEVEL_PREMIUM"), "Vivace");
}

#[test]
fn codex_reset_time_prefers_absolute_timestamp_and_falls_back_to_relative() {
    let absolute = obj(vec![
        ("windowDurationMins", num(300)),
        ("usedPercent", num(10)),
        ("resetsAt", num(1_700_000_000)),
    ]);
    assert_eq!(codex_reset_now(&absolute), Some(1_700_000_000_000));
    let relative = obj(vec![("resetsInSeconds", num(120))]);
    let got = codex_reset_now(&relative).expect("relative reset should resolve");
    let base = token_board::clock::now_ms();
    assert!((base..=base + 120_000).contains(&got), "dbg got={got} base={base}");
    assert_eq!(codex_reset_now(&obj(vec![("resetsAt", num(0))])), None);
    assert_eq!(codex_reset_now(&obj(vec![])), None);
}

#[test]
fn codex_window_carries_label_and_reset_time() {
    let window = obj(vec![
        ("windowDurationMins", num(10_080)),
        ("usedPercent", num(40)),
        ("resetsAt", num(1_700_000_000)),
    ]);
    let w = codex_window(&window).expect("7d window");
    assert_eq!(w.minutes, 10_080);
    assert_eq!(w.text, "7d 60%");
    assert_eq!(codex_reset_now(&window), Some(1_700_000_000_000));
    let plain = obj(vec![("windowDurationMins", num(300)), ("usedPercent", num(20))]);
    let w = codex_window(&plain).expect("5h window");
    assert_eq!(w.text, "5h 80%");
    assert_eq!(codex_reset_now(&plain), None);
}

#[test]
fn reset_epoch_ms_handles_timestamps_and_iso_strings() {
    let finish = |value: Option<&Json>| reset_epoch_ms(value).as_ref().and_then(reset_ms);
    assert_eq!(finish(Some(&num(1_770_000_000_000))), Some(1_770_000_000_000));
    assert_eq!(finish(Some(&text("1770000000"))), Some(1_770_000_000_000));
    let iso = text("2026-08-27T01:58:06Z");
    assert_eq!(finish(Some(&iso)), Some(1_787_795_886_000));
    let iso_fractional = text("2026-08-27T01:58:06.064554Z");
    assert_eq!(finish(Some(&iso_fractional)), Some(1_787_795_886_065));
    assert_eq!(finish(Some(&num(0))), None);
    assert_eq!(finish(Some(&text("not-a-time"))), None);
    assert_eq!(finish(None), None);
    let leap = text("2024-02-29T23:59:59Z");
    assert_eq!(finish(Some(&leap)), Some(1_709_251_199_000));
}
