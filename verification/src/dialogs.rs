use vstd::prelude::*;

use crate::text::{chars_of, concat_chars, join, join_chars, str_equal, string_of, views};

verus! {

/// The lines of the dialog shown when an update cannot be installed.
pub open spec fn update_failed_lines() -> Seq<Seq<char>> {
    seq![
        "更新失败,可能是因为安装包没有进行权限处理,请按以下步骤尝试:"@,
        "1.关闭app并将Token 看板.app移入Applications中"@,
        r#"2.终端执行xattr -dr com.apple.quarantine \"/Applications/Token 看板.app\",没有报错就是成功了"#@,
        "3.重新打开app会自动更新下载"@,
    ]
}

/// The AppleScript that shows the failed-update dialog: the lines joined by
/// AppleScript line breaks (`" & return & "`) inside a `display dialog`
/// with the board's title and one `知道了` button.
pub open spec fn update_failed_text() -> Seq<char> {
    "display dialog \""@ + join(update_failed_lines(), "\" & return & \""@)
        + "\" with title \"Token 看板\" buttons {\"知道了\"} default button \"知道了\""@
}

/// The AppleScript of the failed-update dialog (see `update_failed_text`).
pub fn update_failed_script() -> (r: String)
    ensures
        r@ == update_failed_text(),
{
    let mut lines: Vec<Vec<char>> = Vec::new();
    lines.push(chars_of("更新失败,可能是因为安装包没有进行权限处理,请按以下步骤尝试:"));
    lines.push(chars_of("1.关闭app并将Token 看板.app移入Applications中"));
    lines.push(
        chars_of(
            r#"2.终端执行xattr -dr com.apple.quarantine \"/Applications/Token 看板.app\",没有报错就是成功了"#,
        ),
    );
    lines.push(chars_of("3.重新打开app会自动更新下载"));
    assert(views(lines@) =~= update_failed_lines());
    let message = join_chars(&lines, &chars_of("\" & return & \""));
    let head = concat_chars(&chars_of("display dialog \""), &message);
    let all = concat_chars(
        &head,
        &chars_of("\" with title \"Token 看板\" buttons {\"知道了\"} default button \"知道了\""),
    );
    string_of(&all)
}

/// The AppleScript of the dialog that says CODEX's quota was reset.
pub open spec fn codex_full_text() -> Seq<char> {
    r#"display dialog "codex重置了!!!老铁,抓紧蹬!!" with title "Token 看板" buttons {"知道了"} default button "知道了""#@
}

/// The AppleScript of the CODEX reset dialog (see `codex_full_text`).
pub fn codex_full_script() -> (r: String)
    ensures
        r@ == codex_full_text(),
{
    r#"display dialog "codex重置了!!!老铁,抓紧蹬!!" with title "Token 看板" buttons {"知道了"} default button "知道了""#.to_owned()
}

/// The macOS application a launcher key opens: `huide` 汇兑, `renren`
/// 人人视频 for Mac, `parallels` Parallels Desktop; any other key is refused
/// with `不允许打开未配置的应用`.
pub open spec fn app_for(key: Seq<char>) -> Result<Seq<char>, Seq<char>> {
    if key == "huide"@ {
        Ok("汇兑"@)
    } else if key == "renren"@ {
        Ok("人人视频 for Mac"@)
    } else if key == "parallels"@ {
        Ok("Parallels Desktop"@)
    } else {
        Err("不允许打开未配置的应用"@)
    }
}

pub open spec fn result_view(r: Result<String, String>) -> Result<Seq<char>, Seq<char>> {
    match r {
        Ok(s) => Ok(s@),
        Err(e) => Err(e@),
    }
}

/// The macOS application a launcher key opens (see `app_for`).
pub fn app_name_for(key: &str) -> (r: Result<String, String>)
    ensures
        result_view(r) == app_for(key@),
{
    if str_equal(key, "huide") {
        Ok("汇兑".to_owned())
    } else if str_equal(key, "renren") {
        Ok("人人视频 for Mac".to_owned())
    } else if str_equal(key, "parallels") {
        Ok("Parallels Desktop".to_owned())
    } else {
        Err("不允许打开未配置的应用".to_owned())
    }
}

/// What opening an application came to: nothing to report when `open`
/// succeeded, else `未能打开 NAME`.
pub open spec fn open_outcome_of(app_name: Seq<char>, success: bool) -> Result<(), Seq<char>> {
    if success {
        Ok(())
    } else {
        Err("未能打开 "@ + app_name)
    }
}

/// What opening an application came to (see `open_outcome_of`).
pub fn open_outcome(app_name: &str, success: bool) -> (r: Result<(), String>)
    ensures
        match r {
            Ok(()) => open_outcome_of(app_name@, success) == Ok::<(), Seq<char>>(()),
            Err(e) => open_outcome_of(app_name@, success) == Err::<(), Seq<char>>(e@),
        },
{
    if success {
        Ok(())
    } else {
        Err(string_of(&concat_chars(&chars_of("未能打开 "), &chars_of(app_name))))
    }
}

} // verus!
