use vstd::prelude::*;

use crate::settings::{all_providers, is_known_provider, normalize, provider_names, string_views, BoardSettings, SettingsView};
use crate::text::{chars_of, concat_chars, slice_chars, starts_with, starts_with_chars, str_equal, string_of};
use crate::tray::title_text;

verus! {

// ---------------------------------------------------------------------------
// Which providers are shown
// ---------------------------------------------------------------------------

/// The known providers that `visible` lists, in the board's order.
pub open spec fn shown_providers(visible: Seq<Seq<char>>) -> Seq<Seq<char>> {
    shown_among(all_providers(), visible)
}

pub open spec fn shown_among(names: Seq<Seq<char>>, visible: Seq<Seq<char>>) -> Seq<Seq<char>>
    decreases names.len(),
{
    if names.len() == 0 {
        seq![]
    } else {
        let rest = shown_among(names.drop_last(), visible);
        if visible.contains(names.last()) {
            rest.push(names.last())
        } else {
            rest
        }
    }
}

/// Whether the settings list `name` among the visible providers.
pub fn provider_visible(settings: &BoardSettings, name: &str) -> (b: bool)
    ensures
        b == settings@.visible_providers.contains(name@),
{
    let mut i: usize = 0;
    while i < settings.visible_providers.len()
        invariant
            i <= settings.visible_providers.len(),
            forall|k: int| 0 <= k < i ==> settings.visible_providers@[k]@ != name@,
        decreases settings.visible_providers.len() - i,
    {
        if str_equal(settings.visible_providers[i].as_str(), name) {
            assert(settings@.visible_providers[i as int] == name@);
            return true;
        }
        i = i + 1;
    }
    proof {
        if settings@.visible_providers.contains(name@) {
            let k = choose|k: int| 0 <= k < settings@.visible_providers.len() && settings@.visible_providers[k] == name@;
            assert(settings.visible_providers@[k]@ == name@);
        }
    }
    false
}

/// The providers whose quotas are read and shown, in the board's order:
/// CODEX, KIMI, GLM, DEEPSEEK, those the settings list.
pub fn providers_to_show(settings: &BoardSettings) -> (r: Vec<String>)
    ensures
        string_views(r@) == shown_providers(settings@.visible_providers),
{
    let names = provider_names();
    let mut r: Vec<String> = Vec::new();
    let mut i: usize = 0;
    while i < names.len()
        invariant
            i <= names.len(),
            string_views(names@) == all_providers(),
            string_views(r@) == shown_among(all_providers().take(i as int), settings@.visible_providers),
        decreases names.len() - i,
    {
        assert(all_providers().take(i + 1).drop_last() == all_providers().take(i as int));
        assert(all_providers().take(i + 1).last() == names@[i as int]@);
        let ghost r0 = r@;
        if provider_visible(settings, names[i].as_str()) {
            r.push(names[i].clone());
            assert(string_views(r@) == string_views(r0).push(names@[i as int]@));
        }
        i = i + 1;
    }
    assert(all_providers().take(4) == all_providers());
    r
}

// ---------------------------------------------------------------------------
// The tray menu
// ---------------------------------------------------------------------------

/// The id of the menu item that puts `name` in the tray.
pub open spec fn provider_item_id(name: Seq<char>) -> Seq<char> {
    "tray-provider-"@ + name
}

/// A provider's item in the tray menu.
pub struct TrayMenuEntry {
    pub id: String,
    pub label: String,
    pub checked: bool,
}

pub struct TrayMenuEntryView {
    pub id: Seq<char>,
    pub label: Seq<char>,
    pub checked: bool,
}

impl View for TrayMenuEntry {
    type V = TrayMenuEntryView;

    open spec fn view(&self) -> TrayMenuEntryView {
        TrayMenuEntryView { id: self.id@, label: self.label@, checked: self.checked }
    }
}

pub open spec fn entry_views(v: Seq<TrayMenuEntry>) -> Seq<TrayMenuEntryView> {
    v.map_values(|e: TrayMenuEntry| e@)
}

/// The provider items of the tray menu: one per shown provider, in order,
/// checked for the tray's provider.
pub open spec fn menu_entries(s: SettingsView) -> Seq<TrayMenuEntryView> {
    shown_providers(s.visible_providers).map_values(
        |name: Seq<char>| TrayMenuEntryView {
            id: provider_item_id(name),
            label: name,
            checked: s.tray_provider == name,
        },
    )
}

/// The provider items of the tray menu (see `menu_entries`).
pub fn tray_menu_entries(settings: &BoardSettings) -> (r: Vec<TrayMenuEntry>)
    ensures
        entry_views(r@) == menu_entries(settings@),
{
    let names = providers_to_show(settings);
    let ghost shown = string_views(names@);
    let mut r: Vec<TrayMenuEntry> = Vec::new();
    let mut i: usize = 0;
    while i < names.len()
        invariant
            i <= names.len(),
            shown == string_views(names@),
            entry_views(r@) == shown.take(i as int).map_values(
                |name: Seq<char>| TrayMenuEntryView {
                    id: provider_item_id(name),
                    label: name,
                    checked: settings@.tray_provider == name,
                },
            ),
        decreases names.len() - i,
    {
        let id = string_of(&concat_chars(&chars_of("tray-provider-"), &chars_of(names[i].as_str())));
        let checked = str_equal(settings.tray_provider.as_str(), names[i].as_str());
        let ghost r0 = r@;
        r.push(TrayMenuEntry { id, label: names[i].clone(), checked });
        assert(entry_views(r@) == entry_views(r0).push(r@.last()@));
        assert(shown.take(i + 1) == shown.take(i as int).push(names@[i as int]@));
        i = i + 1;
    }
    assert(shown.take(names.len() as int) == shown);
    r
}

/// What a click on a tray menu item asks for.
pub enum TrayAction {
    /// Put this provider in the tray.
    SelectProvider(String),
    Refresh,
    OpenSettings,
    CheckUpdates,
    Quit,
    /// An item that asks for nothing.
    Nothing,
}

pub enum TrayActionView {
    SelectProvider(Seq<char>),
    Refresh,
    OpenSettings,
    CheckUpdates,
    Quit,
    Nothing,
}

impl View for TrayAction {
    type V = TrayActionView;

    open spec fn view(&self) -> TrayActionView {
        match self {
            TrayAction::SelectProvider(p) => TrayActionView::SelectProvider(p@),
            TrayAction::Refresh => TrayActionView::Refresh,
            TrayAction::OpenSettings => TrayActionView::OpenSettings,
            TrayAction::CheckUpdates => TrayActionView::CheckUpdates,
            TrayAction::Quit => TrayActionView::Quit,
            TrayAction::Nothing => TrayActionView::Nothing,
        }
    }
}

/// What a tray menu item's id asks for: an id beginning `tray-provider-`
/// selects the provider named by the rest; the four fixed items refresh,
/// open the settings, check for updates and quit.
pub open spec fn action_of(id: Seq<char>) -> TrayActionView {
    let prefix = "tray-provider-"@;
    if starts_with(id, prefix) {
        TrayActionView::SelectProvider(id.skip(prefix.len() as int))
    } else if id == "tray-refresh"@ {
        TrayActionView::Refresh
    } else if id == "tray-settings"@ {
        TrayActionView::OpenSettings
    } else if id == "tray-update"@ {
        TrayActionView::CheckUpdates
    } else if id == "tray-quit"@ {
        TrayActionView::Quit
    } else {
        TrayActionView::Nothing
    }
}

/// What a click on the tray menu item `id` asks for (see `action_of`).
pub fn tray_action(id: &str) -> (r: TrayAction)
    ensures
        r@ == action_of(id@),
{
    let v = chars_of(id);
    let prefix = chars_of("tray-provider-");
    if starts_with_chars(&v, &prefix) {
        let rest = slice_chars(&v, prefix.len(), v.len());
        assert(rest@ == id@.skip(prefix@.len() as int));
        TrayAction::SelectProvider(string_of(&rest))
    } else if str_equal(id, "tray-refresh") {
        TrayAction::Refresh
    } else if str_equal(id, "tray-settings") {
        TrayAction::OpenSettings
    } else if str_equal(id, "tray-update") {
        TrayAction::CheckUpdates
    } else if str_equal(id, "tray-quit") {
        TrayAction::Quit
    } else {
        TrayAction::Nothing
    }
}

/// The settings with `provider` in the tray, normalized.
pub open spec fn with_tray_provider(s: SettingsView, provider: Seq<char>) -> SettingsView {
    normalize(SettingsView { tray_provider: provider, ..s })
}

/// The settings with `provider` in the tray, normalized (see
/// `with_tray_provider`).
pub fn select_tray_provider(settings: BoardSettings, provider: &str) -> (r: BoardSettings)
    ensures
        r@ == with_tray_provider(settings@, provider@),
{
    let updated = BoardSettings { tray_provider: provider.to_owned(), ..settings };
    updated.normalized()
}

/// Each provider item of the tray menu, clicked, selects its provider.
pub proof fn provider_items_select_their_provider(s: SettingsView, i: int)
    requires
        0 <= i < menu_entries(s).len(),
    ensures
        action_of(menu_entries(s)[i].id) == TrayActionView::SelectProvider(menu_entries(s)[i].label),
{
    let e = menu_entries(s)[i];
    let prefix = "tray-provider-"@;
    assert((prefix + e.label).take(prefix.len() as int) == prefix);
    assert((prefix + e.label).skip(prefix.len() as int) == e.label);
}

/// Selecting a known provider puts it in the tray.
pub proof fn selecting_a_known_provider_puts_it_in_the_tray(s: SettingsView, provider: Seq<char>)
    requires
        is_known_provider(provider),
    ensures
        with_tray_provider(s, provider).tray_provider == provider,
{
}

// ---------------------------------------------------------------------------
// The tray's provider line
// ---------------------------------------------------------------------------

/// A quota line as the board sends it to the tray, with the peak-time flag
/// the board computes in local time.
pub struct TrayQuotaLine {
    pub provider: String,
    pub value: String,
    pub peak: bool,
}

/// The first position whose provider is `p`, or -1.
pub open spec fn first_with_provider(providers: Seq<Seq<char>>, p: Seq<char>, i: int) -> int
    decreases providers.len() - i,
{
    if i < 0 || i >= providers.len() {
        -1
    } else if providers[i] == p {
        i
    } else {
        first_with_provider(providers, p, i + 1)
    }
}

pub open spec fn line_providers(lines: Seq<TrayQuotaLine>) -> Seq<Seq<char>> {
    lines.map_values(|l: TrayQuotaLine| l.provider@)
}

/// The line the tray shows: the first of the tray's provider, else the
/// first line, none without lines.
pub open spec fn tray_line_of(lines: Seq<TrayQuotaLine>, tray_provider: Seq<char>) -> Option<int> {
    let k = first_with_provider(line_providers(lines), tray_provider, 0);
    if k >= 0 {
        Some(k)
    } else if lines.len() > 0 {
        Some(0)
    } else {
        None
    }
}

/// The position of the line the tray shows (see `tray_line_of`).
pub fn tray_line_index(lines: &Vec<TrayQuotaLine>, tray_provider: &str) -> (r: Option<usize>)
    ensures
        match r {
            Some(k) => k < lines.len() && tray_line_of(lines@, tray_provider@) == Some(k as int),
            None => tray_line_of(lines@, tray_provider@) is None,
        },
{
    let mut i: usize = 0;
    while i < lines.len()
        invariant
            i <= lines.len(),
            first_with_provider(line_providers(lines@), tray_provider@, 0) == first_with_provider(
                line_providers(lines@),
                tray_provider@,
                i as int,
            ),
        decreases lines.len() - i,
    {
        if str_equal(lines[i].provider.as_str(), tray_provider) {
            return Some(i);
        }
        i = i + 1;
    }
    if lines.len() > 0 {
        Some(0)
    } else {
        None
    }
}

} // verus!
