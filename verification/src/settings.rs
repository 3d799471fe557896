use vstd::prelude::*;

use crate::text::{lemma_trim_idempotent, str_equal, trim, trim_str};

verus! {

/// The providers the board knows, in the order it shows them.
pub open spec fn all_providers() -> Seq<Seq<char>> {
    seq!["CODEX"@, "KIMI"@, "GLM"@, "DEEPSEEK"@]
}

/// `name` is one of the known providers.
pub open spec fn is_known_provider(name: Seq<char>) -> bool {
    all_providers().contains(name)
}

/// The texts of a list of strings.
pub open spec fn string_views(v: Seq<String>) -> Seq<Seq<char>> {
    v.map_values(|s: String| s@)
}

/// The names of `names` that are known providers, in their order.
pub open spec fn keep_known(names: Seq<Seq<char>>) -> Seq<Seq<char>>
    decreases names.len(),
{
    if names.len() == 0 {
        seq![]
    } else {
        let rest = keep_known(names.drop_last());
        if is_known_provider(names.last()) {
            rest.push(names.last())
        } else {
            rest
        }
    }
}

/// `x.clamp(lo, hi)` for `lo <= hi`.
pub open spec fn clamp(x: int, lo: int, hi: int) -> int {
    if x < lo {
        lo
    } else if x > hi {
        hi
    } else {
        x
    }
}

/// The board's settings, as the settings window edits them.
pub struct BoardSettings {
    pub auto_hide: bool,
    pub hide_delay_seconds: u64,
    pub show_plans: bool,
    pub visible_providers: Vec<String>,
    pub glm_api_key: String,
    pub deepseek_api_key: String,
    pub auto_update: bool,
    pub tray_provider: String,
    pub codex_alert: bool,
    pub show_board: bool,
    pub show_tray: bool,
    pub show_resets: bool,
}

/// What a `BoardSettings` holds, as plain values.
pub struct SettingsView {
    pub auto_hide: bool,
    pub hide_delay_seconds: u64,
    pub show_plans: bool,
    pub visible_providers: Seq<Seq<char>>,
    pub glm_api_key: Seq<char>,
    pub deepseek_api_key: Seq<char>,
    pub auto_update: bool,
    pub tray_provider: Seq<char>,
    pub codex_alert: bool,
    pub show_board: bool,
    pub show_tray: bool,
    pub show_resets: bool,
}

impl View for BoardSettings {
    type V = SettingsView;

    open spec fn view(&self) -> SettingsView {
        SettingsView {
            auto_hide: self.auto_hide,
            hide_delay_seconds: self.hide_delay_seconds,
            show_plans: self.show_plans,
            visible_providers: string_views(self.visible_providers@),
            glm_api_key: self.glm_api_key@,
            deepseek_api_key: self.deepseek_api_key@,
            auto_update: self.auto_update,
            tray_provider: self.tray_provider@,
            codex_alert: self.codex_alert,
            show_board: self.show_board,
            show_tray: self.show_tray,
            show_resets: self.show_resets,
        }
    }
}

/// The settings on first start: no auto-hide, a 10 s delay, plans shown, all
/// providers visible, no keys, automatic updates, CODEX in the tray, the
/// CODEX alert on, board and tray both shown, reset times shown.
pub open spec fn default_settings() -> SettingsView {
    SettingsView {
        auto_hide: false,
        hide_delay_seconds: 10,
        show_plans: true,
        visible_providers: all_providers(),
        glm_api_key: seq![],
        deepseek_api_key: seq![],
        auto_update: true,
        tray_provider: "CODEX"@,
        codex_alert: true,
        show_board: true,
        show_tray: true,
        show_resets: true,
    }
}

/// The settings with every field brought into its allowed range: the delay
/// clamped to 1..=3600 s, unknown providers dropped (order kept), both keys
/// trimmed, an unknown tray provider replaced by CODEX, and the board shown
/// when neither board nor tray would be.
pub open spec fn normalize(s: SettingsView) -> SettingsView {
    SettingsView {
        hide_delay_seconds: clamp(s.hide_delay_seconds as int, 1, 3600) as u64,
        visible_providers: keep_known(s.visible_providers),
        glm_api_key: trim(s.glm_api_key),
        deepseek_api_key: trim(s.deepseek_api_key),
        tray_provider: if is_known_provider(s.tray_provider) {
            s.tray_provider
        } else {
            "CODEX"@
        },
        show_board: s.show_board || !s.show_tray,
        ..s
    }
}

/// Settings in the shape `normalize` gives: a delay of 1 to 3600 seconds,
/// only known providers, trimmed keys, a known tray provider, and at least
/// one place (board or tray) where quotas show.
pub open spec fn is_normal(s: SettingsView) -> bool {
    &&& 1 <= s.hide_delay_seconds <= 3600
    &&& forall|i: int| 0 <= i < s.visible_providers.len() ==> is_known_provider(#[trigger] s.visible_providers[i])
    &&& trim(s.glm_api_key) == s.glm_api_key
    &&& trim(s.deepseek_api_key) == s.deepseek_api_key
    &&& is_known_provider(s.tray_provider)
    &&& (s.show_board || s.show_tray)
}

/// Whether `name` is a known provider.
pub fn known_provider(name: &str) -> (b: bool)
    ensures
        b == is_known_provider(name@),
{
    let r = str_equal(name, "CODEX") || str_equal(name, "KIMI") || str_equal(name, "GLM")
        || str_equal(name, "DEEPSEEK");
    proof {
        assert(all_providers()[0] == "CODEX"@);
        assert(all_providers()[1] == "KIMI"@);
        assert(all_providers()[2] == "GLM"@);
        assert(all_providers()[3] == "DEEPSEEK"@);
        if is_known_provider(name@) {
            let k = choose|k: int| 0 <= k < 4 && all_providers()[k] == name@;
            assert(r);
        }
    }
    r
}

/// The names of the known providers, in the board's order.
pub fn provider_names() -> (r: Vec<String>)
    ensures
        string_views(r@) == all_providers(),
{
    let mut r: Vec<String> = Vec::new();
    r.push("CODEX".to_owned());
    r.push("KIMI".to_owned());
    r.push("GLM".to_owned());
    r.push("DEEPSEEK".to_owned());
    assert(string_views(r@) =~= all_providers());
    r
}

impl Default for BoardSettings {
    /// Settings on first start: no auto-hide, a 10 s delay, plans shown, all
    /// providers visible, no keys, automatic updates, CODEX in the tray, the
    /// CODEX alert on, board and tray both shown, reset times shown.
    fn default() -> (r: Self)
        ensures
            r@ == default_settings(),
    {
        let r = BoardSettings {
            auto_hide: false,
            hide_delay_seconds: 10,
            show_plans: true,
            visible_providers: provider_names(),
            glm_api_key: String::new(),
            deepseek_api_key: String::new(),
            auto_update: true,
            tray_provider: "CODEX".to_owned(),
            codex_alert: true,
            show_board: true,
            show_tray: true,
            show_resets: true,
        };
        assert(r@.glm_api_key =~= seq![]);
        assert(r@.deepseek_api_key =~= seq![]);
        r
    }
}

/// The known providers of `names`, in their order (`Vec::retain`).
pub fn retain_known(names: &Vec<String>) -> (r: Vec<String>)
    ensures
        string_views(r@) == keep_known(string_views(names@)),
{
    let mut r: Vec<String> = Vec::new();
    let mut i: usize = 0;
    while i < names.len()
        invariant
            i <= names.len(),
            string_views(r@) == keep_known(string_views(names@).take(i as int)),
        decreases names.len() - i,
    {
        let ghost before = r@;
        assert(string_views(names@).take(i + 1).drop_last() == string_views(names@).take(i as int));
        assert(string_views(names@).take(i + 1).last() == names@[i as int]@);
        if known_provider(names[i].as_str()) {
            r.push(names[i].clone());
            assert(string_views(r@) == string_views(before).push(names@[i as int]@));
        }
        i = i + 1;
    }
    assert(string_views(names@).take(names.len() as int) == string_views(names@));
    r
}

impl BoardSettings {
    /// The settings with every field brought into its allowed range (see
    /// `normalize`).
    pub fn normalized(self) -> (r: Self)
        ensures
            r@ == normalize(self@),
    {
        let delay = if self.hide_delay_seconds < 1 {
            1
        } else if self.hide_delay_seconds > 3600 {
            3600
        } else {
            self.hide_delay_seconds
        };
        let visible = retain_known(&self.visible_providers);
        let glm = trim_str(self.glm_api_key.as_str());
        let deepseek = trim_str(self.deepseek_api_key.as_str());
        let tray = if known_provider(self.tray_provider.as_str()) {
            self.tray_provider
        } else {
            "CODEX".to_owned()
        };
        let show_board = if !self.show_board && !self.show_tray {
            true
        } else {
            self.show_board
        };
        let r = BoardSettings {
            auto_hide: self.auto_hide,
            hide_delay_seconds: delay,
            show_plans: self.show_plans,
            visible_providers: visible,
            glm_api_key: glm,
            deepseek_api_key: deepseek,
            auto_update: self.auto_update,
            tray_provider: tray,
            codex_alert: self.codex_alert,
            show_board,
            show_tray: self.show_tray,
            show_resets: self.show_resets,
        };
        assert(r@ == normalize(self@));
        r
    }
}

// ---------------------------------------------------------------------------
// Laws of normalization
// ---------------------------------------------------------------------------

proof fn lemma_keep_known_known(names: Seq<Seq<char>>)
    ensures
        forall|i: int| 0 <= i < keep_known(names).len() ==> is_known_provider(
            #[trigger] keep_known(names)[i],
        ),
    decreases names.len(),
{
    if names.len() > 0 {
        let rest = keep_known(names.drop_last());
        lemma_keep_known_known(names.drop_last());
        assert forall|i: int| 0 <= i < keep_known(names).len() implies is_known_provider(
            #[trigger] keep_known(names)[i],
        ) by {
            if i < rest.len() {
                assert(keep_known(names)[i] == rest[i]);
            }
        }
    }
}

proof fn lemma_keep_known_of_known(names: Seq<Seq<char>>)
    requires
        forall|i: int| 0 <= i < names.len() ==> is_known_provider(#[trigger] names[i]),
    ensures
        keep_known(names) == names,
    decreases names.len(),
{
    if names.len() > 0 {
        assert(is_known_provider(names[names.len() - 1]));
        lemma_keep_known_of_known(names.drop_last());
        assert(names.drop_last().push(names.last()) == names);
    }
}

/// Whatever the settings, normalizing them gives normal settings: the delay
/// within 1..=3600 s, only known providers, trimmed keys, a known tray
/// provider, and quotas shown on the board or in the tray.
pub proof fn normalized_settings_are_normal(s: SettingsView)
    ensures
        is_normal(normalize(s)),
{
    lemma_keep_known_known(s.visible_providers);
    lemma_trim_idempotent(s.glm_api_key);
    lemma_trim_idempotent(s.deepseek_api_key);
    assert(all_providers()[0] == "CODEX"@);
}

/// Normal settings come out of normalizing unchanged.
pub proof fn normal_settings_are_kept(s: SettingsView)
    requires
        is_normal(s),
    ensures
        normalize(s) == s,
{
    lemma_keep_known_of_known(s.visible_providers);
}

/// Normalizing twice gives what normalizing once gives.
pub proof fn normalize_is_idempotent(s: SettingsView)
    ensures
        normalize(normalize(s)) == normalize(s),
{
    normalized_settings_are_normal(s);
    normal_settings_are_kept(normalize(s));
}

/// The settings on first start are normal, so normalizing keeps them.
pub proof fn default_settings_are_normal()
    ensures
        is_normal(default_settings()),
        normalize(default_settings()) == default_settings(),
{
    let d = default_settings();
    assert forall|i: int| 0 <= i < d.visible_providers.len() implies is_known_provider(
        #[trigger] d.visible_providers[i],
    ) by {
        assert(all_providers().contains(all_providers()[i]));
    }
    assert(trim(Seq::<char>::empty()) == Seq::<char>::empty());
    assert(all_providers()[0] == "CODEX"@);
    normal_settings_are_kept(d);
}

/// The settings read from disk: the stored ones when they could be read,
/// else the defaults, normalized either way.
pub open spec fn settings_read(stored: Option<SettingsView>) -> SettingsView {
    normalize(
        match stored {
            Some(s) => s,
            None => default_settings(),
        },
    )
}

/// The settings read from disk (see `settings_read`).
pub fn settings_or_default(stored: Option<BoardSettings>) -> (r: BoardSettings)
    ensures
        r@ == settings_read(
            match stored {
                Some(s) => Some(s@),
                None => None,
            },
        ),
{
    let s = match stored {
        Some(s) => s,
        None => BoardSettings::default(),
    };
    s.normalized()
}

/// Reading settings back: stored settings `s` read back as `s` normalized,
/// so settings saved after normalizing read back unchanged; where nothing
/// could be read, the defaults come back as they are.
pub proof fn saved_settings_read_back(s: SettingsView)
    ensures
        settings_read(Some(s)) == normalize(s),
        settings_read(Some(normalize(s))) == normalize(s),
        settings_read(None) == default_settings(),
{
    normalize_is_idempotent(s);
    default_settings_are_normal();
}

} // verus!
