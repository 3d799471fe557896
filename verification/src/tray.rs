use vstd::prelude::*;

use crate::settings::{all_providers, is_known_provider, normalize, string_views, BoardSettings, SettingsView, provider_names};
use crate::text::{
    chars_of, concat_chars, contains, contains_chars, ends_with, ends_with_chars, find, find_from,
    join, join_chars, occurs_at,
    parse_u64, parse_u64_chars, rfind_any_chars, rsplit_once_any, slice_chars, split_str,
    split_str_chars, starts_with, starts_with_chars, str_equal, string_of, to_uppercase,
    trim_end_matches, trim_end_matches_chars, unicode_uppercase, views,
};

verus! {

// ---------------------------------------------------------------------------
// Words of a quota text
// ---------------------------------------------------------------------------

/// The text after the last space, when there is a space.
pub open spec fn last_word(s: Seq<char>) -> Option<Seq<char>> {
    match rsplit_once_any(s, seq![' ']) {
        Some((_, tail)) => Some(tail),
        None => None,
    }
}

/// The last word of a text, or the whole text when it has no space.
pub open spec fn last_word_or_all(s: Seq<char>) -> Seq<char> {
    match last_word(s) {
        Some(t) => t,
        None => s,
    }
}

/// The last words of the parts that end in `%`, in order.
pub open spec fn percent_words(parts: Seq<Seq<char>>) -> Seq<Seq<char>>
    decreases parts.len(),
{
    if parts.len() == 0 {
        seq![]
    } else {
        let rest = percent_words(parts.drop_last());
        match last_word(parts.last()) {
            Some(t) => if ends_with(t, seq!['%']) {
                rest.push(t)
            } else {
                rest
            },
            None => rest,
        }
    }
}

/// The percentages of a quota text such as `5h 85% / 7d 60%`: the last
/// word of each ` / `-separated part, those ending in `%`.
pub open spec fn percents_of(value: Seq<char>) -> Seq<Seq<char>> {
    percent_words(split_str(value, " / "@))
}

fn last_word_chars(s: &[char]) -> (r: Option<Vec<char>>)
    ensures
        match r {
            Some(t) => last_word(s@) == Some(t@),
            None => last_word(s@) is None,
        },
{
    let space = vec![' '];
    assert(space@ == seq![' ']);
    match rfind_any_chars(s, &space) {
        Some(k) => {
            let t = slice_chars(s, k + 1, s.len());
            assert(t@ == s@.skip(k + 1));
            Some(t)
        },
        None => None,
    }
}

fn last_word_or_all_chars(s: &[char]) -> (r: Vec<char>)
    ensures
        r@ == last_word_or_all(s@),
{
    match last_word_chars(s) {
        Some(t) => t,
        None => {
            let all = slice_chars(s, 0, s.len());
            assert(s@.subrange(0, s@.len() as int) == s@);
            all
        },
    }
}

fn percents_chars(value: &[char]) -> (r: Vec<Vec<char>>)
    ensures
        views(r@) == percents_of(value@),
{
    let sep = chars_of(" / ");
    proof {
        reveal_strlit(" / ");
    }
    let parts = split_str_chars(value, &sep);
    let mut r: Vec<Vec<char>> = Vec::new();
    let mut i: usize = 0;
    let pct = vec!['%'];
    assert(pct@ == seq!['%']);
    while i < parts.len()
        invariant
            i <= parts.len(),
            pct@ == seq!['%'],
            views(r@) == percent_words(views(parts@).take(i as int)),
        decreases parts.len() - i,
    {
        assert(views(parts@).take(i + 1).drop_last() == views(parts@).take(i as int));
        assert(views(parts@).take(i + 1).last() == parts@[i as int]@);
        let ghost r0 = r@;
        match last_word_chars(&parts[i]) {
            Some(t) => {
                if ends_with_chars(&t, &pct) {
                    r.push(t);
                    assert(views(r@) == views(r0).push(r@.last()@));
                }
            },
            None => {},
        }
        i = i + 1;
    }
    assert(views(parts@).take(parts.len() as int) == views(parts@));
    r
}

// ---------------------------------------------------------------------------
// The plain-text tray title
// ---------------------------------------------------------------------------

/// The tray's plain-text title: the upper-cased provider, a space, and the
/// percentages of the quota text joined by spaces, or its last word when it
/// has none.
pub open spec fn title_text(upper_provider: Seq<char>, value: Seq<char>) -> Seq<char> {
    let percents = percents_of(value);
    if percents.len() == 0 {
        upper_provider + " "@ + last_word_or_all(value)
    } else {
        upper_provider + " "@ + join(percents, " "@)
    }
}

/// The tray's plain-text title for an upper-cased provider name (see
/// `title_text`).
pub fn tray_title_upper(upper_provider: &str, value: &str) -> (r: String)
    ensures
        r@ == title_text(upper_provider@, value@),
{
    let v = chars_of(value);
    let percents = percents_chars(&v);
    let head = concat_chars(&chars_of(upper_provider), &chars_of(" "));
    let tail = if percents.len() == 0 {
        last_word_or_all_chars(&v)
    } else {
        join_chars(&percents, &chars_of(" "))
    };
    string_of(&concat_chars(&head, &tail))
}

/// The tray's plain-text title, shown when the tray image cannot be drawn:
/// the provider upper-cased (`str::to_uppercase`), then the title text.
pub fn tray_title(provider: &str, value: &str) -> (r: String)
    ensures
        r@ == title_text(unicode_uppercase(provider@), value@),
{
    let upper = to_uppercase(provider);
    tray_title_upper(upper.as_str(), value)
}

// ---------------------------------------------------------------------------
// Colours and segments of the tray image
// ---------------------------------------------------------------------------

/// The colour of a text in the tray.
#[derive(Clone, Copy, Debug, PartialEq, Eq, Structural)]
pub enum TrayColor {
    White,
    Orange,
    Red,
}

/// The size a text takes in the tray: the provider's name is set in one
/// size, the quota figures in another.
#[derive(Clone, Copy, Debug, PartialEq, Eq, Structural)]
pub enum TextSize {
    Name,
    Figure,
}

/// The colour of a percentage left: red up to 30, orange up to 60, white above.
pub open spec fn color_for(pct: u64) -> TrayColor {
    if pct <= 30 {
        TrayColor::Red
    } else if pct <= 60 {
        TrayColor::Orange
    } else {
        TrayColor::White
    }
}

/// The red, green and blue of a colour.
pub open spec fn rgb_of(c: TrayColor) -> Seq<u8> {
    match c {
        TrayColor::White => seq![245u8, 245u8, 245u8],
        TrayColor::Orange => seq![235u8, 138u8, 10u8],
        TrayColor::Red => seq![255u8, 69u8, 58u8],
    }
}

impl TrayColor {
    /// The colour of a percentage left (see `color_for`).
    pub fn for_pct(pct: u64) -> (r: TrayColor)
        ensures
            r == color_for(pct),
    {
        if pct <= 30 {
            TrayColor::Red
        } else if pct <= 60 {
            TrayColor::Orange
        } else {
            TrayColor::White
        }
    }

    /// The red, green and blue of the colour.
    pub fn rgb(self) -> (r: [u8; 3])
        ensures
            r@ == rgb_of(self),
    {
        let r = match self {
            TrayColor::White => [245, 245, 245],
            TrayColor::Orange => [235, 138, 10],
            TrayColor::Red => [255, 69, 58],
        };
        assert(r@ =~= rgb_of(self));
        r
    }
}

/// A piece of the tray image: its text, colour and size.
pub struct TraySegment {
    pub text: String,
    pub color: TrayColor,
    pub size: TextSize,
}

pub struct TraySegmentView {
    pub text: Seq<char>,
    pub color: TrayColor,
    pub size: TextSize,
}

impl View for TraySegment {
    type V = TraySegmentView;

    open spec fn view(&self) -> TraySegmentView {
        TraySegmentView { text: self.text@, color: self.color, size: self.size }
    }
}

pub open spec fn segment_views(v: Seq<TraySegment>) -> Seq<TraySegmentView> {
    v.map_values(|s: TraySegment| s@)
}

/// A quota text that is a failure or a missing setup: it holds `失败` or
/// begins with `未`.
pub open spec fn is_status_text(value: Seq<char>) -> bool {
    contains(value, "失败"@) || starts_with(value, seq!['未'])
}

/// The percentages of a quota text that parse as `u64` once their `%`
/// signs are dropped, with their values.
pub open spec fn parsed_percents(ps: Seq<Seq<char>>) -> Seq<(Seq<char>, u64)>
    decreases ps.len(),
{
    if ps.len() == 0 {
        seq![]
    } else {
        let rest = parsed_percents(ps.drop_last());
        match parse_u64(trim_end_matches(ps.last(), '%')) {
            Some(n) => rest.push((ps.last(), n)),
            None => rest,
        }
    }
}

/// The segments of the percentages, coloured by value.
pub open spec fn figure_segments(ps: Seq<(Seq<char>, u64)>) -> Seq<TraySegmentView> {
    ps.map_values(
        |p: (Seq<char>, u64)| TraySegmentView { text: p.0, color: color_for(p.1), size: TextSize::Figure },
    )
}

/// The tray image's segments, for an upper-cased provider name: first the
/// name in white, marked `(高)` at peak time unless the text is a status;
/// then each percentage in its colour; or, with none, the last word of the
/// text, red for a status and white otherwise.
pub open spec fn segments_of(upper_provider: Seq<char>, value: Seq<char>, peak: bool) -> Seq<TraySegmentView> {
    let name = if peak && !is_status_text(value) {
        upper_provider + "(高)"@
    } else {
        upper_provider
    };
    let head = TraySegmentView { text: name, color: TrayColor::White, size: TextSize::Name };
    let parts = parsed_percents(percents_of(value));
    if parts.len() == 0 {
        seq![
            head,
            TraySegmentView {
                text: last_word_or_all(value),
                color: if is_status_text(value) {
                    TrayColor::Red
                } else {
                    TrayColor::White
                },
                size: TextSize::Figure,
            },
        ]
    } else {
        seq![head] + figure_segments(parts)
    }
}

fn status_text(v: &[char]) -> (b: bool)
    ensures
        b == is_status_text(v@),
{
    let wei = vec!['未'];
    assert(wei@ == seq!['未']);
    contains_chars(v, &chars_of("失败")) || starts_with_chars(v, &wei)
}

/// The tray image's segments for an upper-cased provider name (see
/// `segments_of`).
pub fn tray_segments_upper(upper_provider: &str, value: &str, peak: bool) -> (r: Vec<TraySegment>)
    ensures
        segment_views(r@) == segments_of(upper_provider@, value@, peak),
{
    let v = chars_of(value);
    let status = status_text(&v);
    let name_chars = if peak && !status {
        concat_chars(&chars_of(upper_provider), &chars_of("(高)"))
    } else {
        chars_of(upper_provider)
    };
    let mut segments: Vec<TraySegment> = Vec::new();
    segments.push(TraySegment { text: string_of(&name_chars), color: TrayColor::White, size: TextSize::Name });
    let percents = percents_chars(&v);
    let ghost sp = views(percents@);
    // The percentages that parse, with their values.
    let mut texts: Vec<Vec<char>> = Vec::new();
    let mut values: Vec<u64> = Vec::new();
    let mut i: usize = 0;
    while i < percents.len()
        invariant
            i <= percents.len(),
            sp == views(percents@),
            texts.len() == values.len(),
            views(texts@).zip_with(values@) == parsed_percents(sp.take(i as int)),
        decreases percents.len() - i,
    {
        assert(sp.take(i + 1).drop_last() == sp.take(i as int));
        assert(sp.take(i + 1).last() == percents@[i as int]@);
        let digits = trim_end_matches_chars(&percents[i], '%');
        let ghost z0 = views(texts@).zip_with(values@);
        match parse_u64_chars(&digits) {
            Some(n) => {
                texts.push(slice_chars(&percents[i], 0, percents[i].len()));
                values.push(n);
                assert(percents@[i as int]@.subrange(0, percents@[i as int]@.len() as int) == percents@[i as int]@);
                assert(views(texts@).zip_with(values@) =~= z0.push((percents@[i as int]@, n)));
            },
            None => {},
        }
        i = i + 1;
    }
    assert(sp.take(percents.len() as int) == sp);
    let ghost parts = views(texts@).zip_with(values@);
    if texts.len() == 0 {
        let tail = last_word_or_all_chars(&v);
        let color = if status {
            TrayColor::Red
        } else {
            TrayColor::White
        };
        segments.push(TraySegment { text: string_of(&tail), color, size: TextSize::Figure });
        assert(segment_views(segments@) =~= segments_of(upper_provider@, value@, peak));
        return segments;
    }
    let mut j: usize = 0;
    while j < texts.len()
        invariant
            j <= texts.len() == values.len(),
            parts == views(texts@).zip_with(values@),
            parts == parsed_percents(percents_of(value@)),
            segment_views(segments@)[0] == (TraySegmentView {
                text: name_chars@,
                color: TrayColor::White,
                size: TextSize::Name,
            }),
            name_chars@ == (if peak && !is_status_text(value@) {
                upper_provider@ + "(高)"@
            } else {
                upper_provider@
            }),
            texts.len() > 0,
            segments.len() == j + 1,
            segment_views(segments@) == seq![segment_views(segments@)[0]] + figure_segments(parts.take(j as int)),
        decreases texts.len() - j,
    {
        let ghost s0 = segment_views(segments@);
        segments.push(TraySegment { text: string_of(&texts[j]), color: TrayColor::for_pct(values[j]), size: TextSize::Figure });
        assert(parts[j as int] == (texts@[j as int]@, values@[j as int]));
        assert(figure_segments(parts.take(j + 1)) =~= figure_segments(parts.take(j as int)).push(
            segment_views(segments@).last(),
        ));
        assert(segment_views(segments@) =~= s0.push(segment_views(segments@).last()));
        j = j + 1;
    }
    assert(parts.take(texts.len() as int) == parts);
    assert(segment_views(segments@) =~= segments_of(upper_provider@, value@, peak));
    segments
}

/// The tray image's segments: the provider upper-cased
/// (`str::to_uppercase`), then as `segments_of` says.
pub fn tray_segments(provider: &str, value: &str, peak: bool) -> (r: Vec<TraySegment>)
    ensures
        segment_views(r@) == segments_of(unicode_uppercase(provider@), value@, peak),
{
    let upper = to_uppercase(provider);
    tray_segments_upper(upper.as_str(), value, peak)
}


// ---------------------------------------------------------------------------
// Laws of the tray image
// ---------------------------------------------------------------------------

/// How alarming a colour is: white 0, orange 1, red 2.
pub open spec fn alarm(c: TrayColor) -> int {
    match c {
        TrayColor::White => 0,
        TrayColor::Orange => 1,
        TrayColor::Red => 2,
    }
}

/// Less quota left is never shown in a calmer colour.
pub proof fn less_left_is_never_calmer(p: u64, q: u64)
    requires
        p <= q,
    ensures
        alarm(color_for(p)) >= alarm(color_for(q)),
{
}

/// The tray image always begins with the provider's name, in white and in
/// the name's size, and shows at least one more segment.
pub proof fn name_segment_comes_first_in_white(upper: Seq<char>, value: Seq<char>, peak: bool)
    ensures
        segments_of(upper, value, peak).len() >= 2,
        segments_of(upper, value, peak)[0].color == TrayColor::White,
        segments_of(upper, value, peak)[0].size == TextSize::Name,
        forall|i: int|
            1 <= i < segments_of(upper, value, peak).len() ==> (#[trigger] segments_of(upper, value, peak)[i]).size
                == TextSize::Figure,
{
}

/// Peak time changes the name segment only: it adds `(高)` to the name
/// unless the quota text is a status (a failure or a missing setup).
pub proof fn peak_time_marks_only_the_name(upper: Seq<char>, value: Seq<char>)
    ensures
        segments_of(upper, value, true).len() == segments_of(upper, value, false).len(),
        segments_of(upper, value, true).skip(1) == segments_of(upper, value, false).skip(1),
        segments_of(upper, value, false)[0].text == upper,
        segments_of(upper, value, true)[0].text == (if is_status_text(value) {
            upper
        } else {
            upper + "(高)"@
        }),
{
    assert(segments_of(upper, value, true).skip(1) =~= segments_of(upper, value, false).skip(1));
}

/// Each percentage segment is coloured by its own value.
pub proof fn each_window_has_its_own_colour(upper: Seq<char>, value: Seq<char>, peak: bool, i: int)
    requires
        0 <= i < parsed_percents(percents_of(value)).len(),
    ensures
        segments_of(upper, value, peak)[i + 1] == (TraySegmentView {
            text: parsed_percents(percents_of(value))[i].0,
            color: color_for(parsed_percents(percents_of(value))[i].1),
            size: TextSize::Figure,
        }),
{
}


proof fn lemma_find_from_skips(s: Seq<char>, pat: Seq<char>, i: int, j: int)
    requires
        0 <= i <= j,
        forall|k: int| i <= k < j ==> !occurs_at(s, pat, k),
    ensures
        find_from(s, pat, i) == find_from(s, pat, j),
    decreases j - i,
{
    if i < j {
        if i + pat.len() > s.len() {
        } else {
            lemma_find_from_skips(s, pat, i + 1, j);
        }
    }
}

/// A part without `/` is one part of a ` / `-separated text, wherever it
/// stands first.
proof fn lemma_split_first_part(a: Seq<char>, b: Seq<char>)
    requires
        !a.contains('/'),
    ensures
        split_str(a + " / "@ + b, " / "@) == seq![a] + split_str(b, " / "@),
        split_str(a, " / "@) == seq![a],
{
    reveal_strlit(" / ");
    let pat = " / "@;
    let s = a + pat + b;
    assert forall|k: int| 0 <= k < a.len() implies !occurs_at(s, pat, k) by {
        if occurs_at(s, pat, k) {
            assert(s.subrange(k, k + 3)[1] == pat[1]);
            if k + 1 < a.len() {
                assert(s[k + 1] == a[k + 1]);
                assert(a.contains(a[k + 1]));
            } else {
                assert(s[k + 1] == ' ');
            }
        }
    }
    assert(s.subrange(a.len() as int, a.len() + 3int) == pat);
    lemma_find_from_skips(s, pat, 0, a.len() as int);
    assert(find(s, pat) == a.len());
    assert(s.take(a.len() as int) == a);
    assert(s.skip(a.len() + 3int) == b);
    assert forall|k: int| 0 <= k < a.len() implies !occurs_at(a, pat, k) by {
        if occurs_at(a, pat, k) {
            assert(a.subrange(k, k + 3)[1] == pat[1]);
            assert(a.contains(a[k + 1]));
        }
    }
    lemma_find_from_skips(a, pat, 0, a.len() as int);
    assert(find(a, pat) == -1);
}

proof fn lemma_percent_words_prepend(x: Seq<char>, r: Seq<Seq<char>>)
    ensures
        percent_words(seq![x] + r) == percent_words(seq![x]) + percent_words(r),
    decreases r.len(),
{
    if r.len() == 0 {
        assert(seq![x] + r == seq![x]);
    } else {
        lemma_percent_words_prepend(x, r.drop_last());
        assert((seq![x] + r).drop_last() == seq![x] + r.drop_last());
        assert((seq![x] + r).last() == r.last());
    }
}

proof fn lemma_join_prepend(x: Seq<char>, r: Seq<Seq<char>>, sep: Seq<char>)
    requires
        r.len() >= 1,
    ensures
        join(seq![x] + r, sep) == x + sep + join(r, sep),
    decreases r.len(),
{
    let xr = seq![x] + r;
    assert(xr.drop_last() == seq![x] + r.drop_last());
    assert(xr.last() == r.last());
    if r.len() == 1 {
        assert(r.drop_last().len() == 0);
        assert(seq![x] + r.drop_last() == seq![x]);
        assert(join(seq![x], sep) == x);
        assert(join(r, sep) == r[0]);
        assert(join(xr, sep) == join(xr.drop_last(), sep) + sep + xr.last());
    } else {
        lemma_join_prepend(x, r.drop_last(), sep);
        assert(join(xr, sep) == join(xr.drop_last(), sep) + sep + xr.last());
        assert(join(r, sep) == join(r.drop_last(), sep) + sep + r.last());
        assert(x + sep + join(r.drop_last(), sep) + sep + r.last() == x + sep + (join(
            r.drop_last(),
            sep,
        ) + sep + r.last()));
    }
}

/// The title keeps the windows of a quota text in their order: for a first
/// part `a` (without `/`) whose last word `pa` is a percentage, followed by
/// ` / ` and a text `b` that has percentages, the title is that of `a`,
/// which is the provider and `pa`, followed by the percentages that the
/// title of `b` shows. So `5h a% / 7d b%` gives `NAME a% b%`.
pub proof fn title_keeps_the_windows_in_order(upper: Seq<char>, a: Seq<char>, pa: Seq<char>, b: Seq<char>)
    requires
        !a.contains('/'),
        last_word(a) == Some(pa),
        ends_with(pa, seq!['%']),
        percents_of(b).len() > 0,
    ensures
        title_text(upper, a) == upper + " "@ + pa,
        title_text(upper, a + " / "@ + b) == title_text(upper, a) + " "@ + title_text(upper, b).skip(
            upper.len() + 1int,
        ),
{
    reveal_strlit(" ");
    lemma_split_first_part(a, b);
    let pb = percents_of(b);
    let one = seq![a];
    assert(one.drop_last() == Seq::<Seq<char>>::empty());
    assert(percent_words(one.drop_last()) == Seq::<Seq<char>>::empty());
    assert(one.last() == a);
    assert(Seq::<Seq<char>>::empty().push(pa) == seq![pa]);
    assert(percent_words(one) == seq![pa]);
    lemma_percent_words_prepend(a, split_str(b, " / "@));
    assert(percents_of(a + " / "@ + b) == seq![pa] + pb);
    assert(percents_of(a) == seq![pa]);
    lemma_join_prepend(pa, pb, " "@);
    assert(title_text(upper, b) == upper + " "@ + join(pb, " "@));
    assert(title_text(upper, b).skip(upper.len() + 1int) == join(pb, " "@));
}

} // verus!
