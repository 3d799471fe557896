use vstd::prelude::*;

verus! {

// ---------------------------------------------------------------------------
// Strings and characters
// ---------------------------------------------------------------------------

/// Appends one character to a string (`String::push`).
#[verifier::external_body]
fn push_char(s: &mut String, c: char)
    ensures
        final(s)@ == old(s)@.push(c),
{
    s.push(c);
}

/// The characters of a string slice, in order.
pub fn chars_of(s: &str) -> (v: Vec<char>)
    ensures
        v@ == s@,
{
    let mut v: Vec<char> = Vec::new();
    for c in it: s.chars()
        invariant
            v@ == it.seq().take(it.index() as int),
    {
        v.push(c);
    }
    v
}

/// A string holding exactly the given characters.
pub fn string_of(v: &[char]) -> (s: String)
    ensures
        s@ == v@,
{
    let mut s = String::new();
    let mut i: usize = 0;
    while i < v.len()
        invariant
            i <= v.len(),
            s@ == v@.take(i as int),
        decreases v.len() - i,
    {
        push_char(&mut s, v[i]);
        assert(v@.take(i + 1) == v@.take(i as int).push(v@[i as int]));
        i = i + 1;
    }
    assert(v@.take(v.len() as int) == v@);
    s
}

/// The characters `v[a..b]`.
pub fn slice_chars(v: &[char], a: usize, b: usize) -> (r: Vec<char>)
    requires
        a <= b <= v.len(),
    ensures
        r@ == v@.subrange(a as int, b as int),
{
    let mut r: Vec<char> = Vec::new();
    let mut i: usize = a;
    while i < b
        invariant
            a <= i <= b <= v.len(),
            r@ == v@.subrange(a as int, i as int),
        decreases b - i,
    {
        r.push(v[i]);
        assert(v@.subrange(a as int, i + 1) == v@.subrange(a as int, i as int).push(v@[i as int]));
        i = i + 1;
    }
    r
}

/// Concatenation of two character vectors.
pub fn concat_chars(x: &[char], y: &[char]) -> (r: Vec<char>)
    ensures
        r@ == x@ + y@,
{
    let mut r = slice_chars(x, 0, x.len());
    assert(x@.subrange(0, x@.len() as int) == x@);
    let mut i: usize = 0;
    while i < y.len()
        invariant
            i <= y.len(),
            r@ == x@ + y@.take(i as int),
        decreases y.len() - i,
    {
        r.push(y[i]);
        assert(y@.take(i + 1) == y@.take(i as int).push(y@[i as int]));
        assert(x@ + y@.take(i + 1) == (x@ + y@.take(i as int)).push(y@[i as int]));
        i = i + 1;
    }
    assert(y@.take(y.len() as int) == y@);
    r
}

/// Equality of two character sequences.
pub fn chars_equal(x: &[char], y: &[char]) -> (b: bool)
    ensures
        b == (x@ == y@),
{
    if x.len() != y.len() {
        return false;
    }
    let mut i: usize = 0;
    while i < x.len()
        invariant
            i <= x.len() == y.len(),
            x@.take(i as int) == y@.take(i as int),
        decreases x.len() - i,
    {
        if x[i] != y[i] {
            assert(x@[i as int] != y@[i as int]);
            return false;
        }
        assert(x@.take(i + 1) == x@.take(i as int).push(x@[i as int]));
        assert(y@.take(i + 1) == y@.take(i as int).push(y@[i as int]));
        i = i + 1;
    }
    assert(x@.take(x.len() as int) == x@);
    assert(y@.take(y.len() as int) == y@);
    true
}

/// Equality of two string slices, character by character.
pub fn str_equal(a: &str, b: &str) -> (r: bool)
    ensures
        r == (a@ == b@),
{
    let x = chars_of(a);
    let y = chars_of(b);
    chars_equal(&x, &y)
}

// ---------------------------------------------------------------------------
// White space and trimming
// ---------------------------------------------------------------------------

/// The Unicode `White_Space` property, the one `char::is_whitespace` and
/// `str::trim` use.
pub open spec fn is_white_space(c: char) -> bool {
    let u = c as u32;
    ||| 0x09 <= u <= 0x0D
    ||| u == 0x20
    ||| u == 0x85
    ||| u == 0xA0
    ||| u == 0x1680
    ||| 0x2000 <= u <= 0x200A
    ||| u == 0x2028
    ||| u == 0x2029
    ||| u == 0x202F
    ||| u == 0x205F
    ||| u == 0x3000
}

pub fn white_space(c: char) -> (b: bool)
    ensures
        b == is_white_space(c),
{
    let u = c as u32;
    (0x09 <= u && u <= 0x0D) || u == 0x20 || u == 0x85 || u == 0xA0 || u == 0x1680 || (0x2000
        <= u && u <= 0x200A) || u == 0x2028 || u == 0x2029 || u == 0x202F || u == 0x205F || u
        == 0x3000
}

/// `s` without its leading white space.
pub open spec fn trim_start(s: Seq<char>) -> Seq<char>
    decreases s.len(),
{
    if s.len() > 0 && is_white_space(s[0]) {
        trim_start(s.skip(1))
    } else {
        s
    }
}

/// `s` without its trailing white space.
pub open spec fn trim_end(s: Seq<char>) -> Seq<char>
    decreases s.len(),
{
    if s.len() > 0 && is_white_space(s.last()) {
        trim_end(s.drop_last())
    } else {
        s
    }
}

/// `s` without leading and trailing white space (`str::trim`).
pub open spec fn trim(s: Seq<char>) -> Seq<char> {
    trim_end(trim_start(s))
}

pub fn trim_chars(v: &[char]) -> (r: Vec<char>)
    ensures
        r@ == trim(v@),
{
    let n = v.len();
    let mut i: usize = 0;
    assert(v@.skip(0) == v@);
    while i < n && white_space(v[i])
        invariant
            i <= n == v.len(),
            trim_start(v@) == trim_start(v@.skip(i as int)),
        decreases n - i,
    {
        assert(v@.skip(i as int).skip(1) == v@.skip(i + 1));
        i = i + 1;
    }
    let ghost w = v@.skip(i as int);
    assert(trim_start(w) == w);
    let mut j: usize = n;
    assert(w.take((j - i) as int) == w);
    while j > i && white_space(v[j - 1])
        invariant
            i <= j <= n == v.len(),
            w == v@.skip(i as int),
            trim_end(w) == trim_end(w.take((j - i) as int)),
        decreases j,
    {
        assert(w.take((j - i) as int).drop_last() == w.take((j - 1 - i) as int));
        j = j - 1;
    }
    assert(trim_end(w.take((j - i) as int)) == w.take((j - i) as int));
    assert(w.take((j - i) as int) == v@.subrange(i as int, j as int));
    slice_chars(v, i, j)
}

/// `str::trim` on a string slice, as an owned string.
pub fn trim_str(s: &str) -> (r: String)
    ensures
        r@ == trim(s@),
{
    let v = chars_of(s);
    let t = trim_chars(&v);
    string_of(&t)
}
// ---------------------------------------------------------------------------
// Searching
// ---------------------------------------------------------------------------

/// `pat` stands in `s` at position `k`.
pub open spec fn occurs_at(s: Seq<char>, pat: Seq<char>, k: int) -> bool {
    0 <= k && k + pat.len() <= s.len() && s.subrange(k, k + pat.len()) == pat
}

/// The first position at or after `i` where `pat` stands in `s`, or -1.
pub open spec fn find_from(s: Seq<char>, pat: Seq<char>, i: int) -> int
    decreases s.len() + 1 - i,
{
    if i < 0 || i + pat.len() > s.len() {
        -1
    } else if occurs_at(s, pat, i) {
        i
    } else {
        find_from(s, pat, i + 1)
    }
}

/// The first position where `pat` stands in `s`, or -1 (`str::find`).
pub open spec fn find(s: Seq<char>, pat: Seq<char>) -> int {
    find_from(s, pat, 0)
}

/// `str::contains` with a string pattern.
pub open spec fn contains(s: Seq<char>, pat: Seq<char>) -> bool {
    find(s, pat) >= 0
}

pub proof fn lemma_find_from_bounds(s: Seq<char>, pat: Seq<char>, i: int)
    requires
        0 <= i,
    ensures
        find_from(s, pat, i) == -1 || (i <= find_from(s, pat, i) && occurs_at(
            s,
            pat,
            find_from(s, pat, i),
        )),
        forall|k: int| i <= k && (find_from(s, pat, i) == -1 || k < find_from(s, pat, i)) ==> !occurs_at(s, pat, k),
    decreases s.len() + 1 - i,
{
    if i + pat.len() > s.len() {
    } else if occurs_at(s, pat, i) {
    } else {
        lemma_find_from_bounds(s, pat, i + 1);
    }
}

/// Whether `pat` stands in `v` at position `k`.
fn occurs_at_exec(v: &[char], pat: &[char], k: usize) -> (b: bool)
    requires
        k + pat.len() <= v.len(),
    ensures
        b == occurs_at(v@, pat@, k as int),
{
    let mut j: usize = 0;
    while j < pat.len()
        invariant
            k + pat.len() <= v.len(),
            j <= pat.len(),
            v@.subrange(k as int, k + j) == pat@.take(j as int),
        decreases pat.len() - j,
    {
        if v[k + j] != pat[j] {
            assert(v@.subrange(k as int, k + pat.len())[j as int] != pat@[j as int]);
            return false;
        }
        assert(v@.subrange(k as int, k + j + 1) == v@.subrange(k as int, k + j).push(v@[k + j]));
        assert(pat@.take(j + 1) == pat@.take(j as int).push(pat@[j as int]));
        j = j + 1;
    }
    assert(pat@.take(pat.len() as int) == pat@);
    true
}

/// `find` on character vectors.
pub fn find_chars(v: &[char], pat: &[char]) -> (r: Option<usize>)
    ensures
        match r {
            Some(k) => find(v@, pat@) == k as int,
            None => find(v@, pat@) == -1,
        },
{
    if pat.len() > v.len() {
        return None;
    }
    if pat.len() == 0 {
        assert(v@.subrange(0, 0) =~= pat@);
        return Some(0);
    }
    let last = v.len() - pat.len();
    let mut i: usize = 0;
    while i <= last
        invariant
            last + pat.len() == v.len(),
            pat.len() > 0,
            i <= last + 1,
            find(v@, pat@) == find_from(v@, pat@, i as int),
        decreases last + 1 - i,
    {
        if occurs_at_exec(v, pat, i) {
            return Some(i);
        }
        i = i + 1;
    }
    None
}

/// `str::contains` with a string pattern, on character vectors.
pub fn contains_chars(v: &[char], pat: &[char]) -> (b: bool)
    ensures
        b == contains(v@, pat@),
{
    find_chars(v, pat).is_some()
}

/// `s` begins with `pat`.
pub open spec fn starts_with(s: Seq<char>, pat: Seq<char>) -> bool {
    pat.len() <= s.len() && s.take(pat.len() as int) == pat
}

/// `s` ends with `pat`.
pub open spec fn ends_with(s: Seq<char>, pat: Seq<char>) -> bool {
    pat.len() <= s.len() && s.skip(s.len() - pat.len()) == pat
}

pub fn starts_with_chars(v: &[char], pat: &[char]) -> (b: bool)
    ensures
        b == starts_with(v@, pat@),
{
    if pat.len() > v.len() {
        return false;
    }
    let b = occurs_at_exec(v, pat, 0);
    assert(v@.subrange(0, pat@.len() as int) == v@.take(pat@.len() as int));
    b
}

pub fn ends_with_chars(v: &[char], pat: &[char]) -> (b: bool)
    ensures
        b == ends_with(v@, pat@),
{
    if pat.len() > v.len() {
        return false;
    }
    let b = occurs_at_exec(v, pat, v.len() - pat.len());
    assert(v@.subrange(v.len() - pat.len(), v.len() as int) == v@.skip(v.len() - pat.len()));
    b
}

// ---------------------------------------------------------------------------
// Splitting on a set of separator characters
// ---------------------------------------------------------------------------

/// The first position at or after `i` holding a character of `seps`, or -1.
pub open spec fn find_any_from(s: Seq<char>, seps: Seq<char>, i: int) -> int
    decreases s.len() - i,
{
    if i < 0 || i >= s.len() {
        -1
    } else if seps.contains(s[i]) {
        i
    } else {
        find_any_from(s, seps, i + 1)
    }
}

pub open spec fn find_any(s: Seq<char>, seps: Seq<char>) -> int {
    find_any_from(s, seps, 0)
}

pub proof fn lemma_find_any_from_bounds(s: Seq<char>, seps: Seq<char>, i: int)
    requires
        0 <= i,
    ensures
        find_any_from(s, seps, i) == -1 || (i <= find_any_from(s, seps, i) < s.len()
            && seps.contains(s[find_any_from(s, seps, i)])),
        forall|k: int|
            i <= k < s.len() && (find_any_from(s, seps, i) == -1 || k < find_any_from(s, seps, i))
                ==> !seps.contains(#[trigger] s[k]),
    decreases s.len() - i,
{
    if i >= s.len() {
    } else if seps.contains(s[i]) {
    } else {
        lemma_find_any_from_bounds(s, seps, i + 1);
    }
}

/// The last position holding a character of `seps`, or -1.
pub open spec fn rfind_any(s: Seq<char>, seps: Seq<char>) -> int
    decreases s.len(),
{
    if s.len() == 0 {
        -1
    } else if seps.contains(s.last()) {
        s.len() - 1
    } else {
        rfind_any(s.drop_last(), seps)
    }
}

pub proof fn lemma_rfind_any_bounds(s: Seq<char>, seps: Seq<char>)
    ensures
        -1 <= rfind_any(s, seps) < s.len(),
        rfind_any(s, seps) >= 0 ==> seps.contains(s[rfind_any(s, seps)]),
        forall|k: int| rfind_any(s, seps) < k < s.len() ==> !seps.contains(#[trigger] s[k]),
    decreases s.len(),
{
    if s.len() > 0 && !seps.contains(s.last()) {
        lemma_rfind_any_bounds(s.drop_last(), seps);
        assert forall|k: int| rfind_any(s, seps) < k < s.len() implies !seps.contains(
            #[trigger] s[k],
        ) by {
            if k < s.len() - 1 {
                assert(s.drop_last()[k] == s[k]);
            }
        }
    }
}

fn seps_contain(seps: &[char], c: char) -> (b: bool)
    ensures
        b == seps@.contains(c),
{
    let mut i: usize = 0;
    while i < seps.len()
        invariant
            i <= seps.len(),
            forall|k: int| 0 <= k < i ==> seps@[k] != c,
        decreases seps.len() - i,
    {
        if seps[i] == c {
            assert(seps@[i as int] == c);
            return true;
        }
        i = i + 1;
    }
    false
}

pub fn find_any_chars(v: &[char], seps: &[char]) -> (r: Option<usize>)
    ensures
        match r {
            Some(k) => find_any(v@, seps@) == k as int && k < v.len(),
            None => find_any(v@, seps@) == -1,
        },
{
    let mut i: usize = 0;
    while i < v.len()
        invariant
            i <= v.len(),
            find_any(v@, seps@) == find_any_from(v@, seps@, i as int),
        decreases v.len() - i,
    {
        if seps_contain(seps, v[i]) {
            return Some(i);
        }
        i = i + 1;
    }
    None
}

pub fn rfind_any_chars(v: &[char], seps: &[char]) -> (r: Option<usize>)
    ensures
        match r {
            Some(k) => rfind_any(v@, seps@) == k as int && k < v.len(),
            None => rfind_any(v@, seps@) == -1,
        },
{
    let mut j: usize = v.len();
    assert(v@.take(j as int) == v@);
    while j > 0
        invariant
            j <= v.len(),
            rfind_any(v@, seps@) == rfind_any(v@.take(j as int), seps@),
        decreases j,
    {
        if seps_contain(seps, v[j - 1]) {
            return Some(j - 1);
        }
        assert(v@.take(j as int).drop_last() == v@.take(j - 1));
        j = j - 1;
    }
    None
}

/// `str::split` on any character of `seps`.
pub open spec fn split_any(s: Seq<char>, seps: Seq<char>) -> Seq<Seq<char>>
    decreases s.len(),
{
    let k = find_any(s, seps);
    if k < 0 {
        seq![s]
    } else {
        proof {
            lemma_find_any_from_bounds(s, seps, 0);
        }
        seq![s.take(k)] + split_any(s.skip(k + 1), seps)
    }
}

/// `str::split_once`: the text before and after the first character of `seps`.
pub open spec fn split_once_any(s: Seq<char>, seps: Seq<char>) -> Option<(Seq<char>, Seq<char>)> {
    let k = find_any(s, seps);
    if k < 0 {
        None
    } else {
        Some((s.take(k), s.skip(k + 1)))
    }
}

/// `str::rsplit_once`: the text before and after the last character of `seps`.
pub open spec fn rsplit_once_any(s: Seq<char>, seps: Seq<char>) -> Option<(Seq<char>, Seq<char>)> {
    let k = rfind_any(s, seps);
    if k < 0 {
        None
    } else {
        Some((s.take(k), s.skip(k + 1)))
    }
}

/// The views of a vector of character vectors.
pub open spec fn views(v: Seq<Vec<char>>) -> Seq<Seq<char>> {
    v.map_values(|x: Vec<char>| x@)
}

pub fn split_any_chars(v: &[char], seps: &[char]) -> (r: Vec<Vec<char>>)
    ensures
        views(r@) == split_any(v@, seps@),
{
    let mut parts: Vec<Vec<char>> = Vec::new();
    let mut rest = slice_chars(v, 0, v.len());
    assert(v@.subrange(0, v@.len() as int) == v@);
    loop
        invariant
            split_any(v@, seps@) == views(parts@) + split_any(rest@, seps@),
        decreases rest@.len(),
    {
        match find_any_chars(&rest, seps) {
            None => {
                let ghost before = parts@;
                parts.push(rest);
                assert(views(parts@) == views(before).push(rest@));
                return parts;
            },
            Some(k) => {
                proof {
                    lemma_find_any_from_bounds(rest@, seps@, 0);
                }
                let head = slice_chars(&rest, 0, k);
                let tail = slice_chars(&rest, k + 1, rest.len());
                assert(head@ == rest@.take(k as int));
                assert(tail@ == rest@.skip(k + 1));
                let ghost before = parts@;
                parts.push(head);
                assert(views(parts@) == views(before).push(head@));
                assert(views(parts@) + split_any(tail@, seps@) == views(before) + (seq![head@]
                    + split_any(tail@, seps@)));
                rest = tail;
            },
        }
    }
}

// ---------------------------------------------------------------------------
// Splitting on a separator string
// ---------------------------------------------------------------------------

/// `str::split` with a string pattern (a non-empty one).
pub open spec fn split_str(s: Seq<char>, pat: Seq<char>) -> Seq<Seq<char>>
    decreases s.len(),
{
    let k = find(s, pat);
    if pat.len() == 0 || k < 0 {
        seq![s]
    } else {
        proof {
            lemma_find_from_bounds(s, pat, 0);
        }
        seq![s.take(k)] + split_str(s.skip(k + pat.len()), pat)
    }
}

pub fn split_str_chars(v: &[char], pat: &[char]) -> (r: Vec<Vec<char>>)
    requires
        pat.len() > 0,
    ensures
        views(r@) == split_str(v@, pat@),
{
    let mut parts: Vec<Vec<char>> = Vec::new();
    let mut rest = slice_chars(v, 0, v.len());
    assert(v@.subrange(0, v@.len() as int) == v@);
    loop
        invariant
            pat@.len() > 0,
            split_str(v@, pat@) == views(parts@) + split_str(rest@, pat@),
        decreases rest@.len(),
    {
        match find_chars(&rest, pat) {
            None => {
                let ghost before = parts@;
                parts.push(rest);
                assert(views(parts@) == views(before).push(rest@));
                return parts;
            },
            Some(k) => {
                proof {
                    lemma_find_from_bounds(rest@, pat@, 0);
                    assert(occurs_at(rest@, pat@, k as int));
                    assert(k + pat@.len() <= rest@.len());
                    assert(pat.len() == pat@.len());
                    assert(rest.len() == rest@.len());
                }
                let head = slice_chars(&rest, 0, k);
                let tail = slice_chars(&rest, k + pat.len(), rest.len());
                assert(head@ == rest@.take(k as int));
                assert(tail@ == rest@.skip(k + pat@.len()));
                let ghost before = parts@;
                parts.push(head);
                assert(views(parts@) == views(before).push(head@));
                assert(views(parts@) + split_str(tail@, pat@) == views(before) + (seq![head@]
                    + split_str(tail@, pat@)));
                rest = tail;
            },
        }
    }
}

// ---------------------------------------------------------------------------
// Joining
// ---------------------------------------------------------------------------

/// `[T]::join`: the parts with `sep` between each two.
pub open spec fn join(parts: Seq<Seq<char>>, sep: Seq<char>) -> Seq<char>
    decreases parts.len(),
{
    if parts.len() == 0 {
        seq![]
    } else if parts.len() == 1 {
        parts[0]
    } else {
        join(parts.drop_last(), sep) + sep + parts.last()
    }
}

pub fn join_chars(parts: &Vec<Vec<char>>, sep: &[char]) -> (r: Vec<char>)
    ensures
        r@ == join(views(parts@), sep@),
{
    let mut r: Vec<char> = Vec::new();
    let mut i: usize = 0;
    while i < parts.len()
        invariant
            i <= parts.len(),
            r@ == join(views(parts@).take(i as int), sep@),
        decreases parts.len() - i,
    {
        assert(views(parts@).take(i + 1).drop_last() == views(parts@).take(i as int));
        if i == 0 {
            r = concat_chars(&r, &parts[i]);
        } else {
            let with_sep = concat_chars(&r, sep);
            r = concat_chars(&with_sep, &parts[i]);
        }
        i = i + 1;
    }
    assert(views(parts@).take(parts.len() as int) == views(parts@));
    r
}
// ---------------------------------------------------------------------------
// Repeated prefixes and suffixes
// ---------------------------------------------------------------------------

/// `str::trim_start_matches` with a string pattern.
pub open spec fn trim_start_matches(s: Seq<char>, pat: Seq<char>) -> Seq<char>
    decreases s.len(),
{
    if pat.len() > 0 && starts_with(s, pat) {
        trim_start_matches(s.skip(pat.len() as int), pat)
    } else {
        s
    }
}

/// `str::trim_end_matches` with a character pattern.
pub open spec fn trim_end_matches(s: Seq<char>, c: char) -> Seq<char>
    decreases s.len(),
{
    if s.len() > 0 && s.last() == c {
        trim_end_matches(s.drop_last(), c)
    } else {
        s
    }
}

pub fn trim_start_matches_chars(v: &[char], pat: &[char]) -> (r: Vec<char>)
    ensures
        r@ == trim_start_matches(v@, pat@),
{
    let mut rest = slice_chars(v, 0, v.len());
    assert(v@.subrange(0, v@.len() as int) == v@);
    while pat.len() > 0 && starts_with_chars(&rest, pat)
        invariant
            trim_start_matches(v@, pat@) == trim_start_matches(rest@, pat@),
        decreases rest@.len(),
    {
        rest = slice_chars(&rest, pat.len(), rest.len());
    }
    rest
}

pub fn trim_end_matches_chars(v: &[char], c: char) -> (r: Vec<char>)
    ensures
        r@ == trim_end_matches(v@, c),
{
    let mut j: usize = v.len();
    assert(v@.take(j as int) == v@);
    while j > 0 && v[j - 1] == c
        invariant
            j <= v.len(),
            trim_end_matches(v@, c) == trim_end_matches(v@.take(j as int), c),
        decreases j,
    {
        assert(v@.take(j as int).drop_last() == v@.take(j - 1));
        j = j - 1;
    }
    assert(v@.take(j as int) == v@.subrange(0, j as int));
    slice_chars(v, 0, j)
}

// ---------------------------------------------------------------------------
// Decimal integers
// ---------------------------------------------------------------------------

pub open spec fn is_digit(c: char) -> bool {
    48 <= c as u32 <= 57
}

pub open spec fn digit_value(c: char) -> int {
    c as u32 - 48
}

pub open spec fn all_digits(s: Seq<char>) -> bool {
    forall|i: int| 0 <= i < s.len() ==> is_digit(#[trigger] s[i])
}

/// The value of a run of decimal digits.
pub open spec fn digits_value(s: Seq<char>) -> nat
    decreases s.len(),
{
    if s.len() == 0 {
        0
    } else {
        (digits_value(s.drop_last()) * 10 + digit_value(s.last())) as nat
    }
}

/// The integer that `s` spells: an optional `+` or `-` and at least one
/// ASCII digit, nothing else (the text `FromStr` for integers accepts).
pub open spec fn decimal_int(s: Seq<char>) -> Option<int> {
    if s.len() > 0 && (s[0] == '+' || s[0] == '-') {
        let d = s.skip(1);
        if d.len() > 0 && all_digits(d) {
            Some(
                if s[0] == '-' {
                    -digits_value(d)
                } else {
                    digits_value(d) as int
                },
            )
        } else {
            None
        }
    } else if s.len() > 0 && all_digits(s) {
        Some(digits_value(s) as int)
    } else {
        None
    }
}

/// `str::parse::<i64>`.
pub open spec fn parse_i64(s: Seq<char>) -> Option<i64> {
    match decimal_int(s) {
        Some(n) => if i64::MIN <= n <= i64::MAX {
            Some(n as i64)
        } else {
            None
        },
        None => None,
    }
}

/// `str::parse::<u64>` (which takes no `-` sign, not even on zero).
pub open spec fn parse_u64(s: Seq<char>) -> Option<u64> {
    if s.len() > 0 && s[0] == '-' {
        None
    } else {
        match decimal_int(s) {
            Some(n) => if 0 <= n <= u64::MAX {
                Some(n as u64)
            } else {
                None
            },
            None => None,
        }
    }
}

spec fn capped(n: int) -> int {
    if n < 0x1_0000_0000_0000_0000 {
        n
    } else {
        0x1_0000_0000_0000_0000
    }
}

/// The value of `v[from..]` if it is a non-empty run of digits, capped at 2^64.
fn digits_capped(v: &[char], from: usize) -> (r: Option<u128>)
    requires
        from <= v.len(),
    ensures
        match r {
            Some(n) => v@.skip(from as int).len() > 0 && all_digits(v@.skip(from as int)) && n
                == capped(digits_value(v@.skip(from as int)) as int),
            None => !(v@.skip(from as int).len() > 0 && all_digits(v@.skip(from as int))),
        },
{
    let ghost d = v@.skip(from as int);
    if from == v.len() {
        return None;
    }
    let mut acc: u128 = 0;
    let mut i: usize = from;
    assert(d.take(0) =~= Seq::<char>::empty());
    while i < v.len()
        invariant
            from <= i <= v.len(),
            d == v@.skip(from as int),
            all_digits(d.take(i - from)),
            acc == capped(digits_value(d.take(i - from)) as int),
        decreases v.len() - i,
    {
        let c = v[i];
        let u = c as u32;
        if u < 48 || u > 57 {
            assert(d[i - from] == c);
            return None;
        }
        let ghost p = d.take(i - from);
        assert(d.take(i - from + 1).drop_last() == p);
        assert(d.take(i - from + 1).last() == c);
        let digit = (u - 48) as u128;
        if acc >= 0x1_0000_0000_0000_0000 {
            acc = 0x1_0000_0000_0000_0000;
        } else {
            let next = acc * 10 + digit;
            acc = if next >= 0x1_0000_0000_0000_0000 {
                0x1_0000_0000_0000_0000
            } else {
                next
            };
        }
        assert(all_digits(d.take(i - from + 1))) by {
            assert forall|k: int| 0 <= k < d.take(i - from + 1).len() implies is_digit(
                #[trigger] d.take(i - from + 1)[k],
            ) by {
                if k < i - from {
                    assert(d.take(i - from + 1)[k] == p[k]);
                }
            }
        }
        i = i + 1;
    }
    assert(d.take(v.len() - from) == d);
    Some(acc)
}

/// `str::parse::<i64>` on characters.
pub fn parse_i64_chars(v: &[char]) -> (r: Option<i64>)
    ensures
        r == parse_i64(v@),
{
    if v.len() == 0 {
        return None;
    }
    if v[0] == '+' || v[0] == '-' {
        match digits_capped(v, 1) {
            None => None,
            Some(m) => {
                if v[0] == '-' {
                    if m <= 0x8000_0000_0000_0000 {
                        Some((0 - (m as i128)) as i64)
                    } else {
                        None
                    }
                } else {
                    if m <= 0x7fff_ffff_ffff_ffff {
                        Some(m as i64)
                    } else {
                        None
                    }
                }
            },
        }
    } else {
        assert(v@.skip(0) == v@);
        match digits_capped(v, 0) {
            None => None,
            Some(m) => if m <= 0x7fff_ffff_ffff_ffff {
                Some(m as i64)
            } else {
                None
            },
        }
    }
}

/// `str::parse::<i64>`.
pub fn parse_i64_str(s: &str) -> (r: Option<i64>)
    ensures
        r == parse_i64(s@),
{
    let v = chars_of(s);
    parse_i64_chars(&v)
}

/// `str::parse::<u64>` on characters.
pub fn parse_u64_chars(v: &[char]) -> (r: Option<u64>)
    ensures
        r == parse_u64(v@),
{
    if v.len() == 0 {
        return None;
    }
    if v[0] == '-' {
        return None;
    }
    let start: usize = if v[0] == '+' {
        1
    } else {
        0
    };
    assert(start == 0 ==> v@.skip(0) == v@);
    match digits_capped(v, start) {
        None => None,
        Some(m) => if m <= 0xffff_ffff_ffff_ffff {
            Some(m as u64)
        } else {
            None
        },
    }
}

pub open spec fn digit_char(d: int) -> char {
    (d + 48) as char
}

/// The decimal digits of `n`, most significant first, without leading zeros.
pub open spec fn nat_decimal(n: nat) -> Seq<char>
    decreases n,
{
    if n < 10 {
        seq![digit_char(n as int)]
    } else {
        nat_decimal(n / 10).push(digit_char((n % 10) as int))
    }
}

/// `n` written in decimal, as `format!("{}", n)` writes an integer.
pub open spec fn int_decimal(n: int) -> Seq<char> {
    if n < 0 {
        seq!['-'] + nat_decimal((-n) as nat)
    } else {
        nat_decimal(n as nat)
    }
}

fn digit_to_char(d: u64) -> (c: char)
    requires
        d < 10,
    ensures
        c == digit_char(d as int),
{
    let b: u8 = (d as u8) + 48;
    b as char
}

fn push_nat_decimal(n: u64, out: &mut Vec<char>)
    ensures
        final(out)@ == old(out)@ + nat_decimal(n as nat),
    decreases n,
{
    if n < 10 {
        out.push(digit_to_char(n));
        assert(old(out)@.push(digit_char(n as int)) == old(out)@ + seq![digit_char(n as int)]);
    } else {
        push_nat_decimal(n / 10, out);
        out.push(digit_to_char(n % 10));
        assert(old(out)@ + nat_decimal((n / 10) as nat).push(digit_char((n % 10) as int)) == (
        old(out)@ + nat_decimal((n / 10) as nat)).push(digit_char((n % 10) as int)));
    }
}

/// `n` in decimal.
pub fn i64_decimal(n: i64) -> (r: Vec<char>)
    ensures
        r@ == int_decimal(n as int),
{
    let mut out: Vec<char> = Vec::new();
    if n < 0 {
        out.push('-');
        let m: u64 = (0 - (n as i128)) as u64;
        push_nat_decimal(m, &mut out);
    } else {
        push_nat_decimal(n as u64, &mut out);
        assert(out@ == nat_decimal(n as nat));
    }
    out
}

// ---------------------------------------------------------------------------
// Letter case
// ---------------------------------------------------------------------------

/// ASCII upper case of one character (`char::to_ascii_uppercase`).
pub open spec fn ascii_upper(c: char) -> char {
    if 97 <= c as u32 <= 122 {
        (c as u32 - 32) as char
    } else {
        c
    }
}

/// `str::to_ascii_uppercase`.
pub open spec fn ascii_uppercase(s: Seq<char>) -> Seq<char> {
    s.map_values(|c: char| ascii_upper(c))
}

pub fn ascii_uppercase_chars(v: &[char]) -> (r: Vec<char>)
    ensures
        r@ == ascii_uppercase(v@),
{
    let mut r: Vec<char> = Vec::new();
    let mut i: usize = 0;
    while i < v.len()
        invariant
            i <= v.len(),
            r@ == ascii_uppercase(v@.take(i as int)),
        decreases v.len() - i,
    {
        let c = v[i];
        let u = c as u32;
        let up = if 97 <= u && u <= 122 {
            let b: u8 = (u - 32) as u8;
            b as char
        } else {
            c
        };
        r.push(up);
        assert(ascii_uppercase(v@.take(i + 1)) == ascii_uppercase(v@.take(i as int)).push(
            ascii_upper(c),
        ));
        i = i + 1;
    }
    assert(v@.take(v.len() as int) == v@);
    r
}

/// What `str::to_uppercase` returns for `s` (Unicode upper-case mapping).
pub uninterp spec fn unicode_uppercase(s: Seq<char>) -> Seq<char>;

/// What `str::to_lowercase` returns for `s` (Unicode lower-case mapping).
pub uninterp spec fn unicode_lowercase(s: Seq<char>) -> Seq<char>;

/// `str::to_uppercase`: the result is the Unicode upper-case mapping of `s`,
/// which this crate names and does not spell out.
#[verifier::external_body]
pub(crate) fn to_uppercase(s: &str) -> (r: String)
    ensures
        r@ == unicode_uppercase(s@),
{
    s.to_uppercase()
}

/// `str::to_lowercase`: the result is the Unicode lower-case mapping of `s`,
/// which this crate names and does not spell out.
#[verifier::external_body]
pub(crate) fn to_lowercase(s: &str) -> (r: String)
    ensures
        r@ == unicode_lowercase(s@),
{
    s.to_lowercase()
}
// ---------------------------------------------------------------------------
// Facts about trimming
// ---------------------------------------------------------------------------

pub proof fn lemma_trim_start_front(s: Seq<char>)
    ensures
        trim_start(s).len() == 0 || !is_white_space(trim_start(s)[0]),
    decreases s.len(),
{
    if s.len() > 0 && is_white_space(s[0]) {
        lemma_trim_start_front(s.skip(1));
    }
}

pub proof fn lemma_trim_end_back(s: Seq<char>)
    ensures
        trim_end(s).len() <= s.len(),
        trim_end(s) == s.take(trim_end(s).len() as int),
        trim_end(s).len() == 0 || !is_white_space(trim_end(s).last()),
    decreases s.len(),
{
    if s.len() > 0 && is_white_space(s.last()) {
        lemma_trim_end_back(s.drop_last());
        assert(s.drop_last().take(trim_end(s).len() as int) == s.take(trim_end(s).len() as int));
    } else {
        assert(s.take(s.len() as int) == s);
    }
}

/// Trimming twice is trimming once.
pub proof fn lemma_trim_idempotent(s: Seq<char>)
    ensures
        trim(trim(s)) == trim(s),
{
    let x = trim_start(s);
    let y = trim_end(x);
    lemma_trim_start_front(s);
    lemma_trim_end_back(x);
    if y.len() > 0 {
        assert(y[0] == x[0]);
    }
    assert(trim_start(y) == y);
}


/// Every character of `s` is white space.
pub open spec fn all_white(s: Seq<char>) -> bool {
    forall|i: int| 0 <= i < s.len() ==> is_white_space(#[trigger] s[i])
}

/// Leading white space in front of `y` goes when trimming the start.
pub proof fn lemma_trim_start_white_prefix(a: Seq<char>, y: Seq<char>)
    requires
        all_white(a),
    ensures
        trim_start(a + y) == trim_start(y),
    decreases a.len(),
{
    if a.len() > 0 {
        assert((a + y)[0] == a[0]);
        assert((a + y).skip(1) == a.skip(1) + y);
        lemma_trim_start_white_prefix(a.skip(1), y);
    } else {
        assert(a + y == y);
    }
}

/// Trailing white space behind `x` goes when trimming the end.
pub proof fn lemma_trim_end_white_suffix(x: Seq<char>, b: Seq<char>)
    requires
        all_white(b),
    ensures
        trim_end(x + b) == trim_end(x),
    decreases b.len(),
{
    if b.len() > 0 {
        assert((x + b).last() == b.last());
        assert((x + b).drop_last() == x + b.drop_last());
        lemma_trim_end_white_suffix(x, b.drop_last());
    } else {
        assert(x + b == x);
    }
}

/// Trimming `a + x + b`, with white space `a` and `b` around a text `x`
/// that neither starts nor ends with white space, gives `x`.
pub proof fn lemma_trim_white_around(a: Seq<char>, x: Seq<char>, b: Seq<char>)
    requires
        all_white(a),
        all_white(b),
        x.len() == 0 || (!is_white_space(x[0]) && !is_white_space(x.last())),
    ensures
        trim(a + x + b) == x,
{
    assert(a + x + b == a + (x + b));
    lemma_trim_start_white_prefix(a, x + b);
    if x.len() == 0 {
        assert(x + b == b);
        assert(b == b + Seq::<char>::empty());
        lemma_trim_start_white_prefix(b, Seq::<char>::empty());
        assert(trim_start(Seq::<char>::empty()) == Seq::<char>::empty());
        assert(trim_end(Seq::<char>::empty()) == Seq::<char>::empty());
    } else {
        assert((x + b)[0] == x[0]);
        assert(trim_start(x + b) == x + b);
        lemma_trim_end_white_suffix(x, b);
        assert(trim_end(x) == x);
    }
}

} // verus!
