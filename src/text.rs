//! Character-level text helpers with exact specifications.

use vstd::prelude::*;

verus! {

/// `needle` occurs in `hay` starting at position `i`.
pub open spec fn occurs_at(hay: Seq<char>, needle: Seq<char>, i: int) -> bool {
    0 <= i && i + needle.len() <= hay.len() && hay.subrange(i, i + needle.len()) == needle
}

/// `needle` occurs somewhere in `hay` (an empty needle occurs everywhere).
pub open spec fn is_infix(hay: Seq<char>, needle: Seq<char>) -> bool {
    exists|i: int| occurs_at(hay, needle, i)
}

/// `p` is a prefix of `s`.
pub open spec fn is_prefix(s: Seq<char>, p: Seq<char>) -> bool {
    p.len() <= s.len() && s.subrange(0, p.len() as int) == p
}

/// The characters of a string slice, as a vector.
pub fn chars_vec(s: &str) -> (r: Vec<char>)
    ensures
        r@ == s@,
{
    let mut r: Vec<char> = Vec::new();
    for c in it: s.chars()
        invariant
            r@ == it.seq().subrange(0, it.index() as int),
    {
        r.push(c);
    }
    r
}

/// Lowercased form of a text, as `str::to_lowercase` computes it.
pub uninterp spec fn lower_of(s: Seq<char>) -> Seq<char>;

/// Relies on `str::to_lowercase`: the result is a function of the characters alone.
#[verifier::external_body]
pub(crate) fn lowercase(s: &str) -> (r: String)
    ensures
        r@ == lower_of(s@),
{
    s.to_lowercase()
}

/// `needle` occurs at `i`, and nowhere before `i`.
pub open spec fn first_occurrence(hay: Seq<char>, needle: Seq<char>, i: int) -> bool {
    occurs_at(hay, needle, i) && forall|j: int| 0 <= j < i ==> !occurs_at(hay, needle, j)
}

/// Whether `needle` occurs in `hay` at position `i`.
pub fn matches_at(hay: &Vec<char>, needle: &Vec<char>, i: usize) -> (r: bool)
    requires
        i <= hay.len(),
    ensures
        r == occurs_at(hay@, needle@, i as int),
{
    if needle.len() > hay.len() - i {
        return false;
    }
    let mut k: usize = 0;
    while k < needle.len()
        invariant
            k <= needle.len(),
            i + needle.len() <= hay.len(),
            forall|m: int| 0 <= m < k ==> hay@[i + m] == needle@[m],
        decreases needle.len() - k,
    {
        if hay[i + k] != needle[k] {
            assert(hay@.subrange(i as int, i + needle.len())[k as int] != needle@[k as int]);
            return false;
        }
        k = k + 1;
    }
    assert(hay@.subrange(i as int, i + needle.len()) =~= needle@);
    true
}

/// Position of the first occurrence of `needle` in `hay`.
pub fn find_chars(hay: &Vec<char>, needle: &Vec<char>) -> (r: Option<usize>)
    ensures
        match r {
            Some(i) => first_occurrence(hay@, needle@, i as int),
            None => !is_infix(hay@, needle@),
        },
{
    if needle.len() > hay.len() {
        return None;
    }
    let last = hay.len() - needle.len();
    let mut i: usize = 0;
    loop
        invariant
            i <= last,
            last == hay.len() - needle.len(),
            forall|j: int| 0 <= j < i ==> !occurs_at(hay@, needle@, j),
        decreases last - i,
    {
        if matches_at(hay, needle, i) {
            return Some(i);
        }
        if i == last {
            return None;
        }
        i = i + 1;
    }
}

/// Whether `needle` occurs in `hay`.
pub fn contains_text(hay: &str, needle: &str) -> (r: bool)
    ensures
        r == is_infix(hay@, needle@),
{
    let h = chars_vec(hay);
    let n = chars_vec(needle);
    match find_chars(&h, &n) {
        Some(_) => true,
        None => false,
    }
}

/// Whether `s` begins with `p`.
pub fn starts_with_text(s: &str, p: &str) -> (r: bool)
    ensures
        r == is_prefix(s@, p@),
{
    let h = chars_vec(s);
    let n = chars_vec(p);
    if n.len() > h.len() {
        return false;
    }
    let r = matches_at(&h, &n, 0);
    assert(occurs_at(h@, n@, 0) == is_prefix(h@, n@));
    r
}

/// The decimal text of one digit.
pub open spec fn digit_text(d: nat) -> Seq<char> {
    if d == 0 {
        "0"@
    } else if d == 1 {
        "1"@
    } else if d == 2 {
        "2"@
    } else if d == 3 {
        "3"@
    } else if d == 4 {
        "4"@
    } else if d == 5 {
        "5"@
    } else if d == 6 {
        "6"@
    } else if d == 7 {
        "7"@
    } else if d == 8 {
        "8"@
    } else {
        "9"@
    }
}

/// The decimal text of a natural number, without leading zeros.
pub open spec fn decimal(n: nat) -> Seq<char>
    decreases n,
{
    if n < 10 {
        digit_text(n)
    } else {
        decimal(n / 10) + digit_text(n % 10)
    }
}

fn digit_str(d: usize) -> (r: &'static str)
    requires
        d < 10,
    ensures
        r@ == digit_text(d as nat),
{
    if d == 0 {
        "0"
    } else if d == 1 {
        "1"
    } else if d == 2 {
        "2"
    } else if d == 3 {
        "3"
    } else if d == 4 {
        "4"
    } else if d == 5 {
        "5"
    } else if d == 6 {
        "6"
    } else if d == 7 {
        "7"
    } else if d == 8 {
        "8"
    } else {
        "9"
    }
}

/// The decimal text of `n`.
pub fn decimal_string(n: usize) -> (r: String)
    ensures
        r@ == decimal(n as nat),
    decreases n,
{
    if n < 10 {
        String::from_str(digit_str(n))
    } else {
        let mut r = decimal_string(n / 10);
        r.append(digit_str(n % 10));
        r
    }
}

/// Texts joined with a separator between neighbours.
pub open spec fn join_sep(ls: Seq<Seq<char>>, sep: Seq<char>) -> Seq<char>
    decreases ls.len(),
{
    if ls.len() == 0 {
        seq![]
    } else if ls.len() == 1 {
        ls[0]
    } else {
        join_sep(ls.drop_last(), sep) + sep + ls.last()
    }
}

/// The views of a sequence of strings.
pub open spec fn views(v: Seq<String>) -> Seq<Seq<char>> {
    v.map_values(|x: String| x@)
}

/// Joins strings with `sep` between neighbours.
pub fn join_strings(v: &Vec<String>, sep: &str) -> (r: String)
    ensures
        r@ == join_sep(views(v@), sep@),
{
    let mut r = String::new();
    let mut i: usize = 0;
    while i < v.len()
        invariant
            i <= v.len(),
            r@ == join_sep(views(v@.subrange(0, i as int)), sep@),
        decreases v.len() - i,
    {
        proof {
            assert(views(v@.subrange(0, i + 1)).drop_last() =~= views(v@.subrange(0, i as int)));
        }
        if i > 0 {
            r.append(sep);
        }
        r.append(v[i].as_str());
        i = i + 1;
    }
    assert(v@.subrange(0, i as int) =~= v@);
    r
}

/// `a` and `b` agree before position `k`, and `a` is smaller at `k`: either it
/// ends there while `b` goes on, or its character there is smaller.
pub open spec fn lt_at(a: Seq<char>, b: Seq<char>, k: int) -> bool {
    &&& 0 <= k <= a.len()
    &&& k <= b.len()
    &&& a.subrange(0, k) == b.subrange(0, k)
    &&& ((k == a.len() && k < b.len()) || (k < a.len() && k < b.len() && a[k] < b[k]))
}

/// Lexicographic order on texts, by code point (the order of `str`'s `Ord`).
pub open spec fn text_lt(a: Seq<char>, b: Seq<char>) -> bool {
    exists|k: int| lt_at(a, b, k)
}

/// The lexicographic order is irreflexive.
pub proof fn lemma_text_lt_irreflexive(a: Seq<char>)
    ensures
        !text_lt(a, a),
{
}

/// The lexicographic order is transitive.
pub proof fn lemma_text_lt_transitive(a: Seq<char>, b: Seq<char>, c: Seq<char>)
    requires
        text_lt(a, b),
        text_lt(b, c),
    ensures
        text_lt(a, c),
{
    let k1 = choose|k: int| lt_at(a, b, k);
    let k2 = choose|k: int| lt_at(b, c, k);
    let k = if k1 <= k2 {
        k1
    } else {
        k2
    };
    assert(a.subrange(0, k) =~= b.subrange(0, k1).subrange(0, k));
    assert(c.subrange(0, k) =~= b.subrange(0, k2).subrange(0, k));
    assert(a.subrange(0, k) =~= c.subrange(0, k));
    if k1 < k2 {
        assert(b[k1] == b.subrange(0, k2)[k1]);
        assert(lt_at(a, c, k));
    } else if k2 < k1 {
        assert(b[k2] == b.subrange(0, k1)[k2]);
        assert(lt_at(a, c, k));
    } else {
        assert(lt_at(a, c, k));
    }
}

/// Three-way comparison of two texts: `-1`, `0` or `1`.
pub fn compare_text(a: &str, b: &str) -> (r: i8)
    ensures
        r == -1 ==> text_lt(a@, b@),
        r == 0 ==> a@ == b@,
        r == 1 ==> text_lt(b@, a@),
        -1 <= r <= 1,
{
    let x = chars_vec(a);
    let y = chars_vec(b);
    let mut k: usize = 0;
    while k < x.len() && k < y.len()
        invariant
            k <= x.len(),
            k <= y.len(),
            x@ == a@,
            y@ == b@,
            x@.subrange(0, k as int) == y@.subrange(0, k as int),
        decreases x.len() - k,
    {
        if x[k] != y[k] {
            if x[k] < y[k] {
                assert(lt_at(x@, y@, k as int));
                return -1;
            } else {
                assert(lt_at(y@, x@, k as int));
                return 1;
            }
        }
        assert(x@.subrange(0, k + 1) =~= x@.subrange(0, k as int).push(x@[k as int]));
        assert(y@.subrange(0, k + 1) =~= y@.subrange(0, k as int).push(y@[k as int]));
        k = k + 1;
    }
    if x.len() == y.len() {
        assert(x@ =~= x@.subrange(0, k as int));
        assert(y@ =~= y@.subrange(0, k as int));
        0
    } else if x.len() < y.len() {
        assert(x@ =~= x@.subrange(0, k as int));
        assert(lt_at(x@, y@, k as int));
        -1
    } else {
        assert(y@ =~= y@.subrange(0, k as int));
        assert(lt_at(y@, x@, k as int));
        1
    }
}

/// A line without the carriage return that may end it.
pub open spec fn strip_cr(l: Seq<char>) -> Seq<char> {
    if l.len() > 0 && l.last() == '\r' {
        l.drop_last()
    } else {
        l
    }
}

/// Scans a text left to right: the lines finished by a newline so far, and the
/// characters of the line under way.
pub open spec fn line_scan(s: Seq<char>) -> (Seq<Seq<char>>, Seq<char>)
    decreases s.len(),
{
    if s.len() == 0 {
        (seq![], seq![])
    } else {
        let (done, cur) = line_scan(s.drop_last());
        if s.last() == '\n' {
            (done.push(strip_cr(cur)), seq![])
        } else {
            (done, cur.push(s.last()))
        }
    }
}

/// The lines of a text, as `str::lines` yields them: split at each newline,
/// a carriage return before the newline dropped, and no empty last line.
pub open spec fn lines_of(s: Seq<char>) -> Seq<Seq<char>> {
    let (done, cur) = line_scan(s);
    if cur.len() == 0 {
        done
    } else {
        done.push(cur)
    }
}

/// How many lines of a skill's body its preview keeps.
pub const PREVIEW_MAX_LINES: usize = 16;

/// The preview of a text: its first lines, joined by newlines.
pub open spec fn preview_of(s: Seq<char>) -> Seq<char> {
    let ls = lines_of(s);
    let n = if ls.len() < PREVIEW_MAX_LINES {
        ls.len() as int
    } else {
        PREVIEW_MAX_LINES as int
    };
    join_sep(ls.subrange(0, n), "\n"@)
}

/// Splits a text into lines: each line as the character range it occupies.
fn line_ranges(cs: &Vec<char>) -> (r: Vec<(usize, usize)>)
    ensures
        r.len() == lines_of(cs@).len(),
        forall|k: int|
            #![trigger r[k]]
            0 <= k < r.len() ==> r[k].0 <= r[k].1 <= cs.len() && lines_of(cs@)[k]
                == cs@.subrange(r[k].0 as int, r[k].1 as int),
{
    let mut ranges: Vec<(usize, usize)> = Vec::new();
    let mut cur_start: usize = 0;
    let mut i: usize = 0;
    let ghost mut done: Seq<Seq<char>> = seq![];
    while i < cs.len()
        invariant
            i <= cs.len(),
            cur_start <= i,
            line_scan(cs@.subrange(0, i as int)) == (done, cs@.subrange(cur_start as int, i as int)),
            ranges.len() == done.len(),
            forall|k: int|
                #![trigger ranges[k]]
                0 <= k < done.len() ==> ranges[k].0 <= ranges[k].1 <= i && done[k]
                    == cs@.subrange(ranges[k].0 as int, ranges[k].1 as int),
        decreases cs.len() - i,
    {
        let ghost pre = cs@.subrange(0, i as int);
        assert(cs@.subrange(0, i + 1).drop_last() =~= pre);
        assert(cs@.subrange(0, i + 1).last() == cs@[i as int]);
        if cs[i] == '\n' {
            let end = if i > cur_start && cs[i - 1] == '\r' {
                i - 1
            } else {
                i
            };
            let ghost old_done = done;
            proof {
                let cur = cs@.subrange(cur_start as int, i as int);
                assert(strip_cr(cur) =~= cs@.subrange(cur_start as int, end as int));
                done = done.push(strip_cr(cur));
            }
            ranges.push((cur_start, end));
            cur_start = i + 1;
            assert(cs@.subrange(cur_start as int, i + 1) =~= Seq::<char>::empty());
            assert forall|k: int| 0 <= k < done.len() implies ranges[k].0 <= ranges[k].1
                <= i + 1 && done[k] == cs@.subrange(ranges[k].0 as int, ranges[k].1 as int) by {
                if k < old_done.len() {
                    assert(ranges[k] == ranges@[k]);
                }
            }
        } else {
            assert(cs@.subrange(cur_start as int, i + 1) =~= cs@.subrange(
                cur_start as int,
                i as int,
            ).push(cs@[i as int]));
        }
        i = i + 1;
    }
    assert(cs@.subrange(0, i as int) =~= cs@);
    if cur_start < cs.len() {
        ranges.push((cur_start, cs.len()));
    }
    ranges
}

/// The first lines of `s` (at most `PREVIEW_MAX_LINES`), joined by newlines.
pub fn build_preview(s: &str) -> (r: String)
    ensures
        r@ == preview_of(s@),
{
    let cs = chars_vec(s);
    let ranges = line_ranges(&cs);
    let ghost ls = lines_of(s@);
    let m = if ranges.len() < PREVIEW_MAX_LINES {
        ranges.len()
    } else {
        PREVIEW_MAX_LINES
    };
    let mut r = String::new();
    let mut k: usize = 0;
    while k < m
        invariant
            k <= m,
            m <= ranges.len(),
            ranges.len() == ls.len(),
            cs@ == s@,
            ls == lines_of(cs@),
            forall|j: int|
                #![trigger ranges[j]]
                0 <= j < ranges.len() ==> ranges[j].0 <= ranges[j].1 <= cs.len()
                    && ls[j] == cs@.subrange(ranges[j].0 as int, ranges[j].1 as int),
            r@ == join_sep(ls.subrange(0, k as int), "\n"@),
        decreases m - k,
    {
        assert(ls.subrange(0, k + 1).drop_last() =~= ls.subrange(0, k as int));
        let (a, b) = ranges[k];
        assert(ranges[k as int].0 <= ranges[k as int].1);
        if k > 0 {
            r.append("\n");
        }
        let piece = s.substring_char(a, b);
        r.append(piece);
        k = k + 1;
    }
    r
}

/// Each item between `pre` and `post`, all concatenated.
pub open spec fn wrap_each(items: Seq<String>, pre: Seq<char>, post: Seq<char>) -> Seq<char>
    decreases items.len(),
{
    if items.len() == 0 {
        seq![]
    } else {
        wrap_each(items.drop_last(), pre, post) + pre + items.last()@ + post
    }
}

/// Appends each item between `pre` and `post`.
pub fn append_wrapped(out: &mut String, items: &Vec<String>, pre: &str, post: &str)
    ensures
        final(out)@ == old(out)@ + wrap_each(items@, pre@, post@),
{
    let ghost start = out@;
    let mut i: usize = 0;
    while i < items.len()
        invariant
            i <= items.len(),
            out@ == start + wrap_each(items@.subrange(0, i as int), pre@, post@),
        decreases items.len() - i,
    {
        assert(items@.subrange(0, i + 1).drop_last() =~= items@.subrange(0, i as int));
        out.append(pre);
        out.append(items[i].as_str());
        out.append(post);
        i = i + 1;
    }
    assert(items@.subrange(0, i as int) =~= items@);
}

/// Each `(key, value)` entry as `a key b value c`, all concatenated.
pub open spec fn pairs_text(s: Seq<(String, String)>, a: Seq<char>, b: Seq<char>, c: Seq<char>) -> Seq<
    char,
>
    decreases s.len(),
{
    if s.len() == 0 {
        seq![]
    } else {
        pairs_text(s.drop_last(), a, b, c) + a + s.last().0@ + b + s.last().1@ + c
    }
}

/// Appends each `(key, value)` entry as `a key b value c`.
pub fn append_pairs(out: &mut String, s: &Vec<(String, String)>, a: &str, b: &str, c: &str)
    ensures
        final(out)@ == old(out)@ + pairs_text(s@, a@, b@, c@),
{
    let ghost start = out@;
    let mut i: usize = 0;
    while i < s.len()
        invariant
            i <= s.len(),
            out@ == start + pairs_text(s@.subrange(0, i as int), a@, b@, c@),
        decreases s.len() - i,
    {
        assert(s@.subrange(0, i + 1).drop_last() =~= s@.subrange(0, i as int));
        out.append(a);
        out.append(s[i].0.as_str());
        out.append(b);
        out.append(s[i].1.as_str());
        out.append(c);
        i = i + 1;
    }
    assert(s@.subrange(0, i as int) =~= s@);
}

/// Whether two texts are equal.
pub fn text_eq(a: &str, b: &str) -> (r: bool)
    ensures
        r == (a@ == b@),
{
    a.to_owned() == b.to_owned()
}

/// The first line of a text (empty for a text without lines).
pub fn first_line(s: &str) -> (r: String)
    ensures
        r@ == (if lines_of(s@).len() > 0 {
            lines_of(s@)[0]
        } else {
            seq![]
        }),
{
    let cs = chars_vec(s);
    let ranges = line_ranges(&cs);
    if ranges.len() == 0 {
        return String::new();
    }
    let (a, b) = ranges[0];
    assert(ranges[0].0 <= ranges[0].1);
    String::from_str(s.substring_char(a, b))
}

/// A whitespace character, as `char::is_whitespace` defines it: the
/// Unicode `White_Space` code points.
pub open spec fn is_space(c: char) -> bool {
    ('\u{9}' <= c && c <= '\u{d}') || c == ' ' || c == '\u{85}' || c == '\u{a0}' || c == '\u{1680}'
        || ('\u{2000}' <= c && c <= '\u{200a}') || c == '\u{2028}' || c == '\u{2029}'
        || c == '\u{202f}' || c == '\u{205f}' || c == '\u{3000}'
}

fn space(c: char) -> (r: bool)
    ensures
        r == is_space(c),
{
    ('\u{9}' <= c && c <= '\u{d}') || c == ' ' || c == '\u{85}' || c == '\u{a0}' || c == '\u{1680}'
        || ('\u{2000}' <= c && c <= '\u{200a}') || c == '\u{2028}' || c == '\u{2029}'
        || c == '\u{202f}' || c == '\u{205f}' || c == '\u{3000}'
}

/// `s[a..b]` is `s` without whitespace at either end.
pub open spec fn trim_bounds(s: Seq<char>, a: int, b: int) -> bool {
    &&& 0 <= a <= b <= s.len()
    &&& forall|i: int| 0 <= i < a ==> is_space(#[trigger] s[i])
    &&& forall|i: int| b <= i < s.len() ==> is_space(#[trigger] s[i])
    &&& a < s.len() ==> !is_space(s[a])
    &&& a < b ==> !is_space(s[b - 1])
}

/// A text without the whitespace at either end, as `str::trim` gives it.
pub open spec fn trim_of(s: Seq<char>) -> Seq<char> {
    let (a, b) = choose|a: int, b: int| trim_bounds(s, a, b);
    s.subrange(a, b)
}

proof fn lemma_trim_bounds_unique(s: Seq<char>, a: int, b: int, a2: int, b2: int)
    requires
        trim_bounds(s, a, b),
        trim_bounds(s, a2, b2),
    ensures
        a == a2 && b == b2,
{
    if a < a2 {
        assert(is_space(s[a]));
    } else if a2 < a {
        assert(is_space(s[a2]));
    }
    if b < b2 {
        assert(is_space(s[b2 - 1]));
    } else if b2 < b {
        assert(is_space(s[b - 1]));
    }
}

/// The text without whitespace at either end.
pub fn trim_text(s: &str) -> (r: String)
    ensures
        r@ == trim_of(s@),
{
    let cs = chars_vec(s);
    let n = cs.len();
    let mut a: usize = 0;
    while a < n && space(cs[a])
        invariant
            a <= n,
            n == cs.len(),
            forall|i: int| 0 <= i < a ==> is_space(#[trigger] cs@[i]),
        decreases n - a,
    {
        a = a + 1;
    }
    let mut b: usize = n;
    while b > a && space(cs[b - 1])
        invariant
            a <= b <= n,
            n == cs.len(),
            forall|i: int| b <= i < n ==> is_space(#[trigger] cs@[i]),
        decreases b,
    {
        b = b - 1;
    }
    proof {
        assert(trim_bounds(s@, a as int, b as int));
        let (a2, b2) = choose|a2: int, b2: int| trim_bounds(s@, a2, b2);
        lemma_trim_bounds_unique(s@, a as int, b as int, a2, b2);
    }
    String::from_str(s.substring_char(a, b))
}

/// The lines of a text, as strings.
pub fn lines_vec(s: &str) -> (r: Vec<String>)
    ensures
        views(r@) == lines_of(s@),
{
    let cs = chars_vec(s);
    let ranges = line_ranges(&cs);
    let ghost ls = lines_of(s@);
    let mut r: Vec<String> = Vec::new();
    let mut k: usize = 0;
    while k < ranges.len()
        invariant
            k <= ranges.len(),
            ranges.len() == ls.len(),
            cs@ == s@,
            ls == lines_of(cs@),
            forall|j: int|
                #![trigger ranges[j]]
                0 <= j < ranges.len() ==> ranges[j].0 <= ranges[j].1 <= cs.len() && ls[j]
                    == cs@.subrange(ranges[j].0 as int, ranges[j].1 as int),
            r@.len() == k,
            forall|j: int| 0 <= j < k ==> (#[trigger] r@[j])@ == ls[j],
        decreases ranges.len() - k,
    {
        let (a, b) = ranges[k];
        assert(ranges[k as int].0 <= ranges[k as int].1);
        r.push(String::from_str(s.substring_char(a, b)));
        k = k + 1;
    }
    assert(views(r@) =~= ls);
    r
}

/// The views of a pushed sequence.
pub proof fn lemma_views_push(v: Seq<String>, x: String)
    ensures
        views(v.push(x)) == views(v).push(x@),
{
    assert(views(v.push(x)) =~= views(v).push(x@));
}

/// The views of one more element of a prefix.
pub proof fn lemma_views_prefix(v: Seq<String>, i: int)
    requires
        0 <= i < v.len(),
    ensures
        views(v.subrange(0, i + 1)) == views(v.subrange(0, i)).push(v[i]@),
{
    assert(v.subrange(0, i + 1) =~= v.subrange(0, i).push(v[i]));
    lemma_views_push(v.subrange(0, i), v[i]);
}

/// A text occurs inside any text built around it.
pub proof fn lemma_infix_middle(a: Seq<char>, b: Seq<char>, c: Seq<char>)
    ensures
        is_infix(a + b + c, b),
{
    assert((a + b + c).subrange(a.len() as int, (a.len() + b.len()) as int) =~= b);
    assert(occurs_at(a + b + c, b, a.len() as int));
}

} // verus!
