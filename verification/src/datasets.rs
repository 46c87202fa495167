//! Dataset file formats: temporal event annotations (one event per line:
//! video name, start frame, end frame, class), the header and payload of
//! Middlebury `.flo` optical-flow files, and the file names that count as
//! frames of an image sequence.

use vstd::prelude::*;
use crate::text::{chars_of, same_text};
use crate::camera::{file_name_of, path_file_name};

verus! {

// ── Words and lines ─────────────────────────────────────────────────

/// Unicode `White_Space` (what `char::is_whitespace` tests): U+0009..U+000D,
/// U+0020, U+0085, U+00A0, U+1680, U+2000..U+200A, U+2028, U+2029, U+202F,
/// U+205F and U+3000.
pub open spec fn is_white_space(c: char) -> bool {
    let v = c as u32;
    ||| 0x09 <= v <= 0x0d
    ||| v == 0x20
    ||| v == 0x85
    ||| v == 0xa0
    ||| v == 0x1680
    ||| 0x2000 <= v <= 0x200a
    ||| v == 0x2028
    ||| v == 0x2029
    ||| v == 0x202f
    ||| v == 0x205f
    ||| v == 0x3000
}

/// Whether `c` is Unicode whitespace.
pub fn white_space(c: char) -> (b: bool)
    ensures
        b == is_white_space(c),
{
    let v = c as u32;
    (0x09 <= v && v <= 0x0d) || v == 0x20 || v == 0x85 || v == 0xa0 || v == 0x1680 || (0x2000
        <= v && v <= 0x200a) || v == 0x2028 || v == 0x2029 || v == 0x202f || v == 0x205f || v
        == 0x3000
}

/// The whitespace-separated words of `s`, in order: its maximal runs of
/// non-whitespace characters (`str::split_whitespace`).
pub open spec fn words(s: Seq<char>) -> Seq<Seq<char>>
    decreases s.len(),
{
    if s.len() == 0 {
        Seq::empty()
    } else {
        let prev = words(s.drop_last());
        let c = s.last();
        if is_white_space(c) {
            prev
        } else if s.len() >= 2 && !is_white_space(s[s.len() - 2]) {
            prev.update(prev.len() - 1, prev.last().push(c))
        } else {
            prev.push(seq![c])
        }
    }
}

/// The pieces of `s` between `\n` characters (a `\r` before a `\n` is
/// whitespace, so it never ends up in a word).
pub open spec fn lines(s: Seq<char>) -> Seq<Seq<char>>
    decreases s.len(),
{
    if s.len() == 0 {
        seq![Seq::empty()]
    } else {
        let prev = lines(s.drop_last());
        if s.last() == '\n' {
            prev.push(Seq::empty())
        } else {
            prev.update(prev.len() - 1, prev.last().push(s.last()))
        }
    }
}

/// The words of `c[lo..hi]`, given as index ranges into `c`.
pub open spec fn ranges_cover(c: Seq<char>, r: Seq<(usize, usize)>, lo: int, hi: int) -> bool {
    forall|k: int| 0 <= k < r.len() ==> lo <= #[trigger] r[k].0 <= r[k].1 <= hi
}

/// The pieces of `c` that the index ranges `r` select.
pub open spec fn range_texts(c: Seq<char>, r: Seq<(usize, usize)>) -> Seq<Seq<char>> {
    Seq::new(r.len(), |k: int| c.subrange(r[k].0 as int, r[k].1 as int))
}

/// The word ranges of `chars[lo..hi]`, as positions in `chars`.
fn word_ranges(chars: &Vec<char>, lo: usize, hi: usize) -> (r: Vec<(usize, usize)>)
    requires
        lo <= hi <= chars@.len(),
    ensures
        ranges_cover(chars@, r@, lo as int, hi as int),
        range_texts(chars@, r@) == words(chars@.subrange(lo as int, hi as int)),
{
    let ghost c = chars@;
    let mut r: Vec<(usize, usize)> = Vec::new();
    let mut in_word = false;
    let mut start: usize = lo;
    let mut j: usize = lo;
    while j < hi
        invariant
            c == chars@,
            lo <= start <= j <= hi <= c.len(),
            ranges_cover(c, r@, lo as int, start as int),
            in_word <==> (j > lo && !is_white_space(c[j - 1])),
            in_word ==> start < j && words(c.subrange(lo as int, j as int)) == range_texts(c, r@).push(
                c.subrange(start as int, j as int),
            ),
            !in_word ==> start == j && words(c.subrange(lo as int, j as int)) == range_texts(c, r@),
        decreases hi - j,
    {
        let ch = chars[j];
        let ghost before = c.subrange(lo as int, j as int);
        let ghost after = c.subrange(lo as int, j + 1);
        assert(after.drop_last() =~= before);
        if white_space(ch) {
            if in_word {
                let ghost r0 = r@;
                r.push((start, j));
                assert(range_texts(c, r@) =~= range_texts(c, r0).push(
                    c.subrange(start as int, j as int),
                ));
                assert forall|k: int| 0 <= k < r@.len() implies lo <= #[trigger] r@[k].0 <= r@[k].1
                    <= j + 1 by {
                    if k < r0.len() {
                        assert(r@[k] == r0[k]);
                    }
                }
            }
            j = j + 1;
            start = j;
            in_word = false;
        } else {
            if in_word {
                assert(after[after.len() - 2] == c[j - 1]);
                assert(c.subrange(start as int, j + 1) =~= c.subrange(start as int, j as int).push(
                    ch,
                ));
                assert(words(after) =~= range_texts(c, r@).push(c.subrange(start as int, j + 1)));
            } else {
                assert(c.subrange(j as int, j + 1) =~= seq![ch]);
                start = j;
                assert(words(after) =~= range_texts(c, r@).push(c.subrange(start as int, j + 1)));
            }
            j = j + 1;
            in_word = true;
        }
    }
    if in_word {
        let ghost r0 = r@;
        r.push((start, hi));
        assert(range_texts(c, r@) =~= range_texts(c, r0).push(
            c.subrange(start as int, hi as int),
        ));
    }
    r
}

// ── Decimal numbers ─────────────────────────────────────────────────

/// An ASCII decimal digit.
pub open spec fn is_digit(c: char) -> bool {
    '0' as u32 <= c as u32 <= '9' as u32
}

/// The value of a digit (0 for anything else).
pub open spec fn digit_value(c: char) -> nat {
    if is_digit(c) {
        (c as u32 - '0' as u32) as nat
    } else {
        0
    }
}

/// The value of a string of decimal digits.
pub open spec fn decimal_value(d: Seq<char>) -> nat
    decreases d.len(),
{
    if d.len() == 0 {
        0
    } else {
        decimal_value(d.drop_last()) * 10 + digit_value(d.last())
    }
}

/// The digits of a number: `w` without one leading `+`.
pub open spec fn unsigned_digits(w: Seq<char>) -> Seq<char> {
    if w.len() > 0 && w[0] == '+' {
        w.drop_first()
    } else {
        w
    }
}

/// What `u64::from_str` gives for `w`: a number when `w` is one or more
/// ASCII digits, optionally after a `+`, whose value fits in 64 bits.
pub open spec fn parse_u64(w: Seq<char>) -> Option<u64> {
    let d = unsigned_digits(w);
    if d.len() > 0 && (forall|i: int| 0 <= i < d.len() ==> is_digit(#[trigger] d[i]))
        && decimal_value(d) <= u64::MAX {
        Some(decimal_value(d) as u64)
    } else {
        None
    }
}

proof fn lemma_decimal_prefix_le(d: Seq<char>, k: int)
    requires
        0 <= k <= d.len(),
    ensures
        decimal_value(d.subrange(0, k)) <= decimal_value(d),
    decreases d.len(),
{
    if k < d.len() {
        lemma_decimal_prefix_le(d.drop_last(), k);
        assert(d.drop_last().subrange(0, k) =~= d.subrange(0, k));
    } else {
        assert(d.subrange(0, k) =~= d);
    }
}

/// Parses `chars[lo..hi]` as `u64::from_str` would.
fn parse_u64_at(chars: &Vec<char>, lo: usize, hi: usize) -> (r: Option<u64>)
    requires
        lo <= hi <= chars@.len(),
    ensures
        r == parse_u64(chars@.subrange(lo as int, hi as int)),
{
    let ghost w = chars@.subrange(lo as int, hi as int);
    let mut start = lo;
    if lo < hi && chars[lo] == '+' {
        start = lo + 1;
    }
    let ghost d = chars@.subrange(start as int, hi as int);
    assert(d =~= unsigned_digits(w));
    if start == hi {
        return None;
    }
    let mut acc: u64 = 0;
    let mut k: usize = start;
    while k < hi
        invariant
            start <= k <= hi <= chars@.len(),
            d == chars@.subrange(start as int, hi as int),
            d == unsigned_digits(w),
            w == chars@.subrange(lo as int, hi as int),
            d.len() > 0,
            forall|i: int| 0 <= i < k - start ==> is_digit(#[trigger] d[i]),
            acc == decimal_value(d.subrange(0, k - start)),
        decreases hi - k,
    {
        let ch = chars[k];
        assert(d[k - start] == ch);
        let code = ch as u32;
        if !(48 <= code && code <= 57) {
            assert(!is_digit(d[k - start]));
            return None;
        }
        let digit: u64 = (code - 48) as u64;
        assert(d.subrange(0, k + 1 - start).drop_last() =~= d.subrange(0, k - start));
        let next = acc.checked_mul(10);
        match next {
            None => {
                proof {
                    lemma_decimal_prefix_le(d, k + 1 - start);
                }
                return None;
            },
            Some(m) => match m.checked_add(digit) {
                None => {
                    proof {
                        lemma_decimal_prefix_le(d, k + 1 - start);
                    }
                    return None;
                },
                Some(v) => {
                    acc = v;
                },
            },
        }
        k = k + 1;
    }
    assert(d.subrange(0, hi - start) =~= d);
    Some(acc)
}

// ── Temporal annotations ────────────────────────────────────────────

/// `ws` joined with single spaces between them.
pub open spec fn join_with_spaces(ws: Seq<Seq<char>>) -> Seq<char>
    decreases ws.len(),
{
    if ws.len() == 0 {
        Seq::empty()
    } else if ws.len() == 1 {
        ws[0]
    } else {
        join_with_spaces(ws.drop_last()) + seq![' '] + ws.last()
    }
}

/// The annotation a line holds, as (video name, start frame, end frame,
/// class): a line of at least four words whose second and third words are
/// frame numbers; the class is every word from the fourth on, joined with
/// single spaces.
pub open spec fn line_annotation(line: Seq<char>) -> Option<(Seq<char>, u64, u64, Seq<char>)> {
    let ws = words(line);
    if ws.len() >= 4 && parse_u64(ws[1]) is Some && parse_u64(ws[2]) is Some {
        Some(
            (
                ws[0],
                parse_u64(ws[1])->0,
                parse_u64(ws[2])->0,
                join_with_spaces(ws.subrange(3, ws.len() as int)),
            ),
        )
    } else {
        None
    }
}

/// The annotations of the lines `ls` that hold one, in order.
pub open spec fn annotations_of_lines(ls: Seq<Seq<char>>) -> Seq<(Seq<char>, u64, u64, Seq<char>)>
    decreases ls.len(),
{
    if ls.len() == 0 {
        Seq::empty()
    } else {
        let prev = annotations_of_lines(ls.drop_last());
        match line_annotation(ls.last()) {
            Some(a) => prev.push(a),
            None => prev,
        }
    }
}

/// The annotations of an annotation file: one for each line that holds
/// one, in file order; other lines are skipped.
pub open spec fn temporal_annotations(content: Seq<char>) -> Seq<(Seq<char>, u64, u64, Seq<char>)> {
    annotations_of_lines(lines(content))
}

/// A labelled event in a video: frames `start_frame` to `end_frame` of
/// `video_name` show an event of class `class`.
#[derive(Debug, Clone)]
pub struct TemporalAnnotation {
    pub video_name: String,
    pub start_frame: u64,
    pub end_frame: u64,
    pub class: String,
}

impl View for TemporalAnnotation {
    type V = (Seq<char>, u64, u64, Seq<char>);

    open spec fn view(&self) -> (Seq<char>, u64, u64, Seq<char>) {
        (self.video_name@, self.start_frame, self.end_frame, self.class@)
    }
}

/// `out` holds exactly the annotations `expected`, in order.
pub open spec fn annotations_are(
    out: Seq<TemporalAnnotation>,
    expected: Seq<(Seq<char>, u64, u64, Seq<char>)>,
) -> bool {
    &&& out.len() == expected.len()
    &&& forall|k: int| 0 <= k < out.len() ==> #[trigger] out[k]@ == expected[k]
}

/// The annotation held by the line `chars[lo..hi]` of `content`.
fn annotation_at(content: &str, chars: &Vec<char>, lo: usize, hi: usize) -> (r: Option<
    TemporalAnnotation,
>)
    requires
        chars@ == content@,
        lo <= hi <= chars@.len(),
    ensures
        match r {
            Some(a) => line_annotation(content@.subrange(lo as int, hi as int)) == Some(a@),
            None => line_annotation(content@.subrange(lo as int, hi as int)) is None,
        },
{
    let ghost line = content@.subrange(lo as int, hi as int);
    let ranges = word_ranges(chars, lo, hi);
    let ghost ws = range_texts(chars@, ranges@);
    assert(ws == words(line));
    if ranges.len() < 4 {
        return None;
    }
    assert(ranges_cover(chars@, ranges@, lo as int, hi as int));
    let r1 = ranges[1];
    let r2 = ranges[2];
    let start = parse_u64_at(chars, r1.0, r1.1);
    let end = parse_u64_at(chars, r2.0, r2.1);
    assert(ws[1] == chars@.subrange(r1.0 as int, r1.1 as int));
    assert(ws[2] == chars@.subrange(r2.0 as int, r2.1 as int));
    match (start, end) {
        (Some(start_frame), Some(end_frame)) => {
            let r0 = ranges[0];
            let r3 = ranges[3];
            let video_name = String::from_str(content.substring_char(r0.0, r0.1));
            let mut class = String::from_str(content.substring_char(r3.0, r3.1));
            assert(ws.subrange(3, 4) =~= seq![ws[3]]);
            let mut k: usize = 4;
            while k < ranges.len()
                invariant
                    chars@ == content@,
                    ws == range_texts(chars@, ranges@),
                    ranges_cover(chars@, ranges@, lo as int, hi as int),
                    hi <= chars@.len(),
                    4 <= k <= ranges@.len(),
                    class@ == join_with_spaces(ws.subrange(3, k as int)),
                decreases ranges.len() - k,
            {
                let rk = ranges[k];
                proof {
                    reveal_strlit(" ");
                    assert(ws.subrange(3, k + 1).drop_last() =~= ws.subrange(3, k as int));
                }
                class.append(" ");
                class.append(content.substring_char(rk.0, rk.1));
                assert(class@ =~= join_with_spaces(ws.subrange(3, k + 1)));
                k = k + 1;
            }
            let a = TemporalAnnotation { video_name, start_frame, end_frame, class };
            assert(a@.3 == join_with_spaces(ws.subrange(3, ws.len() as int)));
            Some(a)
        },
        _ => None,
    }
}

proof fn lemma_lines_step(c: Seq<char>, line_start: int, i: int)
    requires
        0 <= line_start <= i < c.len(),
    ensures
        c.subrange(0, i + 1).drop_last() == c.subrange(0, i),
        c.subrange(0, i + 1).last() == c[i],
        c[i] != '\n' ==> c.subrange(line_start, i + 1) == c.subrange(line_start, i).push(c[i]),
{
    assert(c.subrange(0, i + 1).drop_last() =~= c.subrange(0, i));
    assert(c.subrange(line_start, i + 1) =~= c.subrange(line_start, i).push(c[i]));
}

/// Parses an annotation file: each line `video start end class...` with
/// frame numbers `start` and `end` gives one annotation; any other line is
/// skipped.
pub fn parse_temporal_annotations(content: &str) -> (out: Vec<TemporalAnnotation>)
    ensures
        annotations_are(out@, temporal_annotations(content@)),
{
    let chars = chars_of(content);
    let n = chars.len();
    let mut out: Vec<TemporalAnnotation> = Vec::new();
    let mut line_start: usize = 0;
    let mut i: usize = 0;
    let ghost mut done: Seq<Seq<char>> = Seq::empty();
    assert(content@.subrange(0, 0) =~= Seq::<char>::empty());
    while i < n
        invariant
            chars@ == content@,
            n == chars@.len(),
            line_start <= i <= n,
            lines(content@.subrange(0, i as int)) == done.push(
                content@.subrange(line_start as int, i as int),
            ),
            annotations_are(out@, annotations_of_lines(done)),
        decreases n - i,
    {
        proof {
            lemma_lines_step(content@, line_start as int, i as int);
        }
        if chars[i] == '\n' {
            let ghost line = content@.subrange(line_start as int, i as int);
            let ghost out0 = out@;
            match annotation_at(content, &chars, line_start, i) {
                Some(a) => {
                    out.push(a);
                },
                None => {},
            }
            proof {
                assert(done.push(line).drop_last() =~= done);
                done = done.push(line);
                assert(content@.subrange(i + 1, i + 1) =~= Seq::<char>::empty());
            }
            line_start = i + 1;
        }
        i = i + 1;
    }
    let ghost line = content@.subrange(line_start as int, n as int);
    match annotation_at(content, &chars, line_start, n) {
        Some(a) => {
            out.push(a);
        },
        None => {},
    }
    proof {
        assert(content@.subrange(0, n as int) =~= content@);
        assert(done.push(line).drop_last() =~= done);
    }
    out
}

proof fn lemma_lines_nonempty(s: Seq<char>)
    ensures
        lines(s).len() >= 1,
    decreases s.len(),
{
    if s.len() > 0 {
        lemma_lines_nonempty(s.drop_last());
    }
}

proof fn lemma_lines_concat(a: Seq<char>, b: Seq<char>)
    ensures
        lines(a + seq!['\n'] + b) == lines(a) + lines(b),
    decreases b.len(),
{
    let s = a + seq!['\n'] + b;
    if b.len() == 0 {
        assert(s.drop_last() =~= a);
        assert(lines(a).push(Seq::empty()) =~= lines(a) + lines(b));
    } else {
        lemma_lines_concat(a, b.drop_last());
        lemma_lines_nonempty(b.drop_last());
        assert(s.drop_last() =~= a + seq!['\n'] + b.drop_last());
        let prev_a = lines(a);
        let prev_b = lines(b.drop_last());
        if b.last() == '\n' {
            assert((prev_a + prev_b).push(Seq::empty()) =~= prev_a + prev_b.push(Seq::empty()));
        } else {
            let joined = prev_a + prev_b;
            assert(joined.update(joined.len() - 1, joined.last().push(b.last())) =~= prev_a
                + prev_b.update(prev_b.len() - 1, prev_b.last().push(b.last())));
        }
    }
}

proof fn lemma_annotations_of_lines_concat(x: Seq<Seq<char>>, y: Seq<Seq<char>>)
    ensures
        annotations_of_lines(x + y) == annotations_of_lines(x) + annotations_of_lines(y),
    decreases y.len(),
{
    if y.len() == 0 {
        assert(x + y =~= x);
        assert(annotations_of_lines(x) + annotations_of_lines(y) =~= annotations_of_lines(x));
    } else {
        lemma_annotations_of_lines_concat(x, y.drop_last());
        assert((x + y).drop_last() =~= x + y.drop_last());
        match line_annotation(y.last()) {
            Some(v) => {
                assert((annotations_of_lines(x) + annotations_of_lines(y.drop_last())).push(v)
                    =~= annotations_of_lines(x) + annotations_of_lines(y.drop_last()).push(v));
            },
            None => {},
        }
    }
}

/// Law: an annotation file is read line by line. Two files joined by a
/// line break hold the annotations of the first followed by those of the
/// second.
pub proof fn lemma_annotations_of_joined_files(a: Seq<char>, b: Seq<char>)
    ensures
        temporal_annotations(a + seq!['\n'] + b) == temporal_annotations(a) + temporal_annotations(b),
{
    lemma_lines_concat(a, b);
    lemma_annotations_of_lines_concat(lines(a), lines(b));
}

// ── Writing annotations ─────────────────────────────────────────────

/// A word: one or more characters, none of them whitespace.
pub open spec fn is_word(w: Seq<char>) -> bool {
    w.len() > 0 && forall|i: int| 0 <= i < w.len() ==> !is_white_space(#[trigger] w[i])
}

/// The decimal digit for `d` (below 10).
pub open spec fn digit_char(d: nat) -> char {
    if d == 0 {
        '0'
    } else if d == 1 {
        '1'
    } else if d == 2 {
        '2'
    } else if d == 3 {
        '3'
    } else if d == 4 {
        '4'
    } else if d == 5 {
        '5'
    } else if d == 6 {
        '6'
    } else if d == 7 {
        '7'
    } else if d == 8 {
        '8'
    } else {
        '9'
    }
}

/// The decimal numeral of `n`, without leading zeros.
pub open spec fn decimal_text(n: nat) -> Seq<char>
    decreases n,
{
    if n < 10 {
        seq![digit_char(n)]
    } else {
        decimal_text(n / 10).push(digit_char(n % 10))
    }
}

/// An annotation written as a line: the video name, the start and end
/// frames in decimal and the class words, separated by single spaces.
pub open spec fn annotation_line(name: Seq<char>, start: u64, end: u64, class_words: Seq<Seq<char>>) -> Seq<char> {
    name + seq![' '] + decimal_text(start as nat) + seq![' '] + decimal_text(end as nat) + seq![' ']
        + join_with_spaces(class_words)
}

proof fn lemma_decimal_text(n: nat)
    ensures
        decimal_text(n).len() > 0,
        forall|i: int| 0 <= i < decimal_text(n).len() ==> is_digit(#[trigger] decimal_text(n)[i]),
        decimal_value(decimal_text(n)) == n,
    decreases n,
{
    assert(n % 10 < 10);
    assert(is_digit(digit_char(n % 10)) && digit_value(digit_char(n % 10)) == n % 10);
    let t = decimal_text(n);
    if n < 10 {
        assert(t.drop_last() =~= Seq::<char>::empty());
        assert(t.last() == digit_char(n));
        assert(decimal_value(t) == decimal_value(t.drop_last()) * 10 + digit_value(t.last()));
    } else {
        lemma_decimal_text(n / 10);
        assert(t.drop_last() =~= decimal_text(n / 10));
        assert(t.last() == digit_char(n % 10));
        assert(decimal_value(t) == decimal_value(t.drop_last()) * 10 + digit_value(t.last()));
        assert((n / 10) * 10 + n % 10 == n);
        assert forall|i: int| 0 <= i < t.len() implies is_digit(#[trigger] t[i]) by {
            if i < t.len() - 1 {
                assert(t[i] == decimal_text(n / 10)[i]);
            }
        }
    }
}

proof fn lemma_decimal_parses(n: u64)
    ensures
        parse_u64(decimal_text(n as nat)) == Some(n),
        is_word(decimal_text(n as nat)),
{
    lemma_decimal_text(n as nat);
    let t = decimal_text(n as nat);
    assert(is_digit(t[0]));
    assert(unsigned_digits(t) == t);
    assert forall|i: int| 0 <= i < t.len() implies !is_white_space(#[trigger] t[i]) by {
        assert(is_digit(t[i]));
    }
}

proof fn lemma_words_nonempty(s: Seq<char>)
    requires
        s.len() > 0,
        !is_white_space(s.last()),
    ensures
        words(s).len() > 0,
    decreases s.len(),
{
    if s.len() >= 2 && !is_white_space(s[s.len() - 2]) {
        assert(s.drop_last().last() == s[s.len() - 2]);
        lemma_words_nonempty(s.drop_last());
    }
}

proof fn lemma_words_split(a: Seq<char>, b: Seq<char>)
    ensures
        words(a + seq![' '] + b) == words(a) + words(b),
    decreases b.len(),
{
    let s = a + seq![' '] + b;
    if b.len() == 0 {
        assert(s.drop_last() =~= a);
        assert(words(a) + words(b) =~= words(a));
    } else {
        lemma_words_split(a, b.drop_last());
        assert(s.drop_last() =~= a + seq![' '] + b.drop_last());
        let c = b.last();
        let wa = words(a);
        let wb = words(b.drop_last());
        if is_white_space(c) {
        } else if b.len() >= 2 && !is_white_space(b[b.len() - 2]) {
            assert(s[s.len() - 2] == b[b.len() - 2]);
            assert(b.drop_last().last() == b[b.len() - 2]);
            lemma_words_nonempty(b.drop_last());
            let joined = wa + wb;
            assert(joined.update(joined.len() - 1, joined.last().push(c)) =~= wa + wb.update(
                wb.len() - 1,
                wb.last().push(c),
            ));
        } else {
            if b.len() >= 2 {
                assert(s[s.len() - 2] == b[b.len() - 2]);
            } else {
                assert(s[s.len() - 2] == ' ');
            }
            assert((wa + wb).push(seq![c]) =~= wa + wb.push(seq![c]));
        }
    }
}

proof fn lemma_words_of_word(w: Seq<char>)
    requires
        is_word(w),
    ensures
        words(w) == seq![w],
    decreases w.len(),
{
    assert(!is_white_space(w[w.len() - 1]));
    if w.len() == 1 {
        assert(w.drop_last() =~= Seq::<char>::empty());
        assert(words(w.drop_last()) =~= Seq::<Seq<char>>::empty());
        assert(seq![w.last()] =~= w);
        assert(seq![seq![w.last()]] =~= seq![w]);
    } else {
        let p = w.drop_last();
        assert forall|i: int| 0 <= i < p.len() implies !is_white_space(#[trigger] p[i]) by {
            assert(p[i] == w[i]);
        }
        lemma_words_of_word(p);
        assert(w[w.len() - 2] == p.last());
        assert(p.push(w.last()) =~= w);
        assert(seq![p].update(0, p.push(w.last())) =~= seq![w]);
    }
}

proof fn lemma_words_of_joined(ws: Seq<Seq<char>>)
    requires
        forall|k: int| 0 <= k < ws.len() ==> is_word(#[trigger] ws[k]),
    ensures
        words(join_with_spaces(ws)) == ws,
    decreases ws.len(),
{
    if ws.len() == 1 {
        lemma_words_of_word(ws[0]);
        assert(seq![ws[0]] =~= ws);
    } else if ws.len() > 1 {
        let p = ws.drop_last();
        assert forall|k: int| 0 <= k < p.len() implies is_word(#[trigger] p[k]) by {
            assert(p[k] == ws[k]);
        }
        lemma_words_of_joined(p);
        assert(is_word(ws[ws.len() - 1]));
        lemma_words_of_word(ws.last());
        lemma_words_split(join_with_spaces(p), ws.last());
        assert(p + seq![ws.last()] =~= ws);
    } else {
        assert(words(Seq::<char>::empty()) =~= ws);
    }
}

/// `s` holds no line break.
pub open spec fn no_line_break(s: Seq<char>) -> bool {
    forall|i: int| 0 <= i < s.len() ==> #[trigger] s[i] != '\n'
}

proof fn lemma_word_has_no_line_break(w: Seq<char>)
    requires
        is_word(w),
    ensures
        no_line_break(w),
{
    assert forall|i: int| 0 <= i < w.len() implies #[trigger] w[i] != '\n' by {
        assert(!is_white_space(w[i]));
    }
}

proof fn lemma_spaced_has_no_line_break(a: Seq<char>, b: Seq<char>)
    requires
        no_line_break(a),
        no_line_break(b),
    ensures
        no_line_break(a + seq![' '] + b),
{
    let s = a + seq![' '] + b;
    assert forall|i: int| 0 <= i < s.len() implies #[trigger] s[i] != '\n' by {
        if i < a.len() {
            assert(s[i] == a[i]);
        } else if i > a.len() {
            assert(s[i] == b[i - a.len() - 1]);
        }
    }
}

proof fn lemma_joined_has_no_line_break(ws: Seq<Seq<char>>)
    requires
        forall|k: int| 0 <= k < ws.len() ==> is_word(#[trigger] ws[k]),
    ensures
        no_line_break(join_with_spaces(ws)),
    decreases ws.len(),
{
    if ws.len() == 1 {
        lemma_word_has_no_line_break(ws[0]);
    } else if ws.len() > 1 {
        let p = ws.drop_last();
        assert forall|k: int| 0 <= k < p.len() implies is_word(#[trigger] p[k]) by {
            assert(p[k] == ws[k]);
        }
        lemma_joined_has_no_line_break(p);
        assert(is_word(ws[ws.len() - 1]));
        lemma_word_has_no_line_break(ws.last());
        lemma_spaced_has_no_line_break(join_with_spaces(p), ws.last());
    }
}

proof fn lemma_lines_single(s: Seq<char>)
    requires
        no_line_break(s),
    ensures
        lines(s) == seq![s],
    decreases s.len(),
{
    if s.len() > 0 {
        let p = s.drop_last();
        assert forall|i: int| 0 <= i < p.len() implies #[trigger] p[i] != '\n' by {
            assert(p[i] == s[i]);
        }
        lemma_lines_single(p);
        assert(p.push(s.last()) =~= s);
        assert(seq![p].update(0, p.push(s.last())) =~= seq![s]);
    } else {
        assert(s =~= Seq::<char>::empty());
    }
}

/// Law: an annotation written as a line (`video start end class`, the
/// video name and each class word free of whitespace, the frames in
/// decimal) reads back as exactly that annotation.
pub proof fn lemma_annotation_line_reads_back(
    name: Seq<char>,
    start: u64,
    end: u64,
    class_words: Seq<Seq<char>>,
)
    requires
        is_word(name),
        class_words.len() > 0,
        forall|k: int| 0 <= k < class_words.len() ==> is_word(#[trigger] class_words[k]),
    ensures
        temporal_annotations(annotation_line(name, start, end, class_words)) == seq![
            (name, start, end, join_with_spaces(class_words)),
        ],
{
    let ds = decimal_text(start as nat);
    let de = decimal_text(end as nat);
    let class = join_with_spaces(class_words);
    lemma_decimal_parses(start);
    lemma_decimal_parses(end);
    lemma_words_of_word(name);
    lemma_words_of_word(ds);
    lemma_words_of_word(de);
    lemma_words_of_joined(class_words);
    let l1 = name + seq![' '] + ds;
    let l2 = l1 + seq![' '] + de;
    let line = l2 + seq![' '] + class;
    lemma_words_split(name, ds);
    lemma_words_split(l1, de);
    lemma_words_split(l2, class);
    let ws = words(line);
    assert(ws =~= seq![name, ds, de] + class_words);
    assert(ws.subrange(3, ws.len() as int) =~= class_words);
    assert(line == annotation_line(name, start, end, class_words));
    assert(line_annotation(line) == Some((name, start, end, class)));
    lemma_word_has_no_line_break(name);
    lemma_word_has_no_line_break(ds);
    lemma_word_has_no_line_break(de);
    lemma_joined_has_no_line_break(class_words);
    lemma_spaced_has_no_line_break(name, ds);
    lemma_spaced_has_no_line_break(l1, de);
    lemma_spaced_has_no_line_break(l2, class);
    lemma_lines_single(line);
    let ls = seq![line];
    assert(ls.drop_last() =~= Seq::<Seq<char>>::empty());
    assert(ls.last() == line);
    assert(annotations_of_lines(ls.drop_last()) =~= Seq::<(Seq<char>, u64, u64, Seq<char>)>::empty());
    assert(annotations_of_lines(ls) =~= seq![(name, start, end, class)]);
}

// ── Middlebury optical-flow files ───────────────────────────────────

/// The little-endian 32-bit word of `b` starting at byte `i`.
pub open spec fn le_u32(b: Seq<u8>, i: int) -> u32 {
    (b[i] + 256 * b[i + 1] + 65536 * b[i + 2] + 16777216 * b[i + 3]) as u32
}

/// Reads the little-endian 32-bit word at byte `i`.
fn read_le_u32(data: &[u8], i: usize) -> (v: u32)
    requires
        i + 4 <= data@.len(),
    ensures
        v == le_u32(data@, i as int),
{
    let b0 = data[i] as u32;
    let b1 = data[i + 1] as u32;
    let b2 = data[i + 2] as u32;
    let b3 = data[i + 3] as u32;
    b0 + 256 * b1 + 65536 * b2 + 16777216 * b3
}

/// Width stored in a `.flo` header (bytes 4..8).
pub open spec fn flo_width(data: Seq<u8>) -> u32 {
    le_u32(data, 4)
}

/// Height stored in a `.flo` header (bytes 8..12).
pub open spec fn flo_height(data: Seq<u8>) -> u32 {
    le_u32(data, 8)
}

/// The first `n` flow vectors of a `.flo` file: pixel `i` is the pair of
/// 32-bit words (the bits of `dx` and `dy`) at bytes `12 + 8i` and
/// `16 + 8i`.
pub open spec fn flo_vectors(data: Seq<u8>, n: nat) -> Seq<(u32, u32)> {
    Seq::new(n, |i: int| (le_u32(data, 12 + 8 * i), le_u32(data, 16 + 8 * i)))
}

/// The header is present and the multiplication of its dimensions, and
/// the size of the payload they announce, fit the machine.
pub open spec fn flo_size_fits(data: Seq<u8>) -> bool {
    data.len() >= 12 ==> {
        &&& flo_width(data) * flo_height(data) <= u32::MAX
        &&& 12 + 8 * (flo_width(data) * flo_height(data)) <= usize::MAX
    }
}

/// Reads the dimensions and flow vectors of a `.flo` file whose magic
/// number (bytes 0..4) the caller has checked. `None` when the file is
/// shorter than its header or than the `width * height` vectors the header
/// announces; otherwise the vectors, as raw 32-bit words, and the
/// dimensions.
pub fn flo_payload(data: &[u8]) -> (r: Option<(Vec<(u32, u32)>, u32, u32)>)
    requires
        flo_size_fits(data@),
    ensures
        r is Some <==> (data@.len() >= 12 && data@.len() >= 12 + 8 * (flo_width(data@) * flo_height(
            data@,
        ))),
        r matches Some((v, w, h)) ==> {
            &&& w == flo_width(data@)
            &&& h == flo_height(data@)
            &&& v@ == flo_vectors(data@, (w * h) as nat)
        },
{
    if data.len() < 12 {
        return None;
    }
    let width = read_le_u32(data, 4);
    let height = read_le_u32(data, 8);
    let pixel_count: usize = (width * height) as usize;
    let expected_size: usize = 12 + pixel_count * 8;
    if data.len() < expected_size {
        return None;
    }
    let mut vectors: Vec<(u32, u32)> = Vec::new();
    let mut i: usize = 0;
    while i < pixel_count
        invariant
            pixel_count == width * height,
            12 + pixel_count * 8 <= data@.len(),
            12 + pixel_count * 8 <= usize::MAX,
            width == flo_width(data@),
            height == flo_height(data@),
            i <= pixel_count,
            vectors@ == flo_vectors(data@, i as nat),
        decreases pixel_count - i,
    {
        assert(i * 8 + 8 <= pixel_count * 8) by (nonlinear_arith)
            requires
                i < pixel_count,
        ;
        let offset: usize = 12 + i * 8;
        let dx = read_le_u32(data, offset);
        let dy = read_le_u32(data, offset + 4);
        vectors.push((dx, dy));
        assert(vectors@ =~= flo_vectors(data@, (i + 1) as nat));
        i = i + 1;
    }
    Some((vectors, width, height))
}

/// The four little-endian bytes of `x`.
pub open spec fn le_bytes(x: u32) -> Seq<u8> {
    seq![(x % 256) as u8, ((x / 256) % 256) as u8, ((x / 65536) % 256) as u8, (x / 16777216) as u8]
}

/// The bytes of a list of flow vectors: each pair as its `dx` word, then
/// its `dy` word.
pub open spec fn vector_bytes(v: Seq<(u32, u32)>) -> Seq<u8>
    decreases v.len(),
{
    if v.len() == 0 {
        Seq::empty()
    } else {
        vector_bytes(v.drop_last()) + le_bytes(v.last().0) + le_bytes(v.last().1)
    }
}

/// The bytes of a `.flo` file: the magic word, the width, the height, then
/// the vectors.
pub open spec fn flo_file(magic: u32, width: u32, height: u32, v: Seq<(u32, u32)>) -> Seq<u8> {
    le_bytes(magic) + le_bytes(width) + le_bytes(height) + vector_bytes(v)
}

proof fn lemma_le_bytes_read_back(b: Seq<u8>, i: int, x: u32)
    requires
        0 <= i,
        i + 4 <= b.len(),
        b.subrange(i, i + 4) == le_bytes(x),
    ensures
        le_u32(b, i) == x,
{
    assert(b[i] == le_bytes(x)[0]);
    assert(b[i + 1] == le_bytes(x)[1]);
    assert(b[i + 2] == le_bytes(x)[2]);
    assert(b[i + 3] == le_bytes(x)[3]);
    assert(((x % 256) as u8) + 256 * (((x / 256) % 256) as u8) + 65536 * (((x / 65536) % 256) as u8)
        + 16777216 * ((x / 16777216) as u8) == x) by (bit_vector);
}

#[verifier::spinoff_prover]
proof fn lemma_vector_bytes_layout(v: Seq<(u32, u32)>)
    ensures
        vector_bytes(v).len() == 8 * v.len(),
        forall|k: int|
            0 <= k < v.len() ==> #[trigger] vector_bytes(v).subrange(8 * k, 8 * k + 4) == le_bytes(
                v[k].0,
            ) && vector_bytes(v).subrange(8 * k + 4, 8 * k + 8) == le_bytes(v[k].1),
    decreases v.len(),
{
    if v.len() > 0 {
        let prev = v.drop_last();
        lemma_vector_bytes_layout(prev);
        let vb = vector_bytes(v);
        let pb = vector_bytes(prev);
        assert forall|k: int| 0 <= k < v.len() implies #[trigger] vb.subrange(8 * k, 8 * k + 4)
            == le_bytes(v[k].0) && vb.subrange(8 * k + 4, 8 * k + 8) == le_bytes(v[k].1) by {
            if k < v.len() - 1 {
                assert(prev[k] == v[k]);
                assert(vb.subrange(8 * k, 8 * k + 4) =~= pb.subrange(8 * k, 8 * k + 4));
                assert(vb.subrange(8 * k + 4, 8 * k + 8) =~= pb.subrange(8 * k + 4, 8 * k + 8));
            } else {
                assert(vb.subrange(8 * k, 8 * k + 4) =~= le_bytes(v[k].0));
                assert(vb.subrange(8 * k + 4, 8 * k + 8) =~= le_bytes(v[k].1));
            }
        }
    }
}

/// Law: a `.flo` file reads back as written: its header gives the width
/// and height it was written with, its length is exactly what they
/// announce, and its `width * height` vectors are the ones written.
pub proof fn lemma_flo_file_reads_back(magic: u32, width: u32, height: u32, v: Seq<(u32, u32)>)
    requires
        v.len() == width * height,
    ensures
        flo_file(magic, width, height, v).len() == 12 + 8 * (width * height),
        flo_width(flo_file(magic, width, height, v)) == width,
        flo_height(flo_file(magic, width, height, v)) == height,
        flo_vectors(flo_file(magic, width, height, v), v.len()) == v,
{
    let d = flo_file(magic, width, height, v);
    let vb = vector_bytes(v);
    lemma_vector_bytes_layout(v);
    assert(d.subrange(4, 8) =~= le_bytes(width));
    assert(d.subrange(8, 12) =~= le_bytes(height));
    lemma_le_bytes_read_back(d, 4, width);
    lemma_le_bytes_read_back(d, 8, height);
    assert forall|k: int| 0 <= k < v.len() implies #[trigger] flo_vectors(d, v.len())[k] == v[k] by {
        assert(vb.subrange(8 * k, 8 * k + 4) == le_bytes(v[k].0));
        assert(d.subrange(12 + 8 * k, 16 + 8 * k) =~= vb.subrange(8 * k, 8 * k + 4));
        assert(d.subrange(16 + 8 * k, 20 + 8 * k) =~= vb.subrange(8 * k + 4, 8 * k + 8));
        lemma_le_bytes_read_back(d, 12 + 8 * k, v[k].0);
        lemma_le_bytes_read_back(d, 16 + 8 * k, v[k].1);
    }
    assert(flo_vectors(d, v.len()) =~= v);
}

// ── Frame sequences ─────────────────────────────────────────────────

/// Position of the last `.` in `f`, or -1 when there is none.
pub open spec fn last_dot(f: Seq<char>) -> int
    decreases f.len(),
{
    if f.len() == 0 {
        -1
    } else if f.last() == '.' {
        f.len() - 1
    } else {
        last_dot(f.drop_last())
    }
}

/// The extension of a file name, as `Path::extension` determines it: what
/// follows the last `.`; none when the name has no `.` or its only `.` is
/// the first character.
pub open spec fn name_extension(f: Seq<char>) -> Option<Seq<char>> {
    if last_dot(f) <= 0 {
        None
    } else {
        Some(f.subrange(last_dot(f) + 1, f.len() as int))
    }
}

/// Extensions of the image files that make up a frame sequence.
pub open spec fn is_frame_extension(e: Seq<char>) -> bool {
    e == "jpg"@ || e == "jpeg"@ || e == "png"@ || e == "bmp"@
}

/// A path names a frame of an image sequence: its file name has one of
/// the extensions `jpg`, `jpeg`, `png` or `bmp` (case-sensitive).
pub open spec fn is_frame_image_path(path: Seq<char>) -> bool {
    match path_file_name(path) {
        Some(f) => match name_extension(f) {
            Some(e) => is_frame_extension(e),
            None => false,
        },
        None => false,
    }
}

/// The extension of a file name.
fn extension_of(name: &str) -> (r: Option<String>)
    ensures
        match r {
            Some(e) => name_extension(name@) == Some(e@),
            None => name_extension(name@) is None,
        },
{
    let chars = chars_of(name);
    let mut found = false;
    let mut dot: usize = 0;
    let mut i: usize = 0;
    while i < chars.len()
        invariant
            chars@ == name@,
            i <= chars@.len(),
            found ==> dot < i && last_dot(chars@.take(i as int)) == dot,
            !found ==> last_dot(chars@.take(i as int)) == -1,
        decreases chars@.len() - i,
    {
        assert(chars@.take(i + 1).drop_last() =~= chars@.take(i as int));
        if chars[i] == '.' {
            found = true;
            dot = i;
        }
        i = i + 1;
    }
    assert(chars@.take(chars@.len() as int) =~= chars@);
    if !found || dot == 0 {
        return None;
    }
    Some(String::from_str(name.substring_char(dot + 1, chars.len())))
}

/// Whether a file name has the extension of a frame image (`jpg`, `jpeg`,
/// `png` or `bmp`).
pub fn is_frame_file_name(name: &str) -> (b: bool)
    ensures
        b == (match name_extension(name@) {
            Some(e) => is_frame_extension(e),
            None => false,
        }),
{
    match extension_of(name) {
        Some(ext) => {
            let e = ext.as_str();
            same_text(e, "jpg") || same_text(e, "jpeg") || same_text(e, "png") || same_text(
                e,
                "bmp",
            )
        },
        None => false,
    }
}

/// Whether `path` names a frame of an image sequence (`jpg`, `jpeg`, `png`
/// or `bmp` file).
pub fn is_frame_image(path: &str) -> (b: bool)
    ensures
        b == is_frame_image_path(path@),
{
    match file_name_of(path) {
        Some(name) => is_frame_file_name(name.as_str()),
        None => false,
    }
}

} // verus!
