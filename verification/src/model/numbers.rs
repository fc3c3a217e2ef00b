//! Turning spoken numbers into digits.
//!
//! The speech model writes numbers the way they are said — "twenty twenty
//! six", "one hundred and three" — and almost nobody dictating into a terminal
//! or a spreadsheet wants that.
//!
//! Three readings of a run of number words have to be told apart:
//!
//! - **Scaled** — "one hundred and three", "two thousand twenty six". Addition
//!   and multiplication against `hundred`/`thousand`/`million`.
//! - **Paired** — "nineteen eighty four", "twenty twenty six". Two two-digit
//!   chunks read as a year.
//! - **Digit-by-digit** — "four zero four", "one two three". Three or more
//!   single digits read as a string rather than summed.
//!
//! A standalone word below ten is left alone, because "I need 1 thing" reads
//! worse than the sentence it replaced. Everything else converts.

use vstd::prelude::*;

use crate::text::{chars_of, decimal, digit_char, is_alphabetic, is_space, is_whitespace, lowercase, push_decimal, str_lowercase, string_from_chars, char_is_alphabetic};

verus! {

/// What a number word contributes.
#[derive(Clone, Copy, Debug, PartialEq, Eq)]
pub enum Tok {
    /// zero to nine
    Unit(u64),
    /// ten to nineteen
    Teen(u64),
    /// twenty to ninety
    Ten(u64),
    Hundred,
    /// thousand, million, billion
    Scale(u64),
    And,
    Point,
}

/// The number word a lowercased word is, if it is one.
pub open spec fn spec_classify(w: Seq<char>) -> Option<Tok> {
    if w == "zero"@ || w == "nought"@ {
        Some(Tok::Unit(0))
    } else if w == "one"@ {
        Some(Tok::Unit(1))
    } else if w == "two"@ {
        Some(Tok::Unit(2))
    } else if w == "three"@ {
        Some(Tok::Unit(3))
    } else if w == "four"@ {
        Some(Tok::Unit(4))
    } else if w == "five"@ {
        Some(Tok::Unit(5))
    } else if w == "six"@ {
        Some(Tok::Unit(6))
    } else if w == "seven"@ {
        Some(Tok::Unit(7))
    } else if w == "eight"@ {
        Some(Tok::Unit(8))
    } else if w == "nine"@ {
        Some(Tok::Unit(9))
    } else if w == "ten"@ {
        Some(Tok::Teen(10))
    } else if w == "eleven"@ {
        Some(Tok::Teen(11))
    } else if w == "twelve"@ {
        Some(Tok::Teen(12))
    } else if w == "thirteen"@ {
        Some(Tok::Teen(13))
    } else if w == "fourteen"@ {
        Some(Tok::Teen(14))
    } else if w == "fifteen"@ {
        Some(Tok::Teen(15))
    } else if w == "sixteen"@ {
        Some(Tok::Teen(16))
    } else if w == "seventeen"@ {
        Some(Tok::Teen(17))
    } else if w == "eighteen"@ {
        Some(Tok::Teen(18))
    } else if w == "nineteen"@ {
        Some(Tok::Teen(19))
    } else if w == "twenty"@ {
        Some(Tok::Ten(20))
    } else if w == "thirty"@ {
        Some(Tok::Ten(30))
    } else if w == "forty"@ {
        Some(Tok::Ten(40))
    } else if w == "fifty"@ {
        Some(Tok::Ten(50))
    } else if w == "sixty"@ {
        Some(Tok::Ten(60))
    } else if w == "seventy"@ {
        Some(Tok::Ten(70))
    } else if w == "eighty"@ {
        Some(Tok::Ten(80))
    } else if w == "ninety"@ {
        Some(Tok::Ten(90))
    } else if w == "hundred"@ {
        Some(Tok::Hundred)
    } else if w == "thousand"@ {
        Some(Tok::Scale(1_000))
    } else if w == "million"@ {
        Some(Tok::Scale(1_000_000))
    } else if w == "billion"@ {
        Some(Tok::Scale(1_000_000_000))
    } else if w == "and"@ {
        Some(Tok::And)
    } else if w == "point"@ {
        Some(Tok::Point)
    } else {
        None
    }
}

/// The values a number word can carry.
pub open spec fn tok_in_range(t: Tok) -> bool {
    match t {
        Tok::Unit(n) => n <= 9,
        Tok::Teen(n) => 10 <= n <= 19,
        Tok::Ten(n) => 20 <= n <= 90,
        Tok::Scale(n) => 1 <= n <= 1_000_000_000,
        _ => true,
    }
}

proof fn lemma_classify_in_range(w: Seq<char>)
    ensures
        spec_classify(w) matches Some(t) ==> tok_in_range(t),
{
}

/// Whether `w` spells out exactly the characters of `lit`.
fn same_word(w: &Vec<char>, lit: &str) -> (b: bool)
    ensures
        b == (w@ == lit@),
{
    let n = lit.unicode_len();
    if w.len() != n {
        return false;
    }
    let mut i: usize = 0;
    while i < n
        invariant
            n == lit@.len(),
            w@.len() == n,
            i <= n,
            forall|j: int| 0 <= j < i ==> w@[j] == lit@[j],
        decreases n - i,
    {
        if w[i] != lit.get_char(i) {
            return false;
        }
        i += 1;
    }
    assert(w@ =~= lit@);
    true
}

/// The number word a lowercased word is, if it is one.
fn classify(w: &Vec<char>) -> (t: Option<Tok>)
    ensures
        t == spec_classify(w@),
{
    if same_word(w, "zero") || same_word(w, "nought") {
        Some(Tok::Unit(0))
    } else if same_word(w, "one") {
        Some(Tok::Unit(1))
    } else if same_word(w, "two") {
        Some(Tok::Unit(2))
    } else if same_word(w, "three") {
        Some(Tok::Unit(3))
    } else if same_word(w, "four") {
        Some(Tok::Unit(4))
    } else if same_word(w, "five") {
        Some(Tok::Unit(5))
    } else if same_word(w, "six") {
        Some(Tok::Unit(6))
    } else if same_word(w, "seven") {
        Some(Tok::Unit(7))
    } else if same_word(w, "eight") {
        Some(Tok::Unit(8))
    } else if same_word(w, "nine") {
        Some(Tok::Unit(9))
    } else if same_word(w, "ten") {
        Some(Tok::Teen(10))
    } else if same_word(w, "eleven") {
        Some(Tok::Teen(11))
    } else if same_word(w, "twelve") {
        Some(Tok::Teen(12))
    } else if same_word(w, "thirteen") {
        Some(Tok::Teen(13))
    } else if same_word(w, "fourteen") {
        Some(Tok::Teen(14))
    } else if same_word(w, "fifteen") {
        Some(Tok::Teen(15))
    } else if same_word(w, "sixteen") {
        Some(Tok::Teen(16))
    } else if same_word(w, "seventeen") {
        Some(Tok::Teen(17))
    } else if same_word(w, "eighteen") {
        Some(Tok::Teen(18))
    } else if same_word(w, "nineteen") {
        Some(Tok::Teen(19))
    } else if same_word(w, "twenty") {
        Some(Tok::Ten(20))
    } else if same_word(w, "thirty") {
        Some(Tok::Ten(30))
    } else if same_word(w, "forty") {
        Some(Tok::Ten(40))
    } else if same_word(w, "fifty") {
        Some(Tok::Ten(50))
    } else if same_word(w, "sixty") {
        Some(Tok::Ten(60))
    } else if same_word(w, "seventy") {
        Some(Tok::Ten(70))
    } else if same_word(w, "eighty") {
        Some(Tok::Ten(80))
    } else if same_word(w, "ninety") {
        Some(Tok::Ten(90))
    } else if same_word(w, "hundred") {
        Some(Tok::Hundred)
    } else if same_word(w, "thousand") {
        Some(Tok::Scale(1_000))
    } else if same_word(w, "million") {
        Some(Tok::Scale(1_000_000))
    } else if same_word(w, "billion") {
        Some(Tok::Scale(1_000_000_000))
    } else if same_word(w, "and") {
        Some(Tok::And)
    } else if same_word(w, "point") {
        Some(Tok::Point)
    } else {
        None
    }
}


/// The words of `t` from position `i` on: maximal runs of alphabetic
/// characters, as `(start, end)` character positions. `start` is where a word
/// already under way at `i` began.
pub open spec fn words_from(t: Seq<char>, i: int, start: Option<int>) -> Seq<(int, int)>
    decreases t.len() - i,
{
    if i >= t.len() {
        match start {
            Some(s) => seq![(s, t.len() as int)],
            None => seq![],
        }
    } else if char_is_alphabetic(t[i]) {
        words_from(t, i + 1, if start is Some { start } else { Some(i) })
    } else {
        match start {
            Some(s) => seq![(s, i)] + words_from(t, i + 1, None),
            None => words_from(t, i + 1, None),
        }
    }
}

/// The words of `t`, so "twenty-three" is two words, the same as "twenty
/// three".
pub open spec fn words(t: Seq<char>) -> Seq<(int, int)> {
    words_from(t, 0, None)
}

/// Word spans lie inside the text, in order, without touching.
pub open spec fn spans_ordered(t: Seq<char>, ws: Seq<(int, int)>, lo: int) -> bool {
    &&& forall|k: int| 0 <= k < ws.len() ==> lo <= #[trigger] ws[k].0 < ws[k].1 <= t.len()
    &&& forall|k: int| 0 <= k < ws.len() - 1 ==> #[trigger] ws[k].1 < ws[k + 1].0
}

proof fn lemma_words_from_ordered(t: Seq<char>, i: int, start: Option<int>)
    requires
        0 <= i <= t.len(),
        start matches Some(s) ==> 0 <= s < i,
    ensures
        spans_ordered(
            t,
            words_from(t, i, start),
            match start {
                Some(s) => s,
                None => i,
            },
        ),
        start is None ==> forall|k: int|
            0 <= k < words_from(t, i, start).len() ==> i <= #[trigger] words_from(t, i, start)[k].0,
    decreases t.len() - i,
{
    if i >= t.len() {
    } else if char_is_alphabetic(t[i]) {
        lemma_words_from_ordered(t, i + 1, if start is Some { start } else { Some(i) });
    } else {
        lemma_words_from_ordered(t, i + 1, None);
        match start {
            Some(s) => {
                let rest = words_from(t, i + 1, None);
                let all = seq![(s, i)] + rest;
                assert forall|k: int| 0 <= k < all.len() - 1 implies #[trigger] all[k].1 < all[k + 1].0 by {
                    if k > 0 {
                        assert(all[k] == rest[k - 1]);
                        assert(all[k + 1] == rest[k]);
                    } else {
                        assert(all[k + 1] == rest[0]);
                    }
                }
                assert forall|k: int| 0 <= k < all.len() implies s <= #[trigger] all[k].0 < all[k].1 <= t.len() by {
                    if k > 0 {
                        assert(all[k] == rest[k - 1]);
                    }
                }
            },
            None => {},
        }
    }
}

/// The spans a vector of positions stands for.
pub open spec fn spans(v: Seq<(usize, usize)>) -> Seq<(int, int)> {
    v.map_values(|p: (usize, usize)| (p.0 as int, p.1 as int))
}

spec fn started(start: Option<usize>) -> Option<int> {
    match start {
        Some(s) => Some(s as int),
        None => None,
    }
}

/// Split into alphabetic words, treating every other character, a hyphen
/// included, as a separator.
fn split_words(t: &Vec<char>) -> (ws: Vec<(usize, usize)>)
    ensures
        spans(ws@) == words(t@),
        spans_ordered(t@, words(t@), 0),
{
    let n = t.len();
    let mut ws: Vec<(usize, usize)> = Vec::new();
    let mut start: Option<usize> = None;
    let mut i: usize = 0;
    while i < n
        invariant
            n == t.len(),
            i <= n,
            start matches Some(s) ==> s < i,
            spans(ws@) + words_from(t@, i as int, started(start)) == words(t@),
        decreases n - i,
    {
        let ghost before = spans(ws@);
        if is_alphabetic(t[i]) {
            if start.is_none() {
                start = Some(i);
            }
        } else {
            match start {
                Some(s) => {
                    ws.push((s, i));
                    assert(spans(ws@) =~= before.push((s as int, i as int)));
                    assert(before + words_from(t@, i as int, Some(s as int)) =~= spans(ws@)
                        + words_from(t@, i + 1, None));
                    start = None;
                },
                None => {},
            }
        }
        i += 1;
    }
    match start {
        Some(s) => {
            let ghost before = spans(ws@);
            ws.push((s, n));
            assert(spans(ws@) =~= before.push((s as int, n as int)));
            assert(before + words_from(t@, n as int, Some(s as int)) =~= spans(ws@));
        },
        None => {
            assert(spans(ws@) + words_from(t@, n as int, None) =~= spans(ws@));
        },
    }
    proof {
        lemma_words_from_ordered(t@, 0, None);
    }
    ws
}


/// What each word of `t` is, read in lowercase.
pub open spec fn word_toks(t: Seq<char>, ws: Seq<(int, int)>) -> Seq<Option<Tok>> {
    Seq::new(ws.len(), |k: int| spec_classify(str_lowercase(t.subrange(ws[k].0, ws[k].1))))
}

/// The characters of `t` from `a` to `b`.
fn slice_chars(t: &Vec<char>, a: usize, b: usize) -> (r: Vec<char>)
    requires
        a <= b <= t.len(),
    ensures
        r@ == t@.subrange(a as int, b as int),
{
    let mut r: Vec<char> = Vec::new();
    let mut i: usize = a;
    while i < b
        invariant
            a <= i <= b <= t.len(),
            r@ == t@.subrange(a as int, i as int),
        decreases b - i,
    {
        r.push(t[i]);
        assert(t@.subrange(a as int, i as int).push(t@[i as int]) =~= t@.subrange(a as int, i + 1));
        i += 1;
    }
    r
}

/// Classify every word, lowercasing it first.
fn classify_words(t: &Vec<char>, ws: &Vec<(usize, usize)>) -> (ts: Vec<Option<Tok>>)
    requires
        spans_ordered(t@, spans(ws@), 0),
    ensures
        ts@ == word_toks(t@, spans(ws@)),
{
    let mut ts: Vec<Option<Tok>> = Vec::new();
    let mut k: usize = 0;
    while k < ws.len()
        invariant
            k <= ws.len(),
            spans_ordered(t@, spans(ws@), 0),
            ts@.len() == k,
            forall|j: int| 0 <= j < k ==> ts@[j] == #[trigger] word_toks(t@, spans(ws@))[j],
        decreases ws.len() - k,
    {
        let (a, b) = ws[k];
        assert(spans(ws@)[k as int] == (a as int, b as int));
        let word = slice_chars(t, a, b);
        let as_string = string_from_chars(&word);
        let lower = lowercase(as_string.as_str());
        let lower_chars = chars_of(lower.as_str());
        ts.push(classify(&lower_chars));
        k += 1;
    }
    assert(ts@ =~= word_toks(t@, spans(ws@)));
    ts
}

/// A run can begin only at a number word that is not a connector.
pub open spec fn starts_run(o: Option<Tok>) -> bool {
    o matches Some(t) && t != Tok::And && t != Tok::Point
}

/// `and` and `point` join the words around them but never end a number.
pub open spec fn is_connector(o: Option<Tok>) -> bool {
    o == Some(Tok::And) || o == Some(Tok::Point)
}

/// Only whitespace and hyphens may sit between two words of the same number.
/// A comma or a full stop ends the run, so "twenty, six" stays two numbers.
pub open spec fn spec_joined(gap: Seq<char>) -> bool {
    gap.len() > 0 && forall|k: int| 0 <= k < gap.len() ==> is_space(#[trigger] gap[k]) || gap[k] == '-'
}

/// Word `end` is a number word that continues the run ending at word
/// `end - 1`.
pub open spec fn links(t: Seq<char>, ws: Seq<(int, int)>, ts: Seq<Option<Tok>>, end: int) -> bool {
    &&& 0 < end < ws.len()
    &&& ts[end] is Some
    &&& ws[end - 1].1 <= ws[end].0
    &&& spec_joined(t.subrange(ws[end - 1].1, ws[end].0))
}

/// How far a run reaching word `end - 1` extends.
pub open spec fn extend(t: Seq<char>, ws: Seq<(int, int)>, ts: Seq<Option<Tok>>, end: int) -> int
    decreases ws.len() - end,
{
    if links(t, ws, ts, end) {
        extend(t, ws, ts, end + 1)
    } else {
        end
    }
}

/// A run's end after dropping trailing connectors: "twenty three and" is a
/// two-word number.
pub open spec fn drop_connectors(ts: Seq<Option<Tok>>, i: int, end: int) -> int
    decreases end - i,
{
    if end > i + 1 && is_connector(ts[end - 1]) {
        drop_connectors(ts, i, end - 1)
    } else {
        end
    }
}

/// One past the last word of the run of number words starting at word `i`.
pub open spec fn run_end(t: Seq<char>, ws: Seq<(int, int)>, ts: Seq<Option<Tok>>, i: int) -> int {
    drop_connectors(ts, i, extend(t, ws, ts, i + 1))
}

proof fn lemma_extend(t: Seq<char>, ws: Seq<(int, int)>, ts: Seq<Option<Tok>>, end: int)
    requires
        1 <= end <= ws.len(),
    ensures
        end <= extend(t, ws, ts, end) <= ws.len(),
        forall|k: int| end <= k < extend(t, ws, ts, end) ==> (#[trigger] ts[k]) is Some,
    decreases ws.len() - end,
{
    if links(t, ws, ts, end) {
        lemma_extend(t, ws, ts, end + 1);
    }
}

proof fn lemma_drop_connectors(ts: Seq<Option<Tok>>, i: int, end: int)
    requires
        i + 1 <= end,
    ensures
        i + 1 <= drop_connectors(ts, i, end) <= end,
    decreases end - i,
{
    if end > i + 1 && is_connector(ts[end - 1]) {
        lemma_drop_connectors(ts, i, end - 1);
    }
}

/// A run is at least one word long, stays inside the word list, and holds
/// only number words.
pub proof fn lemma_run_end(t: Seq<char>, ws: Seq<(int, int)>, ts: Seq<Option<Tok>>, i: int)
    requires
        0 <= i < ws.len(),
        ts.len() == ws.len(),
        starts_run(ts[i]),
    ensures
        i + 1 <= run_end(t, ws, ts, i) <= ws.len(),
        forall|k: int| i <= k < run_end(t, ws, ts, i) ==> (#[trigger] ts[k]) is Some,
{
    lemma_extend(t, ws, ts, i + 1);
    lemma_drop_connectors(ts, i, extend(t, ws, ts, i + 1));
}

/// Whether every character of `t` from `a` to `b` is whitespace or a hyphen.
fn joined(t: &Vec<char>, a: usize, b: usize) -> (r: bool)
    requires
        a <= b <= t.len(),
    ensures
        r == spec_joined(t@.subrange(a as int, b as int)),
{
    if a == b {
        return false;
    }
    let mut k: usize = a;
    while k < b
        invariant
            a <= k <= b <= t.len(),
            forall|j: int| a <= j < k ==> is_space(#[trigger] t@[j]) || t@[j] == '-',
        decreases b - k,
    {
        if !(is_whitespace(t[k]) || t[k] == '-') {
            assert(!(is_space(t@.subrange(a as int, b as int)[k - a]) || t@.subrange(a as int, b as int)[k - a] == '-'));
            return false;
        }
        k += 1;
    }
    assert forall|j: int| 0 <= j < b - a implies is_space(#[trigger] t@.subrange(a as int, b as int)[j])
        || t@.subrange(a as int, b as int)[j] == '-' by {
        assert(t@.subrange(a as int, b as int)[j] == t@[j + a]);
    }
    true
}

fn is_connector_tok(o: Option<Tok>) -> (b: bool)
    ensures
        b == is_connector(o),
{
    match o {
        Some(Tok::And) | Some(Tok::Point) => true,
        _ => false,
    }
}

/// Find the run of number words starting at word `i`: one past its last word.
fn run_at(t: &Vec<char>, ws: &Vec<(usize, usize)>, ts: &Vec<Option<Tok>>, i: usize) -> (end: usize)
    requires
        spans_ordered(t@, spans(ws@), 0),
        ts@.len() == ws@.len(),
        i < ws@.len(),
        starts_run(ts@[i as int]),
    ensures
        end == run_end(t@, spans(ws@), ts@, i as int),
{
    let ghost sw = spans(ws@);
    let n = ws.len();
    let mut end: usize = i + 1;
    while end < n
        invariant
            n == ws@.len(),
            spans_ordered(t@, sw, 0),
            sw == spans(ws@),
            ts@.len() == ws@.len(),
            i + 1 <= end <= ws@.len(),
            extend(t@, sw, ts@, i + 1) == extend(t@, sw, ts@, end as int),
        ensures
            i + 1 <= end <= ws@.len(),
            extend(t@, sw, ts@, i + 1) == extend(t@, sw, ts@, end as int),
            !links(t@, sw, ts@, end as int),
        decreases n - end,
    {
        if ts[end].is_none() {
            break;
        }
        let gap_start = ws[end - 1].1;
        let gap_end = ws[end].0;
        assert(sw[end - 1].1 == gap_start && sw[end as int].0 == gap_end);
        if gap_start > gap_end || !joined(t, gap_start, gap_end) {
            break;
        }
        end += 1;
    }
    let ghost extended = end;
    assert(extend(t@, sw, ts@, end as int) == end);
    while end > i + 1 && is_connector_tok(ts[end - 1])
        invariant
            i + 1 <= end <= extended,
            extended <= ts@.len(),
            drop_connectors(ts@, i as int, extended as int) == drop_connectors(ts@, i as int, end as int),
        decreases end,
    {
        end -= 1;
    }
    end
}


/// The number words of the run from word `i` to word `end`.
pub open spec fn run_toks(ts: Seq<Option<Tok>>, i: int, end: int) -> Seq<Tok> {
    Seq::new((end - i) as nat, |k: int| ts[i + k]->0)
}

/// Whether a run mentions `hundred` or a larger scale word.
pub open spec fn has_scale(toks: Seq<Tok>) -> bool {
    exists|k: int| 0 <= k < toks.len() && (#[trigger] toks[k] == Tok::Hundred || toks[k] is Scale)
}

/// One word's effect on the two-digit groups a speaker says: a tens word
/// opens a group, a unit completes an open group or stands alone, and a teen
/// stands alone.
pub open spec fn chunk_step(acc: (Seq<int>, bool), t: Tok) -> (Seq<int>, bool) {
    match t {
        Tok::Ten(n) => (acc.0.push(n as int), true),
        Tok::Unit(n) => if acc.1 {
            (acc.0.update(acc.0.len() - 1, acc.0.last() + n), false)
        } else {
            (acc.0.push(n as int), false)
        },
        Tok::Teen(n) => (acc.0.push(n as int), false),
        _ => acc,
    }
}

/// The groups of a scale-free run, and whether the last one still awaits
/// its unit.
pub open spec fn chunks_of(toks: Seq<Tok>) -> (Seq<int>, bool)
    decreases toks.len(),
{
    if toks.len() == 0 {
        (seq![], false)
    } else {
        chunk_step(chunks_of(toks.drop_last()), toks.last())
    }
}

/// Break a scale-free run into the two-digit groups a speaker actually says.
pub open spec fn chunks(toks: Seq<Tok>) -> Seq<int> {
    chunks_of(toks).0
}

pub open spec fn sum(cs: Seq<int>) -> int
    decreases cs.len(),
{
    if cs.len() == 0 {
        0
    } else {
        sum(cs.drop_last()) + cs.last()
    }
}

/// Every word is a single digit or `and`.
pub open spec fn digits_only(toks: Seq<Tok>) -> bool {
    forall|k: int| 0 <= k < toks.len() ==> (#[trigger] toks[k]) is Unit || toks[k] == Tok::And
}

/// Each group written out and the results placed side by side.
pub open spec fn concat_decimals(cs: Seq<int>) -> Seq<char>
    decreases cs.len(),
{
    if cs.len() == 0 {
        seq![]
    } else {
        concat_decimals(cs.drop_last()) + decimal(cs.last() as nat)
    }
}

/// Two two-digit groups, read together as a year.
pub open spec fn is_pair(cs: Seq<int>) -> bool {
    cs.len() == 2 && 10 <= cs[0] <= 99 && 10 <= cs[1] <= 99
}

pub open spec fn at_least_one(x: int) -> int {
    if x >= 1 {
        x
    } else {
        1
    }
}

/// One word's effect on the scaled reading's running total and current
/// group.
pub open spec fn scale_step(acc: (int, int), t: Tok) -> (int, int) {
    match t {
        Tok::Unit(n) => (acc.0, acc.1 + n),
        Tok::Teen(n) => (acc.0, acc.1 + n),
        Tok::Ten(n) => (acc.0, acc.1 + n),
        Tok::Hundred => (acc.0, at_least_one(acc.1) * 100),
        Tok::Scale(s) => (acc.0 + at_least_one(acc.1) * s, 0),
        _ => acc,
    }
}

pub open spec fn scaled(toks: Seq<Tok>) -> (int, int)
    decreases toks.len(),
{
    if toks.len() == 0 {
        (0, 0)
    } else {
        scale_step(scaled(toks.drop_last()), toks.last())
    }
}

/// The scaled reading: "one hundred and three" is 103.
pub open spec fn scaled_value(toks: Seq<Tok>) -> int {
    scaled(toks).0 + scaled(toks).1
}

/// A run without a decimal point, written in digits.
pub open spec fn spec_read_value(toks: Seq<Tok>) -> Seq<char> {
    if has_scale(toks) {
        decimal(scaled_value(toks) as nat)
    } else if chunks(toks).len() >= 3 && digits_only(toks) {
        concat_decimals(chunks(toks))
    } else if is_pair(chunks(toks)) {
        decimal((chunks(toks)[0] * 100 + chunks(toks)[1]) as nat)
    } else {
        decimal(sum(chunks(toks)) as nat)
    }
}

/// The arithmetic of `spec_read_value` stays within `u64`.
pub open spec fn value_fits(toks: Seq<Tok>) -> bool {
    if has_scale(toks) {
        scaled_value(toks) <= u64::MAX
    } else if chunks(toks).len() >= 3 && digits_only(toks) {
        true
    } else if is_pair(chunks(toks)) {
        true
    } else {
        sum(chunks(toks)) <= u64::MAX
    }
}

/// The position of the first `point` at or after `k`, or -1.
pub open spec fn point_from(toks: Seq<Tok>, k: int) -> int
    decreases toks.len() - k,
{
    if k >= toks.len() {
        -1
    } else if toks[k] == Tok::Point {
        k
    } else {
        point_from(toks, k + 1)
    }
}

/// The digits after a decimal point: each unit written out, anything else
/// skipped.
pub open spec fn unit_digits(toks: Seq<Tok>) -> Seq<char>
    decreases toks.len(),
{
    if toks.len() == 0 {
        seq![]
    } else {
        unit_digits(toks.drop_last()) + match toks.last() {
            Tok::Unit(n) => decimal(n as nat),
            _ => seq![],
        }
    }
}

/// What a run reads as. Everything after `point` is read digit by digit:
/// "three point one four" is 3.14.
pub open spec fn spec_read(toks: Seq<Tok>) -> Seq<char> {
    let p = point_from(toks, 0);
    if p >= 0 {
        let whole = spec_read_value(toks.take(p));
        let frac = unit_digits(toks.skip(p + 1));
        if frac.len() == 0 {
            whole
        } else {
            whole + seq!['.'] + frac
        }
    } else {
        spec_read_value(toks)
    }
}

/// The reading of a run stays within `u64`.
pub open spec fn read_fits(toks: Seq<Tok>) -> bool {
    let p = point_from(toks, 0);
    if p >= 0 {
        value_fits(toks.take(p))
    } else {
        value_fits(toks)
    }
}


pub open spec fn ints(v: Seq<u64>) -> Seq<int> {
    v.map_values(|x: u64| x as int)
}

pub open spec fn all_in_range(toks: Seq<Tok>) -> bool {
    forall|k: int| 0 <= k < toks.len() ==> tok_in_range(#[trigger] toks[k])
}

proof fn lemma_sum_take(cs: Seq<int>, k: int)
    requires
        0 <= k <= cs.len(),
        forall|j: int| 0 <= j < cs.len() ==> 0 <= #[trigger] cs[j],
    ensures
        0 <= sum(cs.take(k)) <= sum(cs),
    decreases cs.len(),
{
    if k == cs.len() {
        assert(cs.take(k) =~= cs);
        lemma_sum_nonneg(cs);
    } else {
        let d = cs.drop_last();
        assert forall|j: int| 0 <= j < d.len() implies 0 <= #[trigger] d[j] by {
            assert(d[j] == cs[j]);
        }
        lemma_sum_take(d, k);
        assert(d.take(k) =~= cs.take(k));
    }
}

proof fn lemma_sum_nonneg(cs: Seq<int>)
    requires
        forall|j: int| 0 <= j < cs.len() ==> 0 <= #[trigger] cs[j],
    ensures
        0 <= sum(cs),
    decreases cs.len(),
{
    if cs.len() > 0 {
        let d = cs.drop_last();
        assert forall|j: int| 0 <= j < d.len() implies 0 <= #[trigger] d[j] by {
            assert(d[j] == cs[j]);
        }
        lemma_sum_nonneg(d);
    }
}

/// Break a scale-free run into groups.
fn chunk(toks: &Vec<Tok>) -> (cs: Vec<u64>)
    requires
        all_in_range(toks@),
    ensures
        ints(cs@) == chunks(toks@),
        forall|j: int| 0 <= j < cs@.len() ==> #[trigger] cs@[j] <= 99,
{
    let mut cs: Vec<u64> = Vec::new();
    let mut open_tens = false;
    let n = toks.len();
    let mut k: usize = 0;
    while k < n
        invariant
            n == toks@.len(),
            k <= n,
            all_in_range(toks@),
            ints(cs@) == chunks_of(toks@.take(k as int)).0,
            open_tens == chunks_of(toks@.take(k as int)).1,
            open_tens ==> cs@.len() > 0 && cs@.last() <= 90,
            forall|j: int| 0 <= j < cs@.len() ==> #[trigger] cs@[j] <= 99,
        decreases n - k,
    {
        let ghost before = cs@;
        let tok = toks[k];
        assert(tok_in_range(toks@[k as int]));
        assert(toks@.take(k + 1).drop_last() =~= toks@.take(k as int));
        assert(toks@.take(k + 1).last() == tok);
        match tok {
            Tok::Ten(v) => {
                cs.push(v);
                open_tens = true;
                assert(ints(cs@) =~= ints(before).push(v as int));
            },
            Tok::Unit(v) => {
                if open_tens {
                    let last = cs.len() - 1;
                    let grown = cs[last] + v;
                    cs.set(last, grown);
                    assert(ints(cs@) =~= ints(before).update(last as int, ints(before).last() + v));
                    open_tens = false;
                } else {
                    cs.push(v);
                    assert(ints(cs@) =~= ints(before).push(v as int));
                }
            },
            Tok::Teen(v) => {
                cs.push(v);
                open_tens = false;
                assert(ints(cs@) =~= ints(before).push(v as int));
            },
            _ => {},
        }
        k += 1;
    }
    assert(toks@.take(n as int) =~= toks@);
    cs
}

/// The groups added up, or nothing when the total leaves `u64`.
fn sum_checked(cs: &Vec<u64>) -> (r: Option<u64>)
    ensures
        r is Some <==> sum(ints(cs@)) <= u64::MAX,
        r matches Some(v) ==> v == sum(ints(cs@)),
{
    let ghost all = ints(cs@);
    assert forall|j: int| 0 <= j < all.len() implies 0 <= #[trigger] all[j] by {}
    let mut total: u64 = 0;
    let n = cs.len();
    let mut k: usize = 0;
    while k < n
        invariant
            n == cs@.len(),
            all == ints(cs@),
            forall|j: int| 0 <= j < all.len() ==> 0 <= #[trigger] all[j],
            k <= n,
            total == sum(all.take(k as int)),
        decreases n - k,
    {
        assert(all.take(k + 1).drop_last() =~= all.take(k as int));
        match total.checked_add(cs[k]) {
            Some(t) => {
                total = t;
            },
            None => {
                proof {
                    lemma_sum_take(all, k + 1);
                }
                return None;
            },
        }
        k += 1;
    }
    assert(all.take(n as int) =~= all);
    Some(total)
}

proof fn lemma_scaled_nonneg(toks: Seq<Tok>)
    requires
        all_in_range(toks),
    ensures
        0 <= scaled(toks).0,
        0 <= scaled(toks).1,
    decreases toks.len(),
{
    if toks.len() > 0 {
        let d = toks.drop_last();
        assert forall|k: int| 0 <= k < d.len() implies tok_in_range(#[trigger] d[k]) by {
            assert(d[k] == toks[k]);
        }
        lemma_scaled_nonneg(d);
        assert(tok_in_range(toks[toks.len() - 1]));
        let acc = scaled(d);
        match toks.last() {
            Tok::Hundred => {
                assert(at_least_one(acc.1) * 100 >= 0) by (nonlinear_arith)
                    requires
                        at_least_one(acc.1) >= 1,
                ;
            },
            Tok::Scale(s) => {
                assert(at_least_one(acc.1) * s >= 0) by (nonlinear_arith)
                    requires
                        at_least_one(acc.1) >= 1,
                        s >= 1,
                ;
            },
            _ => {},
        }
    }
}

/// The scaled reading never shrinks as words are added.
proof fn lemma_scaled_grows(toks: Seq<Tok>, k: int)
    requires
        all_in_range(toks),
        0 <= k <= toks.len(),
    ensures
        scaled_value(toks.take(k)) <= scaled_value(toks),
    decreases toks.len(),
{
    if k == toks.len() {
        assert(toks.take(k) =~= toks);
    } else {
        let d = toks.drop_last();
        assert forall|j: int| 0 <= j < d.len() implies tok_in_range(#[trigger] d[j]) by {
            assert(d[j] == toks[j]);
        }
        lemma_scaled_grows(d, k);
        assert(d.take(k) =~= toks.take(k));
        lemma_scaled_nonneg(d);
        assert(tok_in_range(toks[toks.len() - 1]));
        let acc = scaled(d);
        match toks.last() {
            Tok::Hundred => {
                assert(at_least_one(acc.1) * 100 >= acc.1) by (nonlinear_arith)
                    requires
                        at_least_one(acc.1) >= 1,
                        at_least_one(acc.1) >= acc.1,
                ;
            },
            Tok::Scale(s) => {
                assert(at_least_one(acc.1) * s >= acc.1) by (nonlinear_arith)
                    requires
                        at_least_one(acc.1) >= 1,
                        at_least_one(acc.1) >= acc.1,
                        s >= 1,
                ;
            },
            _ => {},
        }
    }
}

/// The scaled reading, or nothing when its arithmetic leaves `u64`.
fn scaled_checked(toks: &Vec<Tok>) -> (r: Option<u64>)
    requires
        all_in_range(toks@),
    ensures
        r is Some <==> scaled_value(toks@) <= u64::MAX,
        r matches Some(v) ==> v == scaled_value(toks@),
{
    let mut total: u64 = 0;
    let mut current: u64 = 0;
    let n = toks.len();
    let mut k: usize = 0;
    while k < n
        invariant
            n == toks@.len(),
            k <= n,
            all_in_range(toks@),
            (total as int, current as int) == scaled(toks@.take(k as int)),
        decreases n - k,
    {
        let ghost next = toks@.take(k + 1);
        assert(next.drop_last() =~= toks@.take(k as int));
        assert(next.last() == toks@[k as int]);
        assert(tok_in_range(toks@[k as int]));
        proof {
            assert(all_in_range(next));
            lemma_scaled_nonneg(next);
            lemma_scaled_grows(toks@, k + 1);
        }
        match toks[k] {
            Tok::Unit(v) | Tok::Teen(v) | Tok::Ten(v) => {
                match current.checked_add(v) {
                    Some(c) => {
                        current = c;
                    },
                    None => {
                        return None;
                    },
                }
            },
            Tok::Hundred => {
                let base = if current >= 1 {
                    current
                } else {
                    1
                };
                match base.checked_mul(100) {
                    Some(c) => {
                        current = c;
                    },
                    None => {
                        return None;
                    },
                }
            },
            Tok::Scale(s) => {
                let base = if current >= 1 {
                    current
                } else {
                    1
                };
                match base.checked_mul(s) {
                    Some(add) => {
                        match total.checked_add(add) {
                            Some(t) => {
                                total = t;
                                current = 0;
                            },
                            None => {
                                return None;
                            },
                        }
                    },
                    None => {
                        proof {
                            assert(total + base * s >= base * s);
                        }
                        return None;
                    },
                }
            },
            _ => {},
        }
        k += 1;
    }
    assert(toks@.take(n as int) =~= toks@);
    total.checked_add(current)
}

fn has_scale_exec(toks: &Vec<Tok>) -> (b: bool)
    ensures
        b == has_scale(toks@),
{
    let n = toks.len();
    let mut k: usize = 0;
    while k < n
        invariant
            n == toks@.len(),
            k <= n,
            forall|j: int| 0 <= j < k ==> !(#[trigger] toks@[j] == Tok::Hundred || toks@[j] is Scale),
        decreases n - k,
    {
        match toks[k] {
            Tok::Hundred | Tok::Scale(_) => {
                return true;
            },
            _ => {},
        }
        k += 1;
    }
    false
}

fn digits_only_exec(toks: &Vec<Tok>) -> (b: bool)
    ensures
        b == digits_only(toks@),
{
    let n = toks.len();
    let mut k: usize = 0;
    while k < n
        invariant
            n == toks@.len(),
            k <= n,
            forall|j: int| 0 <= j < k ==> (#[trigger] toks@[j]) is Unit || toks@[j] == Tok::And,
        decreases n - k,
    {
        match toks[k] {
            Tok::Unit(_) | Tok::And => {},
            _ => {
                return false;
            },
        }
        k += 1;
    }
    true
}


/// A scale-free or scaled run without a decimal point, in digits, or nothing
/// when its arithmetic leaves `u64`.
fn read_value(toks: &Vec<Tok>) -> (r: Option<Vec<char>>)
    requires
        all_in_range(toks@),
    ensures
        r is Some <==> value_fits(toks@),
        r matches Some(v) ==> v@ == spec_read_value(toks@),
{
    let mut out: Vec<char> = Vec::new();
    if has_scale_exec(toks) {
        match scaled_checked(toks) {
            Some(v) => {
                push_decimal(&mut out, v);
                assert(out@ =~= decimal(scaled_value(toks@) as nat));
                return Some(out);
            },
            None => {
                return None;
            },
        }
    }
    let cs = chunk(toks);
    let ghost ci = ints(cs@);
    assert(ci.len() == cs@.len());
    if cs.len() >= 3 && digits_only_exec(toks) {
        let mut k: usize = 0;
        while k < cs.len()
            invariant
                ci == ints(cs@),
                k <= cs@.len(),
                out@ == concat_decimals(ci.take(k as int)),
            decreases cs.len() - k,
        {
            assert(ci.take(k + 1).drop_last() =~= ci.take(k as int));
            push_decimal(&mut out, cs[k]);
            k += 1;
        }
        assert(ci.take(cs@.len() as int) =~= ci);
        return Some(out);
    }
    if cs.len() == 2 && 10 <= cs[0] && cs[0] <= 99 && 10 <= cs[1] && cs[1] <= 99 {
        push_decimal(&mut out, cs[0] * 100 + cs[1]);
        assert(out@ =~= decimal((ci[0] * 100 + ci[1]) as nat));
        return Some(out);
    }
    match sum_checked(&cs) {
        Some(v) => {
            push_decimal(&mut out, v);
            assert(out@ =~= decimal(sum(ci) as nat));
            Some(out)
        },
        None => None,
    }
}

/// The first `point` in `toks`, if any.
fn find_point(toks: &Vec<Tok>) -> (p: Option<usize>)
    ensures
        p matches Some(i) ==> i == point_from(toks@, 0) && i < toks@.len(),
        p is None ==> point_from(toks@, 0) == -1,
{
    let n = toks.len();
    let mut k: usize = 0;
    while k < n
        invariant
            n == toks@.len(),
            k <= n,
            point_from(toks@, 0) == point_from(toks@, k as int),
        decreases n - k,
    {
        if let Tok::Point = toks[k] {
            return Some(k);
        }
        k += 1;
    }
    None
}

/// What the run of number words reads as, or nothing when its arithmetic
/// leaves `u64`.
fn read(toks: &Vec<Tok>) -> (r: Option<Vec<char>>)
    requires
        all_in_range(toks@),
    ensures
        r is Some <==> read_fits(toks@),
        r matches Some(v) ==> v@ == spec_read(toks@),
{
    match find_point(toks) {
        None => read_value(toks),
        Some(p) => {
            let mut whole_toks: Vec<Tok> = Vec::new();
            let mut k: usize = 0;
            while k < p
                invariant
                    p < toks@.len(),
                    k <= p,
                    whole_toks@ == toks@.take(k as int),
                decreases p - k,
            {
                whole_toks.push(toks[k]);
                assert(toks@.take(k as int).push(toks@[k as int]) =~= toks@.take(k + 1));
                k += 1;
            }
            assert(all_in_range(whole_toks@));
            let whole = match read_value(&whole_toks) {
                Some(w) => w,
                None => {
                    return None;
                },
            };
            let n = toks.len();
            let ghost rest = toks@.skip(p + 1);
            let mut frac: Vec<char> = Vec::new();
            let mut j: usize = p + 1;
            while j < n
                invariant
                    n == toks@.len(),
                    p < toks@.len(),
                    p + 1 <= j <= toks@.len(),
                    rest == toks@.skip(p + 1),
                    frac@ == unit_digits(rest.take(j - (p + 1))),
                decreases n - j,
            {
                let ghost m = j - (p + 1);
                assert(rest.take(m + 1).drop_last() =~= rest.take(m));
                assert(rest.take(m + 1).last() == toks@[j as int]);
                if let Tok::Unit(v) = toks[j] {
                    push_decimal(&mut frac, v);
                }
                j += 1;
            }
            assert(rest.take(rest.len() as int) =~= rest);
            if frac.len() == 0 {
                Some(whole)
            } else {
                let mut out = whole;
                out.push('.');
                let ghost with_point = out@;
                let mut i: usize = 0;
                while i < frac.len()
                    invariant
                        i <= frac@.len(),
                        out@ == with_point + frac@.take(i as int),
                    decreases frac.len() - i,
                {
                    out.push(frac[i]);
                    assert(frac@.take(i as int).push(frac@[i as int]) =~= frac@.take(i + 1));
                    i += 1;
                }
                assert(frac@.take(frac@.len() as int) =~= frac@);
                Some(out)
            }
        },
    }
}


/// The text from word `i` on, with every run of number words that is not a
/// lone digit word rewritten; `cursor` is where the text not yet copied
/// begins.
#[verifier::opaque]
pub open spec fn rewrite_from(t: Seq<char>, i: nat, cursor: int) -> Seq<char>
    decreases words(t).len() - i,
{
    let ws = words(t);
    let ts = word_toks(t, ws);
    if i >= ws.len() {
        t.subrange(cursor, t.len() as int)
    } else if starts_run(ts[i as int]) {
        let end = run_end(t, ws, ts, i as int);
        proof {
            lemma_run_end(t, ws, ts, i as int);
        }
        if end == i + 1 && ts[i as int] matches Some(Tok::Unit(_)) {
            rewrite_from(t, end as nat, cursor)
        } else {
            t.subrange(cursor, ws[i as int].0) + spec_read(run_toks(ts, i as int, end))
                + rewrite_from(t, end as nat, ws[end - 1].1)
        }
    } else {
        rewrite_from(t, i + 1, cursor)
    }
}

/// Whether every run of number words from word `i` on reads within `u64`.
#[verifier::opaque]
pub open spec fn fits_from(t: Seq<char>, i: nat) -> bool
    decreases words(t).len() - i,
{
    let ws = words(t);
    let ts = word_toks(t, ws);
    if i >= ws.len() {
        true
    } else if starts_run(ts[i as int]) {
        let end = run_end(t, ws, ts, i as int);
        proof {
            lemma_run_end(t, ws, ts, i as int);
        }
        read_fits(run_toks(ts, i as int, end)) && fits_from(t, end as nat)
    } else {
        fits_from(t, i + 1)
    }
}

/// `t` with every run of spoken number words rewritten as digits, except a
/// lone word below ten.
pub open spec fn spec_to_digits(t: Seq<char>) -> Seq<char> {
    rewrite_from(t, 0, 0)
}

/// The arithmetic behind every number in `t` stays within `u64`.
pub open spec fn digits_fit(t: Seq<char>) -> bool {
    fits_from(t, 0)
}

fn starts_run_exec(o: Option<Tok>) -> (b: bool)
    ensures
        b == starts_run(o),
{
    match o {
        Some(Tok::And) | Some(Tok::Point) | None => false,
        _ => true,
    }
}

/// Append the characters of `t` from `a` to `b` to `out`.
fn push_slice(out: &mut Vec<char>, t: &Vec<char>, a: usize, b: usize)
    requires
        a <= b <= t@.len(),
    ensures
        final(out)@ == old(out)@ + t@.subrange(a as int, b as int),
{
    let ghost start = out@;
    let mut k: usize = a;
    while k < b
        invariant
            a <= k <= b <= t@.len(),
            out@ == start + t@.subrange(a as int, k as int),
        decreases b - k,
    {
        out.push(t[k]);
        assert(start + t@.subrange(a as int, k + 1) =~= start + t@.subrange(a as int, k as int) + seq![t@[k as int]]);
        k += 1;
    }
}

proof fn lemma_word_toks_in_range(t: Seq<char>, ws: Seq<(int, int)>, k: int)
    requires
        0 <= k < ws.len(),
    ensures
        word_toks(t, ws)[k] matches Some(tok) ==> tok_in_range(tok),
{
    lemma_classify_in_range(str_lowercase(t.subrange(ws[k].0, ws[k].1)));
}

proof fn lemma_rewrite_skip(t: Seq<char>, i: nat, cursor: int)
    requires
        i < words(t).len(),
        !starts_run(word_toks(t, words(t))[i as int]),
    ensures
        rewrite_from(t, i, cursor) == rewrite_from(t, i + 1, cursor),
        fits_from(t, i) == fits_from(t, i + 1),
{
    reveal(rewrite_from);
    reveal(fits_from);
}

proof fn lemma_rewrite_run(t: Seq<char>, i: nat, cursor: int)
    requires
        i < words(t).len(),
        starts_run(word_toks(t, words(t))[i as int]),
    ensures
        ({
            let ws = words(t);
            let ts = word_toks(t, ws);
            let end = run_end(t, ws, ts, i as int);
            &&& fits_from(t, i) == (read_fits(run_toks(ts, i as int, end)) && fits_from(t, end as nat))
            &&& (end == i + 1 && ts[i as int] matches Some(Tok::Unit(_))) ==> rewrite_from(t, i, cursor)
                == rewrite_from(t, end as nat, cursor)
            &&& !(end == i + 1 && ts[i as int] matches Some(Tok::Unit(_))) ==> rewrite_from(t, i, cursor)
                == t.subrange(cursor, ws[i as int].0) + spec_read(run_toks(ts, i as int, end))
                + rewrite_from(t, end as nat, ws[end - 1].1)
        }),
{
    reveal(rewrite_from);
    reveal(fits_from);
}

proof fn lemma_rewrite_done(t: Seq<char>, i: nat, cursor: int)
    requires
        i >= words(t).len(),
    ensures
        rewrite_from(t, i, cursor) == t.subrange(cursor, t.len() as int),
        fits_from(t, i),
{
    reveal(rewrite_from);
    reveal(fits_from);
}

/// The number words of the run from word `i` to word `end`.
fn collect_run(t: &Vec<char>, ws: &Vec<(usize, usize)>, ts: &Vec<Option<Tok>>, i: usize, end: usize) -> (toks: Vec<Tok>)
    requires
        ts@ == word_toks(t@, spans(ws@)),
        i <= end <= ts@.len(),
        forall|j: int| i <= j < end ==> (#[trigger] ts@[j]) is Some,
    ensures
        toks@ == run_toks(ts@, i as int, end as int),
        all_in_range(toks@),
{
    let ghost sw = spans(ws@);
    let mut toks: Vec<Tok> = Vec::new();
    let mut k: usize = i;
    while k < end
        invariant
            i <= k <= end <= ts@.len(),
            forall|j: int| i <= j < end ==> (#[trigger] ts@[j]) is Some,
            toks@ == run_toks(ts@, i as int, k as int),
            ts@ == word_toks(t@, sw),
            ts@.len() == sw.len(),
            all_in_range(toks@),
        decreases end - k,
    {
        match ts[k] {
            Some(tok) => {
                proof {
                    lemma_word_toks_in_range(t@, sw, k as int);
                }
                toks.push(tok);
            },
            None => {},
        }
        assert(toks@ =~= run_toks(ts@, i as int, k + 1));
        k += 1;
    }
    toks
}

/// Append all of `value` to `out`.
fn push_all(out: &mut Vec<char>, value: &Vec<char>)
    ensures
        final(out)@ == old(out)@ + value@,
{
    let ghost start = out@;
    let mut v: usize = 0;
    while v < value.len()
        invariant
            v <= value@.len(),
            out@ == start + value@.take(v as int),
        decreases value.len() - v,
    {
        out.push(value[v]);
        assert(value@.take(v as int).push(value@[v as int]) =~= value@.take(v + 1));
        v += 1;
    }
    assert(value@.take(value@.len() as int) =~= value@);
}

/// Rewrite every run of spoken number words in `text` as digits, or say that
/// one of them reads outside `u64`.
pub fn to_digits_checked(text: &str) -> (r: Option<String>)
    ensures
        r is Some <==> digits_fit(text@),
        r matches Some(s) ==> s@ == spec_to_digits(text@),
{
    let t = chars_of(text);
    let ws = split_words(&t);
    let ts = classify_words(&t, &ws);
    let ghost sw = spans(ws@);
    assert(sw.len() == ws@.len());
    let n = ws.len();
    let mut out: Vec<char> = Vec::new();
    let mut cursor: usize = 0;
    let mut i: usize = 0;
    while i < n
        invariant
            n == ws@.len(),
            t@ == text@,
            sw == spans(ws@),
            sw == words(t@),
            spans_ordered(t@, sw, 0),
            ts@ == word_toks(t@, sw),
            i <= n,
            cursor <= t@.len(),
            i < n ==> cursor <= sw[i as int].0,
            out@ + rewrite_from(t@, i as nat, cursor as int) == spec_to_digits(t@),
            fits_from(t@, i as nat) == digits_fit(t@),
        decreases n - i,
    {
        assert(sw[i as int] == (ws@[i as int].0 as int, ws@[i as int].1 as int));
        if !starts_run_exec(ts[i]) {
            proof {
                lemma_rewrite_skip(t@, i as nat, cursor as int);
            }
            if i + 1 < n {
                assert(sw[i as int].1 < sw[i + 1].0);
            }
            i += 1;
            continue;
        }
        let end = run_at(&t, &ws, &ts, i);
        proof {
            lemma_run_end(t@, sw, ts@, i as int);
            lemma_rewrite_run(t@, i as nat, cursor as int);
        }
        let toks = collect_run(&t, &ws, &ts, i, end);
        let value = match read(&toks) {
            Some(v) => v,
            None => {
                return None;
            },
        };
        let single_small = end == i + 1 && match ts[i] {
            Some(Tok::Unit(_)) => true,
            _ => false,
        };
        if end < n {
            assert(sw[end - 1].1 < sw[end as int].0);
        }
        if single_small {
            i = end;
            continue;
        }
        let start = ws[i].0;
        let last_end = ws[end - 1].1;
        assert(sw[end - 1] == (ws@[end - 1].0 as int, ws@[end - 1].1 as int));
        let ghost before = out@;
        push_slice(&mut out, &t, cursor, start);
        push_all(&mut out, &value);
        assert(out@ + rewrite_from(t@, end as nat, last_end as int) =~= before + rewrite_from(
            t@,
            i as nat,
            cursor as int,
        ));
        cursor = last_end;
        i = end;
    }
    proof {
        lemma_rewrite_done(t@, i as nat, cursor as int);
    }
    push_slice(&mut out, &t, cursor, t.len());
    assert(out@ =~= spec_to_digits(t@));
    Some(string_from_chars(&out))
}

proof fn lemma_no_runs_from(t: Seq<char>, i: nat)
    requires
        forall|k: int| 0 <= k < words(t).len() ==> (#[trigger] word_toks(t, words(t))[k]) is None,
    ensures
        rewrite_from(t, i, 0) == t.subrange(0, t.len() as int),
        fits_from(t, i),
    decreases words(t).len() - i,
{
    if i >= words(t).len() {
        lemma_rewrite_done(t, i, 0);
    } else {
        assert(word_toks(t, words(t))[i as int] is None);
        lemma_rewrite_skip(t, i, 0);
        lemma_no_runs_from(t, i + 1);
    }
}

/// Text in which no word is a number word comes back unchanged, and never
/// overflows.
pub proof fn law_text_without_numbers_unchanged(t: Seq<char>)
    requires
        forall|k: int| 0 <= k < words(t).len() ==> (#[trigger] word_toks(t, words(t))[k]) is None,
    ensures
        spec_to_digits(t) == t,
        digits_fit(t),
{
    lemma_no_runs_from(t, 0);
    assert(t.subrange(0, t.len() as int) =~= t);
}

/// Rewrite every run of spoken number words in `text` as digits.
pub fn to_digits(text: &str) -> (r: String)
    requires
        digits_fit(text@),
    ensures
        r@ == spec_to_digits(text@),
{
    match to_digits_checked(text) {
        Some(s) => s,
        None => {
            proof {
                assert(false);
            }
            String::new()
        },
    }
}

/// The digit a word stands for when it is a bare digit word, and -1
/// otherwise.
pub open spec fn digit_of(t: Tok) -> int {
    match t {
        Tok::Unit(n) => n as int,
        _ => -1,
    }
}

/// Every word is a bare digit word, zero to nine.
pub open spec fn bare_digits(toks: Seq<Tok>) -> bool {
    forall|k: int| 0 <= k < toks.len() ==> 0 <= #[trigger] digit_of(toks[k]) <= 9
}

proof fn lemma_bare_chunks(toks: Seq<Tok>)
    requires
        bare_digits(toks),
    ensures
        chunks_of(toks).0 =~= Seq::new(toks.len(), |i: int| digit_of(toks[i])),
        !chunks_of(toks).1,
    decreases toks.len(),
{
    if toks.len() > 0 {
        let d = toks.drop_last();
        assert forall|k: int| 0 <= k < d.len() implies 0 <= #[trigger] digit_of(d[k]) <= 9 by {
            assert(d[k] == toks[k]);
        }
        lemma_bare_chunks(d);
        assert(0 <= digit_of(toks[toks.len() - 1]) <= 9);
        assert(toks.last() == toks[toks.len() - 1]);
    }
}

proof fn lemma_single_digits(cs: Seq<int>)
    requires
        forall|k: int| 0 <= k < cs.len() ==> 0 <= #[trigger] cs[k] <= 9,
    ensures
        concat_decimals(cs) =~= Seq::new(cs.len(), |i: int| digit_char(cs[i])),
    decreases cs.len(),
{
    if cs.len() > 0 {
        let d = cs.drop_last();
        assert forall|k: int| 0 <= k < d.len() implies 0 <= #[trigger] d[k] <= 9 by {
            assert(d[k] == cs[k]);
        }
        lemma_single_digits(d);
        assert(0 <= cs[cs.len() - 1] <= 9);
        assert(decimal(cs.last() as nat) == seq![digit_char(cs.last())]);
    }
}

proof fn lemma_bare_no_point(toks: Seq<Tok>, k: int)
    requires
        bare_digits(toks),
        0 <= k,
    ensures
        point_from(toks, k) == -1,
    decreases toks.len() - k,
{
    if k < toks.len() {
        assert(0 <= digit_of(toks[k]) <= 9);
        lemma_bare_no_point(toks, k + 1);
    }
}

proof fn lemma_digit_code(d: int)
    requires
        0 <= d <= 9,
    ensures
        digit_char(d) as int == 48 + d,
{
}

/// Three or more bare digit words read as the string of those digits, in
/// order, whatever their number: "four zero four" is 404, and "one two three
/// four" is 1234, one character per word, each the digit the word names.
pub proof fn law_three_or_more_digits_read_as_a_string(toks: Seq<Tok>)
    requires
        toks.len() >= 3,
        forall|k: int| 0 <= k < toks.len() ==> 0 <= #[trigger] digit_of(toks[k]) <= 9,
    ensures
        spec_read_value(toks).len() == toks.len(),
        forall|i: int|
            0 <= i < toks.len() ==> #[trigger] spec_read_value(toks)[i] as int == 48 + digit_of(
                toks[i],
            ),
        spec_read(toks) == spec_read_value(toks),
        read_fits(toks),
{
    lemma_bare_chunks(toks);
    let cs = chunks(toks);
    assert(!has_scale(toks)) by {
        if has_scale(toks) {
            let k = choose|k: int|
                0 <= k < toks.len() && (#[trigger] toks[k] == Tok::Hundred || toks[k] is Scale);
            assert(0 <= digit_of(toks[k]) <= 9);
        }
    }
    assert(digits_only(toks)) by {
        assert forall|k: int| 0 <= k < toks.len() implies (#[trigger] toks[k]) is Unit
            || toks[k] == Tok::And by {
            assert(0 <= digit_of(toks[k]) <= 9);
        }
    }
    assert(cs.len() == toks.len());
    assert forall|k: int| 0 <= k < cs.len() implies 0 <= #[trigger] cs[k] <= 9 by {
        assert(cs[k] == digit_of(toks[k]));
        assert(0 <= digit_of(toks[k]) <= 9);
    }
    lemma_single_digits(cs);
    assert forall|i: int| 0 <= i < toks.len() implies #[trigger] spec_read_value(toks)[i] as int
        == 48 + digit_of(toks[i]) by {
        assert(cs[i] == digit_of(toks[i]));
        assert(0 <= digit_of(toks[i]) <= 9);
        lemma_digit_code(cs[i]);
    }
    lemma_bare_no_point(toks, 0);
}

} // verus!
