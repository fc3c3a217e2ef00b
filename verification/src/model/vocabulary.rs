//! User-supplied vocabulary.
//!
//! The speech model has no contextual-biasing API: it spells an unfamiliar
//! name the way it sounded, consistently. So the vocabulary is applied to the
//! finished transcript: the user says what the model gets wrong and what it
//! should have been, and every transcript is rewritten.

use vstd::prelude::*;
use vstd::string::StringSliceAdditionalSpecFns;
use vstd::utf8::*;

use crate::text::{
    chars_of, lowercase, str_lowercase, string_from_chars, string_from_utf8, trim, trim_str,
};

verus! {

/// Every non-overlapping occurrence of `n` in `h`, found left to right,
/// replaced by `r`: what `str::replace` does with a non-empty pattern.
pub open spec fn replace_all(h: Seq<char>, n: Seq<char>, r: Seq<char>) -> Seq<char>
    recommends
        n.len() > 0,
    decreases h.len(),
{
    if n.len() == 0 || h.len() < n.len() {
        h
    } else if h.take(n.len() as int) == n {
        r + replace_all(h.skip(n.len() as int), n, r)
    } else {
        seq![h[0]] + replace_all(h.skip(1), n, r)
    }
}

/// Whether `n` occurs in `h` at position `i`.
fn occurs_at_chars(h: &[char], n: &[char], i: usize) -> (b: bool)
    requires
        i + n@.len() <= h@.len(),
    ensures
        b == (h@.subrange(i as int, i + n@.len()) == n@),
{
    let m = n.len();
    let hl = h.len();
    let mut k: usize = 0;
    while k < m
        invariant
            m == n@.len(),
            hl == h@.len(),
            i + m <= h@.len(),
            k <= m,
            forall|j: int| 0 <= j < k ==> h@[i + j] == n@[j],
        decreases m - k,
    {
        if h[i + k] != n[k] {
            assert(h@.subrange(i as int, i + m)[k as int] != n@[k as int]);
            return false;
        }
        k += 1;
    }
    assert(h@.subrange(i as int, i + m) =~= n@);
    true
}


/// Whether `n` occurs in `h` at position `i`.
fn occurs_at_bytes(h: &[u8], n: &[u8], i: usize) -> (b: bool)
    requires
        i + n@.len() <= h@.len(),
    ensures
        b == (h@.subrange(i as int, i + n@.len()) == n@),
{
    let m = n.len();
    let hl = h.len();
    let mut k: usize = 0;
    while k < m
        invariant
            m == n@.len(),
            hl == h@.len(),
            i + m <= h@.len(),
            k <= m,
            forall|j: int| 0 <= j < k ==> h@[i + j] == n@[j],
        decreases m - k,
    {
        if h[i + k] != n[k] {
            assert(h@.subrange(i as int, i + m)[k as int] != n@[k as int]);
            return false;
        }
        k += 1;
    }
    assert(h@.subrange(i as int, i + m) =~= n@);
    true
}


/// `str::replace` for a non-empty pattern, on characters.
fn replace_chars(h: &Vec<char>, n: &Vec<char>, r: &Vec<char>) -> (out: Vec<char>)
    requires
        n@.len() > 0,
    ensures
        out@ == replace_all(h@, n@, r@),
{
    let len = h.len();
    let m = n.len();
    let mut out: Vec<char> = Vec::new();
    let mut i: usize = 0;
    assert(h@.skip(0) =~= h@);
    while i < len
        invariant
            len == h@.len(),
            m == n@.len(),
            m > 0,
            i <= len,
            out@ + replace_all(h@.skip(i as int), n@, r@) == replace_all(h@, n@, r@),
        decreases len - i,
    {
        let ghost rest = h@.skip(i as int);
        let ghost before = out@;
        if m <= len - i && occurs_at_chars(h.as_slice(), n.as_slice(), i) {
            assert(rest.take(m as int) =~= h@.subrange(i as int, i + m));
            assert(rest.skip(m as int) =~= h@.skip(i + m));
            let mut k: usize = 0;
            while k < r.len()
                invariant
                    k <= r@.len(),
                    out@ == before + r@.take(k as int),
                decreases r.len() - k,
            {
                out.push(r[k]);
                assert(r@.take(k as int).push(r@[k as int]) =~= r@.take(k + 1));
                k += 1;
            }
            assert(r@.take(r@.len() as int) =~= r@);
            assert(out@ + replace_all(h@.skip(i + m), n@, r@) =~= before + replace_all(rest, n@, r@));
            i += m;
        } else {
            if m <= len - i {
                assert(rest.take(m as int) =~= h@.subrange(i as int, i + m));
            } else {
                assert(replace_all(rest.skip(1), n@, r@) == rest.skip(1));
            }
            assert(rest.skip(1) =~= h@.skip(i + 1));
            out.push(h[i]);
            assert(out@ + replace_all(h@.skip(i + 1), n@, r@) =~= before + replace_all(rest, n@, r@));
            i += 1;
        }
    }
    assert(h@.skip(len as int) =~= Seq::<char>::empty());
    assert(out@ =~= replace_all(h@, n@, r@));
    out
}

/// The first position at or after `c` where `n` occurs in `l`, or -1:
/// what `str::find` reports on the bytes from `c` on.
pub open spec fn find_from(l: Seq<u8>, n: Seq<u8>, c: int) -> int
    decreases l.len() - c,
{
    if n.len() == 0 || c < 0 || c + n.len() > l.len() {
        -1
    } else if l.subrange(c, c + n.len()) == n {
        c
    } else {
        find_from(l, n, c + 1)
    }
}

pub proof fn lemma_find_from(l: Seq<u8>, n: Seq<u8>, c: int)
    ensures
        find_from(l, n, c) == -1 || (c <= find_from(l, n, c) && find_from(l, n, c) + n.len() <= l.len()),
        find_from(l, n, c) >= 0 ==> l.subrange(find_from(l, n, c), find_from(l, n, c) + n.len()) == n,
    decreases l.len() - c,
{
    if n.len() == 0 || c < 0 || c + n.len() > l.len() {
    } else if l.subrange(c, c + n.len()) == n {
    } else {
        lemma_find_from(l, n, c + 1);
    }
}

/// The case-insensitive replacement, on bytes. Occurrences of the lowercased
/// needle `n` are found in the lowercased haystack `l`; the haystack `h`
/// supplies the text kept between them. Replacing stops at the first
/// occurrence whose ends are not character boundaries of `h`.
pub open spec fn replace_bytes_from(h: Seq<u8>, l: Seq<u8>, n: Seq<u8>, r: Seq<u8>, c: int) -> Seq<u8>
    decreases l.len() - c,
{
    let hit = find_from(l, n, c);
    if n.len() == 0 || c < 0 || hit < 0 {
        h.subrange(c, h.len() as int)
    } else {
        let end = hit + n.len();
        proof {
            lemma_find_from(l, n, c);
        }
        if !is_char_boundary(h, hit) || !is_char_boundary(h, end) {
            h.subrange(c, h.len() as int)
        } else {
            h.subrange(c, hit) + r + replace_bytes_from(h, l, n, r, end)
        }
    }
}

/// `h` with `n` replaced by `r`, the needle matched without regard to case.
///
/// Matching is done on the lowercased copies. When lowercasing changes the
/// byte length of the haystack, positions in the lowercased copy mean
/// nothing in the haystack itself, so matching falls back to exact.
pub open spec fn spec_replace_ignoring_case(h: Seq<char>, n: Seq<char>, r: Seq<char>) -> Seq<char> {
    let hl = str_lowercase(h);
    let nl = str_lowercase(n);
    if nl.len() == 0 {
        h
    } else if encode_utf8(hl).len() != encode_utf8(h).len() {
        replace_all(h, n, r)
    } else {
        decode_utf8(
            replace_bytes_from(encode_utf8(h), encode_utf8(hl), encode_utf8(nl), encode_utf8(r), 0),
        )
    }
}

/// The bytes between two character boundaries of valid UTF-8 are valid UTF-8.
proof fn lemma_valid_slice(b: Seq<u8>, x: int, y: int)
    requires
        valid_utf8(b),
        0 <= x <= y <= b.len(),
        is_char_boundary(b, x),
        is_char_boundary(b, y),
    ensures
        valid_utf8(b.subrange(x, y)),
{
    valid_utf8_split(b, x);
    let s = b.subrange(x, b.len() as int);
    if y < b.len() {
        is_char_boundary_iff_not_is_continuation_byte(b, y);
        is_char_boundary_iff_not_is_continuation_byte(s, y - x);
        assert(s[y - x] == b[y]);
    } else {
        is_char_boundary_start_end_of_seq(s);
    }
    valid_utf8_split(s, y - x);
    assert(s.subrange(0, y - x) =~= b.subrange(x, y));
}

/// Append `b[x..y]` to `out`.
fn push_bytes(out: &mut Vec<u8>, b: &[u8], x: usize, y: usize)
    requires
        x <= y <= b@.len(),
    ensures
        final(out)@ == old(out)@ + b@.subrange(x as int, y as int),
{
    let ghost start = out@;
    let mut k: usize = x;
    while k < y
        invariant
            x <= k <= y <= b@.len(),
            out@ == start + b@.subrange(x as int, k as int),
        decreases y - k,
    {
        out.push(b[k]);
        assert(start + b@.subrange(x as int, k + 1) =~= start + b@.subrange(x as int, k as int) + seq![b@[k as int]]);
        k += 1;
    }
}

/// Where `n` next occurs in `l` at or after `c`.
fn find_bytes(l: &[u8], n: &[u8], c: usize) -> (hit: Option<usize>)
    requires
        n@.len() > 0,
    ensures
        hit matches Some(p) ==> p == find_from(l@, n@, c as int),
        hit is None ==> find_from(l@, n@, c as int) == -1,
{
    let len = l.len();
    let m = n.len();
    let mut p: usize = c;
    while p <= len && m <= len - p
        invariant
            len == l@.len(),
            m == n@.len(),
            m > 0,
            c <= p,
            find_from(l@, n@, c as int) == find_from(l@, n@, p as int),
        decreases len - p,
    {
        if occurs_at_bytes(l, n, p) {
            return Some(p);
        }
        p += 1;
    }
    None
}


proof fn lemma_encode_nonempty(s: Seq<char>)
    requires
        s.len() > 0,
    ensures
        encode_utf8(s).len() > 0,
{
    assert(encode_utf8(s) == encode_scalar(s[0] as u32) + encode_utf8(s.drop_first()));
}

/// `str::replace` for a non-empty pattern.
fn replace_str(haystack: &str, needle: &str, replacement: &str) -> (r: String)
    ensures
        r@ == replace_all(haystack@, needle@, replacement@),
{
    let h = chars_of(haystack);
    let n = chars_of(needle);
    if n.len() == 0 {
        return haystack.to_owned();
    }
    let r = chars_of(replacement);
    let out = replace_chars(&h, &n, &r);
    string_from_chars(&out)
}

/// `str::replace` with the needle matched case-insensitively.
///
/// Indices come from the lowercased copies, so this steps by the lowercased
/// byte length; a match whose ends do not fall on character boundaries of
/// the haystack ends the replacing rather than corrupting text.
pub fn replace_ignoring_case(haystack: &str, needle: &str, replacement: &str) -> (r: String)
    ensures
        r@ == spec_replace_ignoring_case(haystack@, needle@, replacement@),
{
    let hay_lower = lowercase(haystack);
    let needle_lower = lowercase(needle);
    if needle_lower.as_str().is_empty() {
        return haystack.to_owned();
    }
    let h = haystack.as_bytes();
    let l = hay_lower.as_str().as_bytes();
    if l.len() != h.len() {
        return replace_str(haystack, needle, replacement);
    }
    let nb = needle_lower.as_str().as_bytes();
    let rb = replacement.as_bytes();
    let ghost hv = encode_utf8(haystack@);
    let ghost lv = encode_utf8(hay_lower@);
    let ghost whole = replace_bytes_from(hv, lv, nb@, rb@, 0);
    proof {
        lemma_encode_nonempty(needle_lower@);
        encode_utf8_valid_utf8(haystack@);
        encode_utf8_valid_utf8(replacement@);
        is_char_boundary_start_end_of_seq(hv);
    }
    let mut out: Vec<u8> = Vec::new();
    let mut cursor: usize = 0;
    assert(whole == replace_bytes_from(hv, lv, nb@, rb@, 0));
    while cursor <= h.len()
        invariant
            hv == encode_utf8(haystack@),
            h@ == hv,
            l@ == lv,
            hv.len() == lv.len(),
            nb@.len() > 0,
            valid_utf8(hv),
            valid_utf8(rb@),
            cursor <= hv.len(),
            is_char_boundary(hv, cursor as int),
            valid_utf8(out@),
            out@ + replace_bytes_from(hv, lv, nb@, rb@, cursor as int) == whole,
        ensures
            cursor <= hv.len(),
            is_char_boundary(hv, cursor as int),
            valid_utf8(out@),
            out@ + hv.subrange(cursor as int, hv.len() as int) == whole,
        decreases lv.len() - cursor,
    {
        let ghost before = out@;
        proof {
            lemma_find_from(lv, nb@, cursor as int);
        }
        match find_bytes(l, nb, cursor) {
            None => {
                assert(replace_bytes_from(hv, lv, nb@, rb@, cursor as int) == hv.subrange(
                    cursor as int,
                    hv.len() as int,
                ));
                break;
            },
            Some(start) => {
                let end = start + nb.len();
                let start_ok = haystack.is_char_boundary(start);
                let end_ok = haystack.is_char_boundary(end);
                assert(start_ok == is_char_boundary(hv, start as int));
                assert(end_ok == is_char_boundary(hv, end as int));
                if !start_ok || !end_ok {
                    assert(replace_bytes_from(hv, lv, nb@, rb@, cursor as int) == hv.subrange(
                        cursor as int,
                        hv.len() as int,
                    ));
                    break;
                }
                proof {
                    lemma_valid_slice(hv, cursor as int, start as int);
                }
                push_bytes(&mut out, h, cursor, start);
                proof {
                    valid_utf8_concat(before, hv.subrange(cursor as int, start as int));
                }
                let ghost mid = out@;
                push_bytes(&mut out, rb, 0, rb.len());
                proof {
                    assert(rb@.subrange(0, rb@.len() as int) =~= rb@);
                    valid_utf8_concat(mid, rb@);
                    assert(out@ + replace_bytes_from(hv, lv, nb@, rb@, end as int) =~= before
                        + replace_bytes_from(hv, lv, nb@, rb@, cursor as int));
                }
                cursor = end;
            },
        }
    }
    proof {
        lemma_valid_slice(hv, cursor as int, hv.len() as int);
        valid_utf8_concat(out@, hv.subrange(cursor as int, hv.len() as int));
    }
    push_bytes(&mut out, h, cursor, h.len());
    let ghost bytes = out@;
    match string_from_utf8(out) {
        Ok(s) => {
            proof {
                encode_utf8_decode_utf8(s@);
            }
            s
        },
        Err(_) => {
            proof {
                assert(false);
            }
            haystack.to_owned()
        },
    }
}


/// One rewrite: replace `heard` with `write`.
#[derive(Clone, Debug, PartialEq, Eq)]
pub struct Rule {
    /// What the model tends to produce.
    pub heard: String,
    /// What the user meant.
    pub write: String,
    /// Whether `heard` has to match the transcript's capitalisation.
    pub match_case: bool,
}

impl Rule {
    pub fn new(heard: &str, write: &str) -> (r: Self)
        ensures
            r.heard@ == heard@,
            r.write@ == write@,
            !r.match_case,
    {
        Self { heard: heard.to_owned(), write: write.to_owned(), match_case: false }
    }

    /// A rule with something to match. A rule with nothing to match can only
    /// ever loop, so it is not a rule.
    pub open spec fn usable(&self) -> bool {
        trim(self.heard@).len() > 0
    }

    pub fn is_usable(&self) -> (b: bool)
        ensures
            b == self.usable(),
    {
        !trim_str(self.heard.as_str()).as_str().is_empty()
    }
}

impl Default for Rule {
    fn default() -> (r: Self)
        ensures
            r.heard@ == Seq::<char>::empty(),
            r.write@ == Seq::<char>::empty(),
            !r.match_case,
    {
        Self { heard: String::new(), write: String::new(), match_case: false }
    }
}

/// The usable rules of `rs`, in the order given.
pub open spec fn usable_rules(rs: Seq<Rule>) -> Seq<Rule>
    decreases rs.len(),
{
    if rs.len() == 0 {
        seq![]
    } else if rs.last().usable() {
        usable_rules(rs.drop_last()).push(rs.last())
    } else {
        usable_rules(rs.drop_last())
    }
}

/// `sorted` with `r` placed after every rule whose `heard` is at least as
/// long as its own.
pub open spec fn insert_by_length(sorted: Seq<Rule>, r: Rule) -> Seq<Rule>
    decreases sorted.len(),
{
    if sorted.len() == 0 {
        seq![r]
    } else if sorted.last().heard@.len() >= r.heard@.len() {
        sorted.push(r)
    } else {
        insert_by_length(sorted.drop_last(), r).push(sorted.last())
    }
}

/// `rs` ordered longest `heard` first, rules of equal length keeping their
/// order: the stable sort by descending length.
pub open spec fn longest_first(rs: Seq<Rule>) -> Seq<Rule>
    decreases rs.len(),
{
    if rs.len() == 0 {
        seq![]
    } else {
        insert_by_length(longest_first(rs.drop_last()), rs.last())
    }
}

/// One rule applied to a transcript.
pub open spec fn apply_rule(r: Rule, text: Seq<char>) -> Seq<char> {
    if r.match_case {
        replace_all(text, r.heard@, r.write@)
    } else {
        spec_replace_ignoring_case(text, r.heard@, r.write@)
    }
}

/// The rules applied in order, each to the output of the one before it.
pub open spec fn apply_rules(rs: Seq<Rule>, text: Seq<char>) -> Seq<char>
    decreases rs.len(),
{
    if rs.len() == 0 {
        text
    } else {
        apply_rule(rs.last(), apply_rules(rs.drop_last(), text))
    }
}

/// A transcript rewritten by every usable rule, longest `heard` first.
pub open spec fn spec_apply(rules: Seq<Rule>, text: Seq<char>) -> Seq<char> {
    apply_rules(longest_first(usable_rules(rules)), text)
}

#[derive(Clone, Debug, PartialEq, Eq)]
pub struct Vocabulary {
    rules: Vec<Rule>,
}

impl View for Vocabulary {
    type V = Seq<Rule>;

    closed spec fn view(&self) -> Seq<Rule> {
        self.rules@
    }
}

impl Default for Vocabulary {
    fn default() -> (v: Self)
        ensures
            v@ == Seq::<Rule>::empty(),
    {
        Self { rules: Vec::new() }
    }
}

/// The rules at the given positions.
pub open spec fn pick(rs: Seq<Rule>, idx: Seq<usize>) -> Seq<Rule> {
    idx.map_values(|i: usize| rs[i as int])
}

proof fn lemma_insert_at(s: Seq<Rule>, r: Rule, j: int)
    requires
        0 <= j <= s.len(),
        j == 0 || s[j - 1].heard@.len() >= r.heard@.len(),
        forall|m: int| j <= m < s.len() ==> (#[trigger] s[m]).heard@.len() < r.heard@.len(),
    ensures
        insert_by_length(s, r) == s.insert(j, r),
    decreases s.len(),
{
    if s.len() == j {
        if s.len() == 0 {
            assert(s.insert(0, r) =~= seq![r]);
        } else {
            assert(s.insert(j, r) =~= s.push(r));
        }
    } else {
        let d = s.drop_last();
        assert forall|m: int| j <= m < d.len() implies (#[trigger] d[m]).heard@.len() < r.heard@.len() by {
            assert(d[m] == s[m]);
        }
        if j > 0 {
            assert(d[j - 1] == s[j - 1]);
        }
        lemma_insert_at(d, r, j);
        assert(d.insert(j, r).push(s.last()) =~= s.insert(j, r));
    }
}

impl Vocabulary {
    pub fn from_rules(rules: Vec<Rule>) -> (v: Self)
        ensures
            v@ == rules@,
    {
        Self { rules }
    }

    pub fn rules(&self) -> (r: &[Rule])
        ensures
            r@ == self@,
    {
        self.rules.as_slice()
    }

    pub fn set_rules(&mut self, rules: Vec<Rule>)
        ensures
            final(self)@ == rules@,
    {
        self.rules = rules;
    }

    /// Whether no rule would change anything.
    pub fn is_empty(&self) -> (b: bool)
        ensures
            b == forall|k: int| 0 <= k < self@.len() ==> !(#[trigger] self@[k]).usable(),
    {
        let n = self.rules.len();
        let mut k: usize = 0;
        while k < n
            invariant
                n == self@.len(),
                self@ == self.rules@,
                k <= n,
                forall|j: int| 0 <= j < k ==> !(#[trigger] self@[j]).usable(),
            decreases n - k,
        {
            if self.rules[k].is_usable() {
                return false;
            }
            k += 1;
        }
        true
    }

    /// The positions of the usable rules, longest `heard` first.
    fn order(&self) -> (sorted: Vec<usize>)
        ensures
            pick(self@, sorted@) == longest_first(usable_rules(self@)),
            forall|k: int| 0 <= k < sorted@.len() ==> (#[trigger] sorted@[k]) < self@.len(),
    {
        let n = self.rules.len();
        let ghost rs = self@;
        let mut usable: Vec<usize> = Vec::new();
        let mut k: usize = 0;
        while k < n
            invariant
                n == rs.len(),
                rs == self.rules@,
                k <= n,
                pick(rs, usable@) == usable_rules(rs.take(k as int)),
                forall|m: int| 0 <= m < usable@.len() ==> (#[trigger] usable@[m]) < n,
            decreases n - k,
        {
            assert(rs.take(k + 1).drop_last() =~= rs.take(k as int));
            assert(rs.take(k + 1).last() == rs[k as int]);
            if self.rules[k].is_usable() {
                let ghost prev = usable@;
                usable.push(k);
                assert(usable@.drop_last() =~= prev);
                assert(pick(rs, usable@) =~= pick(rs, prev).push(rs[k as int]));
            }
            k += 1;
        }
        assert(rs.take(n as int) =~= rs);
        let ghost picked = pick(rs, usable@);
        let mut sorted: Vec<usize> = Vec::new();
        let mut k: usize = 0;
        while k < usable.len()
            invariant
                n == rs.len(),
                rs == self.rules@,
                picked == pick(rs, usable@),
                k <= usable@.len(),
                pick(rs, sorted@) == longest_first(picked.take(k as int)),
                forall|m: int| 0 <= m < usable@.len() ==> (#[trigger] usable@[m]) < n,
                forall|m: int| 0 <= m < sorted@.len() ==> (#[trigger] sorted@[m]) < n,
            decreases usable.len() - k,
        {
            let idx = usable[k];
            let len = self.rules[idx].heard.as_str().unicode_len();
            let ghost s = pick(rs, sorted@);
            let mut j: usize = sorted.len();
            while j > 0 && self.rules[sorted[j - 1]].heard.as_str().unicode_len() < len
                invariant
                    rs == self.rules@,
                    s == pick(rs, sorted@),
                    j <= sorted@.len(),
                    len == rs[idx as int].heard@.len(),
                    forall|m: int| 0 <= m < sorted@.len() ==> (#[trigger] sorted@[m]) < n,
                    n == rs.len(),
                    forall|m: int| j <= m < s.len() ==> (#[trigger] s[m]).heard@.len() < len,
                decreases j,
            {
                j -= 1;
            }
            proof {
                lemma_insert_at(s, rs[idx as int], j as int);
                assert(picked.take(k + 1).drop_last() =~= picked.take(k as int));
                assert(picked.take(k + 1).last() == rs[idx as int]);
            }
            sorted.insert(j, idx);
            assert(pick(rs, sorted@) =~= s.insert(j as int, rs[idx as int]));
            k += 1;
        }
        assert(picked.take(usable@.len() as int) =~= picked);
        sorted
    }

    /// Rewrite `text` by every usable rule, longest `heard` first.
    ///
    /// Longest-first matters: with rules for both "code" and "code review",
    /// applying the shorter one first would leave "…-review" behind and the
    /// longer rule would never match. Each rule sees the output of the one
    /// before it, so a user can chain them deliberately.
    pub fn apply(&self, text: &str) -> (r: String)
        ensures
            r@ == spec_apply(self@, text@),
    {
        let order = self.order();
        let ghost ordered = pick(self@, order@);
        let mut out: String = text.to_owned();
        let mut k: usize = 0;
        while k < order.len()
            invariant
                ordered == pick(self@, order@),
                self@ == self.rules@,
                forall|m: int| 0 <= m < order@.len() ==> (#[trigger] order@[m]) < self@.len(),
                k <= order@.len(),
                out@ == apply_rules(ordered.take(k as int), text@),
            decreases order.len() - k,
        {
            let rule = &self.rules[order[k]];
            assert(ordered.take(k + 1).drop_last() =~= ordered.take(k as int));
            assert(ordered.take(k + 1).last() == *rule);
            out = if rule.match_case {
                replace_str(out.as_str(), rule.heard.as_str(), rule.write.as_str())
            } else {
                replace_ignoring_case(out.as_str(), rule.heard.as_str(), rule.write.as_str())
            };
            k += 1;
        }
        assert(ordered.take(order@.len() as int) =~= ordered);
        out
    }
}


/// Rules ordered from the longest `heard` to the shortest.
pub open spec fn longest_to_shortest(rs: Seq<Rule>) -> bool {
    forall|i: int, j: int| 0 <= i < j < rs.len() ==> (#[trigger] rs[i]).heard@.len() >= (#[trigger] rs[j]).heard@.len()
}

/// Where `insert_by_length` places `r` in `s`.
pub open spec fn insert_pos(s: Seq<Rule>, r: Rule) -> int
    decreases s.len(),
{
    if s.len() == 0 {
        0
    } else if s.last().heard@.len() >= r.heard@.len() {
        s.len() as int
    } else {
        insert_pos(s.drop_last(), r)
    }
}

proof fn lemma_insert_pos(s: Seq<Rule>, r: Rule)
    ensures
        0 <= insert_pos(s, r) <= s.len(),
        insert_pos(s, r) == 0 || s[insert_pos(s, r) - 1].heard@.len() >= r.heard@.len(),
        forall|m: int| insert_pos(s, r) <= m < s.len() ==> (#[trigger] s[m]).heard@.len() < r.heard@.len(),
    decreases s.len(),
{
    if s.len() > 0 && s.last().heard@.len() < r.heard@.len() {
        let d = s.drop_last();
        lemma_insert_pos(d, r);
        let p = insert_pos(d, r);
        if p > 0 {
            assert(s[p - 1] == d[p - 1]);
        }
        assert forall|m: int| p <= m < s.len() implies (#[trigger] s[m]).heard@.len() < r.heard@.len() by {
            if m < d.len() {
                assert(s[m] == d[m]);
            }
        }
    }
}

/// The vocabulary is applied longest rule first: the order the rules are
/// applied in runs from the longest `heard` to the shortest, and holds each
/// usable rule exactly as often as the vocabulary does.
pub proof fn law_rules_apply_longest_first(rules: Seq<Rule>)
    ensures
        longest_to_shortest(longest_first(usable_rules(rules))),
        longest_first(usable_rules(rules)).to_multiset() == usable_rules(rules).to_multiset(),
{
    lemma_longest_first(usable_rules(rules));
}

proof fn lemma_longest_first(rs: Seq<Rule>)
    ensures
        longest_to_shortest(longest_first(rs)),
        longest_first(rs).to_multiset() == rs.to_multiset(),
    decreases rs.len(),
{
    broadcast use vstd::seq_lib::group_to_multiset_ensures;

    if rs.len() == 0 {
        assert(longest_first(rs) =~= rs);
    } else {
        let d = rs.drop_last();
        let r = rs.last();
        lemma_longest_first(d);
        let s = longest_first(d);
        lemma_insert_pos(s, r);
        let p = insert_pos(s, r);
        lemma_insert_at(s, r, p);
        let res = s.insert(p, r);
        assert(longest_first(rs) == res);
        assert forall|i: int, j: int| 0 <= i < j < res.len() implies (#[trigger] res[i]).heard@.len()
            >= (#[trigger] res[j]).heard@.len() by {
            if j < p {
                assert(res[i] == s[i] && res[j] == s[j]);
            } else if j == p {
                assert(res[i] == s[i] && res[j] == r);
                if i < p - 1 {
                    assert(s[i].heard@.len() >= s[p - 1].heard@.len());
                }
            } else if i < p {
                assert(res[i] == s[i] && res[j] == s[j - 1]);
            } else if i == p {
                assert(res[i] == r && res[j] == s[j - 1]);
            } else {
                assert(res[i] == s[i - 1] && res[j] == s[j - 1]);
            }
        }
        assert(rs =~= d.push(r));
    }
}

proof fn lemma_no_usable_rules(rules: Seq<Rule>)
    requires
        forall|k: int| 0 <= k < rules.len() ==> !(#[trigger] rules[k]).usable(),
    ensures
        usable_rules(rules) == Seq::<Rule>::empty(),
    decreases rules.len(),
{
    if rules.len() > 0 {
        let d = rules.drop_last();
        assert forall|k: int| 0 <= k < d.len() implies !(#[trigger] d[k]).usable() by {
            assert(d[k] == rules[k]);
        }
        lemma_no_usable_rules(d);
    }
}

/// A vocabulary whose rules are all blank changes nothing: a rule with
/// nothing to match is not a rule.
pub proof fn law_blank_rules_change_nothing(rules: Seq<Rule>, text: Seq<char>)
    requires
        forall|k: int| 0 <= k < rules.len() ==> !(#[trigger] rules[k]).usable(),
    ensures
        spec_apply(rules, text) == text,
{
    lemma_no_usable_rules(rules);
    assert(longest_first(Seq::<Rule>::empty()) == Seq::<Rule>::empty());
}

/// Whether `n` occurs in `h` starting at `i`.
pub open spec fn occurs_at(h: Seq<char>, n: Seq<char>, i: int) -> bool {
    0 <= i && i + n.len() <= h.len() && h.subrange(i, i + n.len()) == n
}

/// Text in which the needle does not occur comes back as it was.
pub proof fn law_text_without_the_needle_is_unchanged(h: Seq<char>, n: Seq<char>, r: Seq<char>)
    requires
        n.len() > 0,
        forall|i: int| !(#[trigger] occurs_at(h, n, i)),
    ensures
        replace_all(h, n, r) == h,
    decreases h.len(),
{
    if h.len() >= n.len() {
        assert(!occurs_at(h, n, 0));
        assert(h.take(n.len() as int) =~= h.subrange(0, n.len() as int));
        let t = h.skip(1);
        assert forall|i: int| !(#[trigger] occurs_at(t, n, i)) by {
            if occurs_at(t, n, i) {
                assert(h.subrange(i + 1, i + 1 + n.len()) =~= t.subrange(i, i + n.len()));
                assert(occurs_at(h, n, i + 1));
            }
        }
        law_text_without_the_needle_is_unchanged(t, n, r);
        assert(seq![h[0]] + t =~= h);
    }
}

/// The first occurrence of the needle is replaced, and the replacing goes
/// on over everything after it: for `a + n + b` where `n` first occurs right
/// after `a`, the result is `a`, then `r`, then `b` with every occurrence
/// replaced in turn.
pub proof fn law_the_first_occurrence_is_replaced_and_the_rest_follow(
    a: Seq<char>,
    n: Seq<char>,
    b: Seq<char>,
    r: Seq<char>,
)
    requires
        n.len() > 0,
        forall|i: int| 0 <= i < a.len() ==> !(#[trigger] occurs_at(a + n + b, n, i)),
    ensures
        replace_all(a + n + b, n, r) == a + r + replace_all(b, n, r),
    decreases a.len(),
{
    let h = a + n + b;
    if a.len() == 0 {
        assert(h.take(n.len() as int) =~= n);
        assert(h.skip(n.len() as int) =~= b);
        assert(a + r =~= r);
    } else {
        assert(!occurs_at(h, n, 0));
        assert(h.take(n.len() as int) =~= h.subrange(0, n.len() as int));
        let a2 = a.skip(1);
        assert(h.skip(1) =~= a2 + n + b);
        assert forall|i: int| 0 <= i < a2.len() implies !(#[trigger] occurs_at(a2 + n + b, n, i)) by {
            if occurs_at(a2 + n + b, n, i) {
                assert(h.subrange(i + 1, i + 1 + n.len()) =~= (a2 + n + b).subrange(i, i + n.len()));
                assert(occurs_at(h, n, i + 1));
            }
        }
        law_the_first_occurrence_is_replaced_and_the_rest_follow(a2, n, b, r);
        assert(h[0] == a[0]);
        assert(seq![a[0]] + (a2 + r + replace_all(b, n, r)) =~= a + r + replace_all(b, n, r));
    }
}

/// A case-sensitive rule replaces every occurrence, not just the first:
/// with the needle occurring exactly twice, at the two places shown, `a + n
/// + b + n + c` becomes `a + r + b + r + c`.
pub proof fn law_every_occurrence_is_replaced(
    a: Seq<char>,
    b: Seq<char>,
    c: Seq<char>,
    n: Seq<char>,
    r: Seq<char>,
)
    requires
        n.len() > 0,
        forall|i: int| 0 <= i < a.len() ==> !(#[trigger] occurs_at(a + n + (b + n + c), n, i)),
        forall|i: int| 0 <= i < b.len() ==> !(#[trigger] occurs_at(b + n + c, n, i)),
        forall|i: int| !(#[trigger] occurs_at(c, n, i)),
    ensures
        replace_all(a + n + b + n + c, n, r) == a + r + b + r + c,
{
    assert(a + n + b + n + c =~= a + n + (b + n + c));
    law_the_first_occurrence_is_replaced_and_the_rest_follow(a, n, b + n + c, r);
    law_the_first_occurrence_is_replaced_and_the_rest_follow(b, n, c, r);
    law_text_without_the_needle_is_unchanged(c, n, r);
    assert(a + r + (b + r + c) =~= a + r + b + r + c);
}

} // verus!
