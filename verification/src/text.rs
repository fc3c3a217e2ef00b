//! Character-level helpers shared by the text pipeline.
//!
//! Text is handled as a sequence of `char`s: a `&str` is read into a
//! `Vec<char>`, worked on, and turned back into a `String`. The few standard
//! library facilities whose behaviour is a Unicode table rather than a rule
//! (`char::is_alphabetic`, `str::to_lowercase`) are called behind wrappers
//! whose results are named rather than restated.

use vstd::prelude::*;
use vstd::utf8::*;

verus! {

/// What `char::is_alphabetic` answers for a character: the Unicode
/// `Alphabetic` property.
pub uninterp spec fn char_is_alphabetic(c: char) -> bool;

/// What `str::to_lowercase` produces from a string's characters.
pub uninterp spec fn str_lowercase(s: Seq<char>) -> Seq<char>;

/// Calls `char::is_alphabetic`. Its answer is the Unicode `Alphabetic`
/// property of `c`, which is named here rather than tabulated.
#[verifier::external_body]
pub fn is_alphabetic(c: char) -> (b: bool)
    ensures
        b == char_is_alphabetic(c),
{
    c.is_alphabetic()
}

/// Calls `str::to_lowercase`. The lowercase mapping is Unicode's and is
/// named rather than tabulated; its result depends on the characters alone.
/// Every character lowercases to at least one character, so only the empty
/// string lowercases to the empty string.
#[verifier::external_body]
pub fn lowercase(s: &str) -> (r: String)
    ensures
        r@ == str_lowercase(s@),
        r@.len() == 0 <==> s@.len() == 0,
{
    s.to_lowercase()
}

/// Calls `String::push`, which appends one character.
#[verifier::external_body]
pub fn push_char(s: &mut String, c: char)
    ensures
        final(s)@ == old(s)@.push(c),
{
    s.push(c)
}

/// Calls `String::from_utf8`: the bytes become a string exactly when they are
/// valid UTF-8, and the string then holds those bytes.
#[verifier::external_body]
pub fn string_from_utf8(bytes: Vec<u8>) -> (r: Result<String, std::string::FromUtf8Error>)
    ensures
        r is Ok <==> valid_utf8(bytes@),
        r matches Ok(s) ==> encode_utf8(s@) == bytes@,
{
    String::from_utf8(bytes)
}

#[verifier::external_type_specification]
#[verifier::external_body]
pub struct ExFromUtf8Error(std::string::FromUtf8Error);

/// The characters of a string, in order.
pub fn chars_of(s: &str) -> (v: Vec<char>)
    ensures
        v@ == s@,
{
    let mut v: Vec<char> = Vec::new();
    for c in it: s.chars()
        invariant
            it.seq() == s@,
            v@ == it.seq().take(it.index() as int),
    {
        v.push(c);
    }
    v
}

/// Whether two strings hold the same characters.
pub fn same_text(a: &str, b: &str) -> (r: bool)
    ensures
        r == (a@ == b@),
{
    let x = chars_of(a);
    let y = chars_of(b);
    if x.len() != y.len() {
        return false;
    }
    let n = x.len();
    let mut i: usize = 0;
    while i < n
        invariant
            x@ == a@,
            y@ == b@,
            n == x@.len(),
            n == y@.len(),
            i <= n,
            forall|j: int| 0 <= j < i ==> x@[j] == y@[j],
        decreases n - i,
    {
        if x[i] != y[i] {
            assert(x@[i as int] != y@[i as int]);
            return false;
        }
        i += 1;
    }
    assert(x@ =~= y@);
    true
}

/// A string made of the given characters.
pub fn string_from_chars(v: &Vec<char>) -> (s: String)
    ensures
        s@ == v@,
{
    let mut s = String::new();
    let n = v.len();
    let mut i: usize = 0;
    while i < n
        invariant
            n == v.len(),
            i <= n,
            s@ == v@.take(i as int),
        decreases n - i,
    {
        push_char(&mut s, v[i]);
        assert(v@.take(i as int).push(v@[i as int]) =~= v@.take(i + 1));
        i += 1;
    }
    assert(v@.take(n as int) =~= v@);
    s
}


/// `char::is_whitespace`: the characters Unicode gives the `White_Space`
/// property.
pub open spec fn is_space(c: char) -> bool {
    ||| '\u{9}' <= c <= '\u{d}'
    ||| c == ' '
    ||| c == '\u{85}'
    ||| c == '\u{a0}'
    ||| c == '\u{1680}'
    ||| '\u{2000}' <= c <= '\u{200a}'
    ||| c == '\u{2028}'
    ||| c == '\u{2029}'
    ||| c == '\u{202f}'
    ||| c == '\u{205f}'
    ||| c == '\u{3000}'
}

/// Whether `c` is whitespace, as `char::is_whitespace` decides it.
pub fn is_whitespace(c: char) -> (b: bool)
    ensures
        b == is_space(c),
{
    ('\u{9}' <= c && c <= '\u{d}') || c == ' ' || c == '\u{85}' || c == '\u{a0}' || c == '\u{1680}'
        || ('\u{2000}' <= c && c <= '\u{200a}') || c == '\u{2028}' || c == '\u{2029}' || c
        == '\u{202f}' || c == '\u{205f}' || c == '\u{3000}'
}

/// `s` without its leading whitespace.
pub open spec fn trim_start(s: Seq<char>) -> Seq<char>
    decreases s.len(),
{
    if s.len() > 0 && is_space(s[0]) {
        trim_start(s.drop_first())
    } else {
        s
    }
}

/// `s` without its trailing whitespace.
pub open spec fn trim_end(s: Seq<char>) -> Seq<char>
    decreases s.len(),
{
    if s.len() > 0 && is_space(s.last()) {
        trim_end(s.drop_last())
    } else {
        s
    }
}

/// `str::trim`: `s` without whitespace at either end.
pub open spec fn trim(s: Seq<char>) -> Seq<char> {
    trim_end(trim_start(s))
}

/// Whether `s` holds anything but whitespace.
pub open spec fn has_content(s: Seq<char>) -> bool {
    exists|k: int| 0 <= k < s.len() && !is_space(#[trigger] s[k])
}

proof fn lemma_trim_start_skip(s: Seq<char>, a: int)
    requires
        0 <= a <= s.len(),
        forall|k: int| 0 <= k < a ==> is_space(#[trigger] s[k]),
    ensures
        trim_start(s) == trim_start(s.skip(a)),
    decreases a,
{
    if a > 0 {
        assert(s.skip(1) =~= s.drop_first());
        lemma_trim_start_skip(s.drop_first(), a - 1);
        assert(s.drop_first().skip(a - 1) =~= s.skip(a));
    } else {
        assert(s.skip(0) =~= s);
    }
}

proof fn lemma_trim_end_take(s: Seq<char>, b: int)
    requires
        0 <= b <= s.len(),
        forall|k: int| b <= k < s.len() ==> is_space(#[trigger] s[k]),
    ensures
        trim_end(s) == trim_end(s.take(b)),
    decreases s.len() - b,
{
    if b < s.len() {
        lemma_trim_end_take(s.drop_last(), b);
        assert(s.drop_last().take(b) =~= s.take(b));
    } else {
        assert(s.take(b) =~= s);
    }
}

/// `trim(s)` is empty exactly when `s` holds nothing but whitespace.
pub proof fn lemma_trim_empty(s: Seq<char>)
    ensures
        (trim(s).len() == 0) <==> !has_content(s),
    decreases s.len(),
{
    lemma_trim_start_content(s);
    lemma_trim_end_content(trim_start(s));
}

proof fn lemma_trim_start_content(s: Seq<char>)
    ensures
        has_content(s) <==> has_content(trim_start(s)),
        trim_start(s).len() > 0 ==> !is_space(trim_start(s)[0]),
    decreases s.len(),
{
    if s.len() > 0 && is_space(s[0]) {
        lemma_trim_start_content(s.drop_first());
        if has_content(s) {
            let k = choose|k: int| 0 <= k < s.len() && !is_space(#[trigger] s[k]);
            assert(s.drop_first()[k - 1] == s[k]);
        }
        if has_content(s.drop_first()) {
            let k = choose|k: int| 0 <= k < s.drop_first().len() && !is_space(#[trigger] s.drop_first()[k]);
            assert(s[k + 1] == s.drop_first()[k]);
        }
    }
}

proof fn lemma_trim_end_content(s: Seq<char>)
    requires
        s.len() > 0 ==> !is_space(s[0]),
    ensures
        (trim_end(s).len() == 0) <==> !has_content(s),
    decreases s.len(),
{
    if s.len() > 0 {
        assert(!is_space(s[0]));
        if is_space(s.last()) {
            lemma_trim_end_content(s.drop_last());
            assert(s.drop_last()[0] == s[0]);
        }
    }
}

/// The characters of `v` without whitespace at either end.
pub fn trim_chars(v: &Vec<char>) -> (r: Vec<char>)
    ensures
        r@ == trim(v@),
{
    let n = v.len();
    let mut a: usize = 0;
    while a < n && is_whitespace(v[a])
        invariant
            n == v.len(),
            a <= n,
            forall|k: int| 0 <= k < a ==> is_space(#[trigger] v@[k]),
        decreases n - a,
    {
        a += 1;
    }
    proof {
        lemma_trim_start_skip(v@, a as int);
        if a < n {
            assert(!is_space(v@.skip(a as int)[0]));
        }
        assert(trim_start(v@.skip(a as int)) == v@.skip(a as int));
    }
    let mut b: usize = n;
    while b > a && is_whitespace(v[b - 1])
        invariant
            n == v.len(),
            a <= b <= n,
            forall|k: int| b <= k < n ==> is_space(#[trigger] v@[k]),
        decreases b,
    {
        b -= 1;
    }
    let ghost rest = v@.skip(a as int);
    proof {
        assert forall|k: int| b - a <= k < rest.len() implies is_space(#[trigger] rest[k]) by {
            assert(rest[k] == v@[k + a]);
        }
        lemma_trim_end_take(rest, b - a);
        let cut = rest.take(b - a);
        if b > a {
            assert(cut.last() == v@[b - 1]);
        }
        assert(trim_end(cut) == cut);
        assert(cut =~= v@.subrange(a as int, b as int));
    }
    let mut r: Vec<char> = Vec::new();
    let mut i: usize = a;
    while i < b
        invariant
            n == v.len(),
            a <= i <= b <= n,
            r@ == v@.subrange(a as int, i as int),
        decreases b - i,
    {
        r.push(v[i]);
        assert(v@.subrange(a as int, i as int).push(v@[i as int]) =~= v@.subrange(a as int, i + 1));
        i += 1;
    }
    r
}

/// Whether `s` is empty or all whitespace.
pub fn is_blank(s: &str) -> (b: bool)
    ensures
        b == !has_content(s@),
{
    let t = trim_str(s);
    proof {
        lemma_trim_empty(s@);
    }
    t.as_str().unicode_len() == 0
}

/// `str::trim`, as an owned string.
pub fn trim_str(s: &str) -> (r: String)
    ensures
        r@ == trim(s@),
{
    let v = chars_of(s);
    let t = trim_chars(&v);
    string_from_chars(&t)
}


/// The character for a decimal digit.
pub open spec fn digit_char(d: int) -> char {
    if d == 0 {
        '0'
    } else if d == 1 {
        '1'
    } else if d == 2 {
        '2'
    } else if d == 3 {
        '3'
    } else if d == 4 {
        '4'
    } else if d == 5 {
        '5'
    } else if d == 6 {
        '6'
    } else if d == 7 {
        '7'
    } else if d == 8 {
        '8'
    } else {
        '9'
    }
}

/// `n` written in decimal, as `u64::to_string` writes it.
pub open spec fn decimal(n: nat) -> Seq<char>
    decreases n,
{
    if n < 10 {
        seq![digit_char(n as int)]
    } else {
        decimal(n / 10).push(digit_char((n % 10) as int))
    }
}

fn digit(d: u64) -> (c: char)
    requires
        d < 10,
    ensures
        c == digit_char(d as int),
{
    if d == 0 {
        '0'
    } else if d == 1 {
        '1'
    } else if d == 2 {
        '2'
    } else if d == 3 {
        '3'
    } else if d == 4 {
        '4'
    } else if d == 5 {
        '5'
    } else if d == 6 {
        '6'
    } else if d == 7 {
        '7'
    } else if d == 8 {
        '8'
    } else {
        '9'
    }
}

/// Append `n`, written in decimal, to `out`.
pub fn push_decimal(out: &mut Vec<char>, n: u64)
    ensures
        final(out)@ == old(out)@ + decimal(n as nat),
    decreases n,
{
    if n >= 10 {
        push_decimal(out, n / 10);
    }
    out.push(digit(n % 10));
    proof {
        if n >= 10 {
            assert(old(out)@ + decimal(n as nat) =~= old(out)@ + decimal((n / 10) as nat) + seq![
                digit_char((n % 10) as int),
            ]);
        } else {
            assert(old(out)@ + decimal(n as nat) =~= old(out)@.push(digit_char(n as int)));
        }
    }
}


/// The first position at or after `c` where `p` occurs in `s`, or -1.
pub open spec fn first_at(s: Seq<char>, p: Seq<char>, c: int) -> int
    decreases s.len() - c,
{
    if p.len() == 0 || c < 0 || c + p.len() > s.len() {
        -1
    } else if s.subrange(c, c + p.len()) == p {
        c
    } else {
        first_at(s, p, c + 1)
    }
}

/// The last position at or before `c` where `p` occurs in `s`, or -1.
pub open spec fn last_from(s: Seq<char>, p: Seq<char>, c: int) -> int
    decreases c + 1,
{
    if p.len() == 0 || c < 0 {
        -1
    } else if c + p.len() <= s.len() && s.subrange(c, c + p.len()) == p {
        c
    } else {
        last_from(s, p, c - 1)
    }
}

/// The last position where `p` occurs in `s`, or -1.
pub open spec fn last_at(s: Seq<char>, p: Seq<char>) -> int {
    last_from(s, p, s.len() - p.len())
}

pub proof fn lemma_first_at(s: Seq<char>, p: Seq<char>, c: int)
    ensures
        first_at(s, p, c) == -1 || (0 <= c <= first_at(s, p, c) && first_at(s, p, c) + p.len() <= s.len()),
    decreases s.len() - c,
{
    if !(p.len() == 0 || c < 0 || c + p.len() > s.len()) && s.subrange(c, c + p.len()) != p {
        lemma_first_at(s, p, c + 1);
    }
}

pub proof fn lemma_last_from(s: Seq<char>, p: Seq<char>, c: int)
    ensures
        last_from(s, p, c) == -1 || (0 <= last_from(s, p, c) <= c && last_from(s, p, c) + p.len()
            <= s.len()),
    decreases c + 1,
{
    if !(p.len() == 0 || c < 0) && !(c + p.len() <= s.len() && s.subrange(c, c + p.len()) == p) {
        lemma_last_from(s, p, c - 1);
    }
}

/// Whether `p` occurs in `s` at position `i`.
pub fn chars_occur_at(s: &Vec<char>, p: &Vec<char>, i: usize) -> (b: bool)
    requires
        i + p@.len() <= s@.len(),
    ensures
        b == (s@.subrange(i as int, i + p@.len()) == p@),
{
    let m = p.len();
    let n = s.len();
    let mut k: usize = 0;
    while k < m
        invariant
            m == p@.len(),
            n == s@.len(),
            i + m <= n,
            k <= m,
            forall|j: int| 0 <= j < k ==> s@[i + j] == p@[j],
        decreases m - k,
    {
        if s[i + k] != p[k] {
            assert(s@.subrange(i as int, i + m)[k as int] != p@[k as int]);
            return false;
        }
        k += 1;
    }
    assert(s@.subrange(i as int, i + m) =~= p@);
    true
}

/// Where `p` first occurs in `s` at or after `c`.
pub fn find_chars(s: &Vec<char>, p: &Vec<char>, c: usize) -> (r: Option<usize>)
    ensures
        r matches Some(k) ==> k == first_at(s@, p@, c as int),
        r is None ==> first_at(s@, p@, c as int) == -1,
{
    let n = s.len();
    let m = p.len();
    if m == 0 {
        return None;
    }
    let mut k: usize = c;
    while k <= n && m <= n - k
        invariant
            n == s@.len(),
            m == p@.len(),
            m > 0,
            c <= k,
            first_at(s@, p@, c as int) == first_at(s@, p@, k as int),
        decreases n - k,
    {
        if chars_occur_at(s, p, k) {
            return Some(k);
        }
        k += 1;
    }
    None
}

/// Where `p` last occurs in `s`.
pub fn rfind_chars(s: &Vec<char>, p: &Vec<char>) -> (r: Option<usize>)
    ensures
        r matches Some(k) ==> k == last_at(s@, p@),
        r is None ==> last_at(s@, p@) == -1,
{
    let n = s.len();
    let m = p.len();
    if m == 0 || m > n {
        return None;
    }
    let mut k: usize = n - m;
    loop
        invariant
            n == s@.len(),
            m == p@.len(),
            0 < m <= n,
            k + m <= n,
            last_at(s@, p@) == last_from(s@, p@, k as int),
        decreases k,
    {
        if chars_occur_at(s, p, k) {
            return Some(k);
        }
        if k == 0 {
            assert(last_from(s@, p@, -1) == -1);
            return None;
        }
        k -= 1;
    }
}

/// The characters of `s` from `a` to `b`.
pub fn sub_chars(s: &Vec<char>, a: usize, b: usize) -> (r: Vec<char>)
    requires
        a <= b <= s@.len(),
    ensures
        r@ == s@.subrange(a as int, b as int),
{
    let mut r: Vec<char> = Vec::new();
    let mut i: usize = a;
    while i < b
        invariant
            a <= i <= b <= s@.len(),
            r@ == s@.subrange(a as int, i as int),
        decreases b - i,
    {
        r.push(s[i]);
        assert(s@.subrange(a as int, i as int).push(s@[i as int]) =~= s@.subrange(a as int, i + 1));
        i += 1;
    }
    r
}

/// `base` joined with a relative name, as `Path::join` joins them: with a
/// separator between, unless `base` is empty or already ends with one.
pub open spec fn join_path(base: Seq<char>, name: Seq<char>) -> Seq<char> {
    if base.len() == 0 {
        name
    } else if base.last() == '/' {
        base + name
    } else {
        base + seq!['/'] + name
    }
}

/// `Path::join` of a relative name onto `base`.
pub fn join(base: &str, name: &str) -> (p: String)
    ensures
        p@ == join_path(base@, name@),
{
    let chars = chars_of(base);
    let n = chars.len();
    if n == 0 {
        name.to_owned()
    } else if chars[n - 1] == '/' {
        base.to_owned().concat(name)
    } else {
        let mut slash: Vec<char> = Vec::new();
        slash.push('/');
        let with_slash = base.to_owned().concat(string_from_chars(&slash).as_str());
        assert(with_slash@ =~= base@ + seq!['/']);
        with_slash.concat(name)
    }
}

} // verus!
