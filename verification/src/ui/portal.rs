//! Talking to xdg-desktop-portal.
//!
//! A portal method returns a `Request` object path, and the real result
//! arrives later as a `Response` signal on that path. The application
//! subscribes before it calls, so a fast reply cannot beat the subscription.
//! Where that path is, what the request's token looks like, and the promise
//! that the caller hears back exactly once are kept here.

use vstd::prelude::*;

use crate::text::{chars_of, decimal, push_decimal, string_from_chars};

verus! {

pub const NAME: &'static str = "org.freedesktop.portal.Desktop";

pub const PATH: &'static str = "/org/freedesktop/portal/desktop";

/// The portal's own response codes.
pub const SUCCESS: u32 = 0;

pub const CANCELLED: u32 = 1;

/// A request token: the prefix, then a number the caller picked at random.
pub fn token(prefix: &str, n: u32) -> (t: String)
    ensures
        t@ == prefix@ + decimal(n as nat),
{
    let mut digits: Vec<char> = Vec::new();
    push_decimal(&mut digits, n as u64);
    prefix.to_owned().concat(string_from_chars(&digits).as_str())
}

/// `s` without the colons it starts with.
pub open spec fn without_leading_colons(s: Seq<char>) -> Seq<char>
    decreases s.len(),
{
    if s.len() > 0 && s[0] == ':' {
        without_leading_colons(s.drop_first())
    } else {
        s
    }
}

/// A connection's unique bus name as it appears in an object path: leading
/// colons dropped and every dot an underscore.
pub open spec fn sender_part(unique: Seq<char>) -> Seq<char> {
    let t = without_leading_colons(unique);
    Seq::new(t.len(), |i: int| if t[i] == '.' { '_' } else { t[i] })
}

/// Where the `Response` for a request will arrive.
pub open spec fn spec_response_path(unique: Seq<char>, handle_token: Seq<char>) -> Seq<char> {
    "/org/freedesktop/portal/desktop/request/"@ + sender_part(unique) + "/"@ + handle_token
}

proof fn lemma_skip_colons(s: Seq<char>, a: int)
    requires
        0 <= a <= s.len(),
        forall|k: int| 0 <= k < a ==> s[k] == ':',
    ensures
        without_leading_colons(s) == without_leading_colons(s.skip(a)),
    decreases a,
{
    if a > 0 {
        assert(s.skip(1) =~= s.drop_first());
        lemma_skip_colons(s.drop_first(), a - 1);
        assert(s.drop_first().skip(a - 1) =~= s.skip(a));
    } else {
        assert(s.skip(0) =~= s);
    }
}

/// Where the `Response` for a request carrying `handle_token` will arrive,
/// for the connection whose unique name is `unique`.
pub fn response_path(unique: &str, handle_token: &str) -> (p: String)
    ensures
        p@ == spec_response_path(unique@, handle_token@),
{
    let chars = chars_of(unique);
    let n = chars.len();
    let mut a: usize = 0;
    while a < n && chars[a] == ':'
        invariant
            n == chars@.len(),
            a <= n,
            forall|k: int| 0 <= k < a ==> chars@[k] == ':',
        decreases n - a,
    {
        a += 1;
    }
    let ghost rest = chars@.skip(a as int);
    proof {
        lemma_skip_colons(chars@, a as int);
        assert(without_leading_colons(rest) == rest);
    }
    let mut sender: Vec<char> = Vec::new();
    let mut i: usize = a;
    while i < n
        invariant
            n == chars@.len(),
            a <= i <= n,
            rest == chars@.skip(a as int),
            sender@ == Seq::new(
                (i - a) as nat,
                |j: int| if rest[j] == '.' { '_' } else { rest[j] },
            ),
        decreases n - i,
    {
        let c = chars[i];
        sender.push(if c == '.' { '_' } else { c });
        assert(sender@ =~= Seq::new(
            (i + 1 - a) as nat,
            |j: int| if rest[j] == '.' { '_' } else { rest[j] },
        ));
        i += 1;
    }
    assert(sender@ =~= sender_part(unique@));
    "/org/freedesktop/portal/desktop/request/".to_owned().concat(
        string_from_chars(&sender).as_str(),
    ).concat("/").concat(handle_token)
}

/// A portal request waiting for its answer.
///
/// It can end two ways: the `Response` signal arrives, or the method call
/// itself is refused and no `Response` will ever come. Whichever comes first
/// is delivered to the caller; the other finds the request closed. So the
/// caller hears back exactly once.
pub struct Pending {
    open: bool,
}

impl Pending {
    pub closed spec fn is_open(&self) -> bool {
        self.open
    }

    /// A request just made, not yet answered.
    pub fn new() -> (p: Self)
        ensures
            p.is_open(),
    {
        Pending { open: true }
    }

    /// The request ended one way or the other. The answer says whether this
    /// is the first ending, and so whether to tell the caller; afterwards the
    /// request is closed, and every later ending is told no.
    pub fn close(&mut self) -> (first: bool)
        ensures
            first == old(self).is_open(),
            !final(self).is_open(),
    {
        let first = self.open;
        self.open = false;
        first
    }
}

} // verus!
