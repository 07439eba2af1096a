//! Reading a request of the local API: its path, its query, its headers, and
//! what the sign-in, setup, audit and report endpoints take from them.

use crate::codec::{base64_read, base64_reading, hex_digit, hex_digit_value};
use crate::conditions::{all_single, asks, lemma_asks, lemma_joined_few};
use crate::rate_limit::{RateLimiter, recent, wait_seconds};
use crate::reals::{real_bits, real_of};
use crate::text::{
    ascii_lowered, begins, cat, find, find_from, is_empty, joined, keep_nonempty, nonempty, opt_view, parse_i64, parse_u64, pieces, same,
    same_ignoring_case, slice_text, split, starts_with, to_chars, u64_text, unsigned_of, views,
};
use crate::value::{Record, ValueView, get_of, text_or_empty};
use vstd::prelude::*;

verus! {

// ---------------------------------------------------------------------------
// The path and the query
// ---------------------------------------------------------------------------

/// The path of a request: what stands before the first `?`.
pub open spec fn path_of(url: Seq<char>) -> Seq<char> {
    url.take(find(url, '?'))
}

/// The segments of a request's path; empty ones do not count.
pub fn path_parts(url: &str) -> (parts: Vec<String>)
    ensures
        views(parts@) == nonempty(pieces(path_of(url@), '/')),
{
    let v = to_chars(url);
    let k: usize = find_from(&v, 0, '?');
    assert(v@.skip(0) =~= v@);
    let path = slice_text(&v, 0, k);
    assert(path@ =~= path_of(url@));
    let all = split(path.as_str(), '/');
    keep_nonempty(&all)
}

/// The byte that one or two hexadecimal digits write; a plus sign may stand
/// before a single one.
pub open spec fn hex_byte(h: Seq<char>) -> Option<nat> {
    let body = if h.len() > 0 && h[0] == '+' {
        h.skip(1)
    } else {
        h
    };
    if body.len() == 1 {
        hex_digit(body[0])
    } else if body.len() == 2 && hex_digit(body[0]) is Some && hex_digit(body[1]) is Some {
        Some(hex_digit(body[0])->0 * 16 + hex_digit(body[1])->0)
    } else {
        None
    }
}

/// A query value with its escapes resolved: `+` is a space, `%` and the two
/// characters after it are one byte, read as the character of that number.
/// An escape that is no byte is dropped.
pub open spec fn decoded(s: Seq<char>) -> Seq<char>
    decreases s.len(),
{
    if s.len() == 0 {
        s
    } else if s[0] == '+' {
        seq![' '] + decoded(s.skip(1))
    } else if s[0] == '%' {
        let rest = s.skip(1);
        let taken: int = if rest.len() < 2 {
            rest.len() as int
        } else {
            2
        };
        match hex_byte(rest.take(taken)) {
            Some(b) => seq![b as char] + decoded(rest.skip(taken)),
            None => decoded(rest.skip(taken)),
        }
    } else {
        seq![s[0]] + decoded(s.skip(1))
    }
}

fn hex_byte_value(v: &Vec<char>, lo: usize, hi: usize) -> (r: Option<u8>)
    requires
        lo <= hi <= v@.len(),
        hi - lo <= 2,
    ensures
        match r {
            Some(b) => hex_byte(v@.subrange(lo as int, hi as int)) == Some(b as nat),
            None => hex_byte(v@.subrange(lo as int, hi as int)) is None,
        },
{
    let ghost h = v@.subrange(lo as int, hi as int);
    if lo == hi {
        return None;
    }
    let first: usize = if v[lo] == '+' {
        lo + 1
    } else {
        lo
    };
    if first == hi {
        return None;
    }
    if hi - first == 1 {
        return hex_digit_value(v[first]);
    }
    match (hex_digit_value(v[first]), hex_digit_value(v[first + 1])) {
        (Some(a), Some(b)) => Some(a * 16 + b),
        _ => None,
    }
}

/// A query value with its escapes resolved.
pub fn urlish_decode(s: &str) -> (r: String)
    ensures
        r@ == decoded(s@),
{
    let v = to_chars(s);
    let mut r = String::new();
    let mut i: usize = 0;
    assert(v@.skip(0) =~= v@);
    assert(r@ + decoded(v@.skip(0)) =~= decoded(s@));
    while i < v.len()
        invariant
            v@ == s@,
            i <= v@.len(),
            r@ + decoded(v@.skip(i as int)) == decoded(s@),
        decreases v@.len() - i,
    {
        let c: char = v[i];
        let ghost rest = v@.skip(i as int);
        let ghost before = r@;
        assert(rest[0] == c);
        assert(rest.skip(1) =~= v@.skip(i + 1));
        if c == '+' {
            r.push(' ');
            i = i + 1;
            assert(r@ + decoded(v@.skip(i as int)) =~= before + (seq![' '] + decoded(v@.skip(i as int))));
        } else if c == '%' {
            let lo: usize = i + 1;
            let hi: usize = if v.len() - lo < 2 {
                v.len()
            } else {
                lo + 2
            };
            assert(v@.skip(lo as int).take(hi - lo) =~= v@.subrange(lo as int, hi as int));
            assert(v@.skip(lo as int).skip(hi - lo) =~= v@.skip(hi as int));
            match hex_byte_value(&v, lo, hi) {
                Some(b) => {
                    let ch: char = b as char;
                    r.push(ch);
                    assert(r@ + decoded(v@.skip(hi as int)) =~= before + (seq![ch] + decoded(v@.skip(hi as int))));
                },
                None => {},
            }
            i = hi;
        } else {
            r.push(c);
            i = i + 1;
            assert(r@ + decoded(v@.skip(i as int)) =~= before + (seq![c] + decoded(v@.skip(i as int))));
        }
    }
    assert(v@.skip(v@.len() as int) =~= Seq::<char>::empty());
    assert(r@ + decoded(v@.skip(i as int)) =~= r@);
    r
}

/// The parameters of the pieces of a query: a piece with a `=` sets the name
/// before the first one to the decoded text after it. The last of several
/// with one name counts.
pub open spec fn params_of(list: Seq<Seq<char>>) -> Map<Seq<char>, ValueView>
    decreases list.len(),
{
    if list.len() == 0 {
        Map::empty()
    } else {
        let before = params_of(list.drop_last());
        let piece = list.last();
        let k = find(piece, '=');
        if k < piece.len() {
            before.insert(piece.take(k), ValueView::Text(decoded(piece.skip(k + 1))))
        } else {
            before
        }
    }
}

/// The parameters of a request: those after the first `?`.
pub open spec fn query_of(url: Seq<char>) -> Map<Seq<char>, ValueView> {
    let k = find(url, '?');
    if k < url.len() {
        params_of(pieces(url.skip(k + 1), '&'))
    } else {
        Map::empty()
    }
}

/// The parameters of a request.
pub fn query_params(url: &str) -> (q: Record)
    ensures
        q@ == query_of(url@),
{
    let mut q = Record::new();
    let v = to_chars(url);
    let k: usize = find_from(&v, 0, '?');
    assert(v@.skip(0) =~= v@);
    if k >= v.len() {
        return q;
    }
    let query = slice_text(&v, k + 1, v.len());
    assert(query@ =~= url@.skip(k + 1));
    let list = split(query.as_str(), '&');
    let mut i: usize = 0;
    assert(views(list@).take(0) =~= Seq::<Seq<char>>::empty());
    while i < list.len()
        invariant
            i <= list@.len(),
            q@ == params_of(views(list@).take(i as int)),
        decreases list@.len() - i,
    {
        proof {
            let l = views(list@).take(i + 1);
            assert(l.drop_last() =~= views(list@).take(i as int));
            assert(l.last() == list@[i as int]@);
        }
        let p = to_chars(list[i].as_str());
        let e: usize = find_from(&p, 0, '=');
        assert(p@.skip(0) =~= p@);
        if e < p.len() {
            let name = slice_text(&p, 0, e);
            let value = slice_text(&p, e + 1, p.len());
            assert(name@ =~= p@.take(e as int));
            assert(value@ =~= p@.skip(e + 1));
            let text = urlish_decode(value.as_str());
            q.insert_text(name.as_str(), text.as_str());
        }
        i = i + 1;
    }
    assert(views(list@).take(list@.len() as int) =~= views(list@));
    q
}

/// A value without escapes is what it says.
pub proof fn law_plain_values_stay(s: Seq<char>)
    requires
        forall|i: int| 0 <= i < s.len() ==> s[i] != '+' && s[i] != '%',
    ensures
        decoded(s) == s,
    decreases s.len(),
{
    if s.len() > 0 {
        law_plain_values_stay(s.skip(1));
        assert(seq![s[0]] + s.skip(1) =~= s);
    }
}

/// Slashes at the start, at the end or in a row do not change a path.
pub proof fn law_extra_slashes_do_not_matter(list: Seq<Seq<char>>, i: int)
    requires
        0 <= i <= list.len(),
    ensures
        nonempty(list.insert(i, Seq::<char>::empty())) == nonempty(list),
    decreases list.len(),
{
    let with = list.insert(i, Seq::<char>::empty());
    if i == list.len() {
        assert(with.drop_last() =~= list);
    } else {
        law_extra_slashes_do_not_matter(list.drop_last(), i);
        assert(with.drop_last() =~= list.drop_last().insert(i, Seq::<char>::empty()));
        assert(with.last() == list.last());
    }
}

// ---------------------------------------------------------------------------
// Headers
// ---------------------------------------------------------------------------

/// A header of a request.
#[derive(Debug)]
pub struct HeaderLine {
    pub name: String,
    pub value: String,
}

/// The value of the first header of that name, whatever the case of its
/// letters.
pub open spec fn header_of(headers: Seq<HeaderLine>, name: Seq<char>) -> Option<Seq<char>>
    decreases headers.len(),
{
    if headers.len() == 0 {
        None
    } else if ascii_lowered(headers[0].name@) == ascii_lowered(name) {
        Some(headers[0].value@)
    } else {
        header_of(headers.skip(1), name)
    }
}

/// The value of the first header of that name, whatever the case of its
/// letters.
pub fn header_value(headers: &Vec<HeaderLine>, name: &str) -> (r: Option<String>)
    ensures
        opt_view(r) == header_of(headers@, name@),
{
    let mut i: usize = 0;
    assert(headers@.skip(0) =~= headers@);
    while i < headers.len()
        invariant
            i <= headers@.len(),
            header_of(headers@.skip(i as int), name@) == header_of(headers@, name@),
        decreases headers@.len() - i,
    {
        assert(headers@.skip(i as int)[0] == headers@[i as int]);
        assert(headers@.skip(i as int).skip(1) =~= headers@.skip(i + 1));
        if same_ignoring_case(headers[i].name.as_str(), name) {
            return Some(headers[i].value.clone());
        }
        i = i + 1;
    }
    None
}

/// The token of an `Authorization` header: what follows `Bearer ` exactly.
pub fn bearer_token(header: &str) -> (r: Option<String>)
    ensures
        match r {
            Some(t) => header@ == "Bearer "@ + t@,
            None => !begins(header@, "Bearer "@),
        },
{
    if !starts_with(header, "Bearer ") {
        return None;
    }
    let v = to_chars(header);
    proof {
        reveal_strlit("Bearer ");
    }
    let t = slice_text(&v, 7, v.len());
    assert(header@ =~= "Bearer "@ + t@);
    Some(t)
}

// ---------------------------------------------------------------------------
// Refusals
// ---------------------------------------------------------------------------

/// An answer that is not success: its status and its sentence.
#[derive(Debug)]
pub struct Refusal {
    pub status: u16,
    pub text: String,
}

impl View for Refusal {
    type V = (u16, Seq<char>);

    open spec fn view(&self) -> (u16, Seq<char>) {
        (self.status, self.text@)
    }
}

fn refuse<T>(status: u16, text: &str) -> (r: Result<T, Refusal>)
    ensures
        r matches Err(e) && e@ == (status, text@),
{
    Err(Refusal { status, text: text.to_owned() })
}

// ---------------------------------------------------------------------------
// Sign-in and recovery
// ---------------------------------------------------------------------------

/// What an attempt is for.
#[derive(Clone, Copy, PartialEq, Eq, Structural, Debug)]
pub enum Attempt {
    Login,
    SecurityQuestions,
    AdminCode,
}

/// What the attempts are counted under: a sign-in and the security questions
/// by business and user, the admin code by business alone.
pub open spec fn attempt_key(kind: Attempt, business: Seq<char>, username: Seq<char>) -> Seq<char> {
    match kind {
        Attempt::Login => "login:"@ + business + ":"@ + username,
        Attempt::SecurityQuestions => "recover-sq:"@ + business + ":"@ + username,
        Attempt::AdminCode => "recover-admin:"@ + business,
    }
}

/// The sentence for too many attempts.
pub open spec fn too_many(kind: Attempt, seconds: u64) -> Seq<char> {
    (if kind == Attempt::Login {
        "too many login attempts, try again in "@
    } else {
        "too many recovery attempts, try again in "@
    }) + crate::text::decimal(seconds as nat) + " seconds"@
}

/// The attempts that count against a key at that time.
pub open spec fn counted(limiter: &RateLimiter, key: Seq<char>, now: u64) -> Seq<u64> {
    recent(limiter.on_record(key), now, limiter.window())
}

/// Why an attempt may not go ahead, where it may not: there must be a
/// business, and fewer attempts than allowed.
pub open spec fn attempt_refusal(
    limiter: &RateLimiter,
    kind: Attempt,
    business: Option<Seq<char>>,
    username: Seq<char>,
    now: u64,
) -> Option<(u16, Seq<char>)> {
    match business {
        None => Some((400u16, "X-Business-Id header required"@)),
        Some(b) => {
            let kept = counted(limiter, attempt_key(kind, b, username), now);
            if kept.len() >= limiter.limit() {
                Some((429u16, too_many(kind, wait_seconds(kept[0], now, limiter.window()))))
            } else {
                None
            }
        },
    }
}

/// Records an attempt and gives the key that it counts under, or refuses it.
pub fn begin_attempt(
    limiter: &mut RateLimiter,
    kind: Attempt,
    business: &Option<String>,
    username: &str,
    now: u64,
) -> (r: Result<String, Refusal>)
    requires
        old(limiter).well_formed(),
    ensures
        final(limiter).well_formed(),
        final(limiter).limit() == old(limiter).limit(),
        final(limiter).window() == old(limiter).window(),
        match r {
            Ok(key) => {
                &&& attempt_refusal(old(limiter), kind, opt_view(*business), username@, now) is None
                &&& key@ == attempt_key(kind, opt_view(*business)->0, username@)
                &&& final(limiter).on_record(key@) == counted(old(limiter), key@, now).push(now)
            },
            Err(e) => {
                &&& attempt_refusal(old(limiter), kind, opt_view(*business), username@, now) == Some(e@)
                &&& *business matches Some(b) ==> {
                    let key = attempt_key(kind, b@, username@);
                    final(limiter).on_record(key) == counted(old(limiter), key, now)
                }
            },
        },
        forall|other: Seq<char>|
            (*business is None || other != attempt_key(kind, opt_view(*business)->0, username@))
                ==> #[trigger] final(limiter).on_record(other) == old(limiter).on_record(other),
{
    let b = match business {
        None => {
            return refuse(400, "X-Business-Id header required");
        },
        Some(b) => b,
    };
    let mut key = match kind {
        Attempt::Login => "login:".to_owned(),
        Attempt::SecurityQuestions => "recover-sq:".to_owned(),
        Attempt::AdminCode => "recover-admin:".to_owned(),
    };
    key.append(b.as_str());
    if kind != Attempt::AdminCode {
        key.append(":");
        key.append(username);
    }
    match limiter.check(key.as_str(), now) {
        Ok(()) => Ok(key),
        Err(seconds) => {
            let mut text = if kind == Attempt::Login {
                "too many login attempts, try again in ".to_owned()
            } else {
                "too many recovery attempts, try again in ".to_owned()
            };
            text.append(u64_text(seconds).as_str());
            text.append(" seconds");
            Err(Refusal { status: 429, text })
        },
    }
}

/// What follows a sign-in attempt whose password was checked.
#[derive(Debug)]
pub enum LoginStep {
    /// The password was wrong: answered with 401 and this sentence.
    Wrong(Refusal),
    /// A code of the second factor is asked for: answered with 202.
    AskForCode,
    /// A session is opened.
    OpenSession,
}

/// Decides what follows a checked password. A right one forgets the attempts
/// of the key; a wrong one keeps them.
pub fn finish_login(
    limiter: &mut RateLimiter,
    key: &str,
    password_problem: &Option<String>,
    second_factor: bool,
) -> (step: LoginStep)
    requires
        old(limiter).well_formed(),
    ensures
        final(limiter).well_formed(),
        final(limiter).limit() == old(limiter).limit(),
        final(limiter).window() == old(limiter).window(),
        match *password_problem {
            Some(text) => {
                &&& step matches LoginStep::Wrong(e) && e@ == (401u16, text@)
                &&& *final(limiter) == *old(limiter)
            },
            None => {
                &&& step is AskForCode <==> second_factor
                &&& step is OpenSession <==> !second_factor
                &&& final(limiter).on_record(key@) == Seq::<u64>::empty()
                &&& forall|other: Seq<char>|
                    other != key@ ==> #[trigger] final(limiter).on_record(other) == old(limiter).on_record(other)
            },
        },
{
    match password_problem {
        Some(text) => LoginStep::Wrong(Refusal { status: 401, text: text.clone() }),
        None => {
            limiter.reset(key);
            if second_factor {
                LoginStep::AskForCode
            } else {
                LoginStep::OpenSession
            }
        },
    }
}

/// Decides what follows a recovery attempt. One that succeeded forgets the
/// attempts of the key; one that failed keeps them and is answered with 400.
pub fn finish_recovery(limiter: &mut RateLimiter, key: &str, problem: &Option<String>) -> (r: Result<(), Refusal>)
    requires
        old(limiter).well_formed(),
    ensures
        final(limiter).well_formed(),
        final(limiter).limit() == old(limiter).limit(),
        final(limiter).window() == old(limiter).window(),
        match *problem {
            Some(text) => {
                &&& r matches Err(e) && e@ == (400u16, text@)
                &&& *final(limiter) == *old(limiter)
            },
            None => {
                &&& r is Ok
                &&& final(limiter).on_record(key@) == Seq::<u64>::empty()
                &&& forall|other: Seq<char>|
                    other != key@ ==> #[trigger] final(limiter).on_record(other) == old(limiter).on_record(other)
            },
        },
{
    match problem {
        Some(text) => Err(Refusal { status: 400, text: text.clone() }),
        None => {
            limiter.reset(key);
            Ok(())
        },
    }
}

/// Sign-in, security questions and the admin code are counted under different
/// keys, and so are the sign-ins of different users of one business: being
/// locked out of one leaves the others open.
pub proof fn law_keys_of_other_kinds_differ(business: Seq<char>, username: Seq<char>, other: Seq<char>)
    ensures
        attempt_key(Attempt::Login, business, username) != attempt_key(
            Attempt::SecurityQuestions,
            business,
            username,
        ),
        attempt_key(Attempt::Login, business, username) != attempt_key(Attempt::AdminCode, business, username),
        attempt_key(Attempt::SecurityQuestions, business, username) != attempt_key(
            Attempt::AdminCode,
            business,
            username,
        ),
        other != username ==> attempt_key(Attempt::Login, business, username) != attempt_key(
            Attempt::Login,
            business,
            other,
        ),
{
    reveal_strlit("login:");
    reveal_strlit("recover-sq:");
    reveal_strlit("recover-admin:");
    let l = attempt_key(Attempt::Login, business, username);
    let q = attempt_key(Attempt::SecurityQuestions, business, username);
    let a = attempt_key(Attempt::AdminCode, business, username);
    assert(l[0] == 'l');
    assert(q[0] == 'r' && q[8] == 's');
    assert(a[0] == 'r' && a[8] == 'a');
    if other != username {
        let head = "login:"@ + business + ":"@;
        let o = attempt_key(Attempt::Login, business, other);
        assert(l.skip(head.len() as int) =~= username);
        assert(o.skip(head.len() as int) =~= other);
    }
}

// ---------------------------------------------------------------------------
// First setup
// ---------------------------------------------------------------------------

/// What the first setup of a business asks for.
#[derive(Debug)]
pub struct SetupRequest {
    pub business_name: String,
    pub currency: String,
    pub timezone: String,
    /// Empty where no business type was chosen.
    pub business_type: String,
    pub owner_username: String,
    pub owner_password: String,
    pub question1: String,
    pub answer1: String,
    pub question2: String,
    pub answer2: String,
}

/// The text of a name, or a default where it is missing or empty.
pub open spec fn text_or(m: Map<Seq<char>, ValueView>, name: Seq<char>, default: Seq<char>) -> Seq<char> {
    let t = text_or_empty(m, name);
    if t.len() == 0 {
        default
    } else {
        t
    }
}

/// The text of a name, or a default where it is missing or empty.
pub fn get_text_or(m: &Record, name: &str, default: &str) -> (r: String)
    ensures
        r@ == text_or(m@, name@, default@),
{
    let t = m.get_text(name);
    if is_empty(t.as_str()) {
        default.to_owned()
    } else {
        t
    }
}

/// Why a setup is refused, where it is: one business per install, all names
/// given, a password that the rules accept, both security questions answered.
pub open spec fn setup_refusal(
    has_business: bool,
    body: Option<Map<Seq<char>, ValueView>>,
    password_problem: Option<Seq<char>>,
) -> Option<(u16, Seq<char>)> {
    if has_business {
        Some((409u16, "setup has already been completed on this install"@))
    } else if body is None {
        Some((400u16, "invalid body"@))
    } else {
        let m = body->0;
        if text_or_empty(m, "business_name"@).len() == 0 || text_or_empty(m, "owner_username"@).len() == 0
            || text_or_empty(m, "owner_password"@).len() == 0 {
            Some((400u16, "business_name, owner_username, and owner_password are all required"@))
        } else if password_problem is Some {
            Some((400u16, "owner_password "@ + password_problem->0))
        } else if text_or_empty(m, "security_q1"@).len() == 0 || text_or_empty(m, "security_a1"@).len() == 0
            || text_or_empty(m, "security_q2"@).len() == 0 || text_or_empty(m, "security_a2"@).len() == 0 {
            Some(
                (
                    400u16,
                    "both security questions and answers are required — this is the account's forgot-password path"@,
                ),
            )
        } else {
            None
        }
    }
}

/// Reads a setup. `password_problem` is what the password rules find wrong
/// with the owner's password.
pub fn setup_request(has_business: bool, body: &Option<Record>, password_problem: &Option<String>) -> (r: Result<
    SetupRequest,
    Refusal,
>)
    ensures
        ({
            let refused = setup_refusal(
                has_business,
                match *body {
                    Some(m) => Some(m@),
                    None => None,
                },
                opt_view(*password_problem),
            );
            match r {
                Err(e) => refused == Some(e@),
                Ok(q) => {
                    let m = body->0@;
                    &&& refused is None
                    &&& sets_up(q, m)
                    &&& q.business_name@ == text_or_empty(m, "business_name"@)
                    &&& q.currency@ == text_or(m, "currency"@, "USD"@)
                    &&& q.timezone@ == text_or(m, "timezone"@, "UTC"@)
                    &&& q.business_type@ == text_or_empty(m, "business_type"@)
                    &&& q.owner_username@ == text_or_empty(m, "owner_username"@)
                    &&& q.owner_password@ == text_or_empty(m, "owner_password"@)
                    &&& q.question1@ == text_or_empty(m, "security_q1"@)
                    &&& q.answer1@ == text_or_empty(m, "security_a1"@)
                    &&& q.question2@ == text_or_empty(m, "security_q2"@)
                    &&& q.answer2@ == text_or_empty(m, "security_a2"@)
                },
            }
        }),
{
    if has_business {
        return refuse(409, "setup has already been completed on this install");
    }
    let m = match body {
        None => {
            return refuse(400, "invalid body");
        },
        Some(m) => m,
    };
    let q = SetupRequest {
        business_name: m.get_text("business_name"),
        currency: get_text_or(m, "currency", "USD"),
        timezone: get_text_or(m, "timezone", "UTC"),
        business_type: m.get_text("business_type"),
        owner_username: m.get_text("owner_username"),
        owner_password: m.get_text("owner_password"),
        question1: m.get_text("security_q1"),
        answer1: m.get_text("security_a1"),
        question2: m.get_text("security_q2"),
        answer2: m.get_text("security_a2"),
    };
    if is_empty(q.business_name.as_str()) || is_empty(q.owner_username.as_str()) || is_empty(
        q.owner_password.as_str(),
    ) {
        return refuse(400, "business_name, owner_username, and owner_password are all required");
    }
    match password_problem {
        Some(p) => {
            let mut text = "owner_password ".to_owned();
            text.append(p.as_str());
            return Err(Refusal { status: 400, text });
        },
        None => {},
    }
    if is_empty(q.question1.as_str()) || is_empty(q.answer1.as_str()) || is_empty(q.question2.as_str()) || is_empty(
        q.answer2.as_str(),
    ) {
        return refuse(
            400,
            "both security questions and answers are required — this is the account's forgot-password path",
        );
    }
    Ok(q)
}

// ---------------------------------------------------------------------------
// The audit log
// ---------------------------------------------------------------------------

/// The query for the audit log: the newest entries of a business first, of a
/// module or a record where one is named.
pub open spec fn audit_sql(by_module: bool, by_record: bool) -> Seq<char> {
    "SELECT id, user_id, module_id, action, record_id, details_json, timestamp FROM audit_log WHERE business_id = ?1"@
        + (if by_module && by_record {
        " AND module_id = ?2 AND record_id = ?3 ORDER BY timestamp DESC LIMIT ?4"@
    } else if by_module {
        " AND module_id = ?2 ORDER BY timestamp DESC LIMIT ?3"@
    } else if by_record {
        " AND record_id = ?2 ORDER BY timestamp DESC LIMIT ?3"@
    } else {
        " ORDER BY timestamp DESC LIMIT ?2"@
    })
}

/// The audit log shows the entries of one business alone, and where a module or a
/// record is named those of that module or record alone; the newest come first.
pub proof fn law_the_audit_log_shows_what_is_asked_for()
    ensures
        asks(
            audit_sql(true, true),
            "SELECT id, user_id, module_id, action, record_id, details_json, timestamp FROM audit_log"@,
            seq!["business_id = ?1"@, "module_id = ?2"@, "record_id = ?3"@],
            " ORDER BY timestamp DESC LIMIT ?4"@,
        ),
        asks(
            audit_sql(true, false),
            "SELECT id, user_id, module_id, action, record_id, details_json, timestamp FROM audit_log"@,
            seq!["business_id = ?1"@, "module_id = ?2"@],
            " ORDER BY timestamp DESC LIMIT ?3"@,
        ),
        asks(
            audit_sql(false, true),
            "SELECT id, user_id, module_id, action, record_id, details_json, timestamp FROM audit_log"@,
            seq!["business_id = ?1"@, "record_id = ?2"@],
            " ORDER BY timestamp DESC LIMIT ?3"@,
        ),
        asks(
            audit_sql(false, false),
            "SELECT id, user_id, module_id, action, record_id, details_json, timestamp FROM audit_log"@,
            seq!["business_id = ?1"@],
            " ORDER BY timestamp DESC LIMIT ?2"@,
        ),
{
    reveal_strlit("SELECT id, user_id, module_id, action, record_id, details_json, timestamp FROM audit_log");
    reveal_strlit("SELECT id, user_id, module_id, action, record_id, details_json, timestamp FROM audit_log WHERE business_id = ?1");
    reveal_strlit(" AND module_id = ?2 AND record_id = ?3 ORDER BY timestamp DESC LIMIT ?4");
    reveal_strlit("business_id = ?1");
    reveal_strlit("module_id = ?2");
    reveal_strlit("record_id = ?3");
    reveal_strlit(" AND ");
    reveal_strlit(" WHERE ");
    reveal_strlit(" ORDER BY timestamp DESC LIMIT ?4");
    let parts0 = seq!["business_id = ?1"@, "module_id = ?2"@, "record_id = ?3"@];
    let head0 = "SELECT id, user_id, module_id, action, record_id, details_json, timestamp FROM audit_log"@;
    lemma_joined_few(parts0[0], parts0[1], parts0[2], parts0[2], " AND "@);
    assert(audit_sql(true, true) =~= head0 + " WHERE "@ + joined(parts0, " AND "@) + " ORDER BY timestamp DESC LIMIT ?4"@);
    assert(all_single(parts0));
    lemma_asks(audit_sql(true, true), head0, parts0, " ORDER BY timestamp DESC LIMIT ?4"@);

    reveal_strlit("SELECT id, user_id, module_id, action, record_id, details_json, timestamp FROM audit_log");
    reveal_strlit("SELECT id, user_id, module_id, action, record_id, details_json, timestamp FROM audit_log WHERE business_id = ?1");
    reveal_strlit(" AND module_id = ?2 ORDER BY timestamp DESC LIMIT ?3");
    reveal_strlit("business_id = ?1");
    reveal_strlit("module_id = ?2");
    reveal_strlit(" AND ");
    reveal_strlit(" WHERE ");
    reveal_strlit(" ORDER BY timestamp DESC LIMIT ?3");
    let parts1 = seq!["business_id = ?1"@, "module_id = ?2"@];
    let head1 = "SELECT id, user_id, module_id, action, record_id, details_json, timestamp FROM audit_log"@;
    lemma_joined_few(parts1[0], parts1[1], parts1[1], parts1[1], " AND "@);
    assert(audit_sql(true, false) =~= head1 + " WHERE "@ + joined(parts1, " AND "@) + " ORDER BY timestamp DESC LIMIT ?3"@);
    assert(all_single(parts1));
    lemma_asks(audit_sql(true, false), head1, parts1, " ORDER BY timestamp DESC LIMIT ?3"@);

    reveal_strlit("SELECT id, user_id, module_id, action, record_id, details_json, timestamp FROM audit_log");
    reveal_strlit("SELECT id, user_id, module_id, action, record_id, details_json, timestamp FROM audit_log WHERE business_id = ?1");
    reveal_strlit(" AND record_id = ?2 ORDER BY timestamp DESC LIMIT ?3");
    reveal_strlit("business_id = ?1");
    reveal_strlit("record_id = ?2");
    reveal_strlit(" AND ");
    reveal_strlit(" WHERE ");
    reveal_strlit(" ORDER BY timestamp DESC LIMIT ?3");
    let parts2 = seq!["business_id = ?1"@, "record_id = ?2"@];
    let head2 = "SELECT id, user_id, module_id, action, record_id, details_json, timestamp FROM audit_log"@;
    lemma_joined_few(parts2[0], parts2[1], parts2[1], parts2[1], " AND "@);
    assert(audit_sql(false, true) =~= head2 + " WHERE "@ + joined(parts2, " AND "@) + " ORDER BY timestamp DESC LIMIT ?3"@);
    assert(all_single(parts2));
    lemma_asks(audit_sql(false, true), head2, parts2, " ORDER BY timestamp DESC LIMIT ?3"@);

    reveal_strlit("SELECT id, user_id, module_id, action, record_id, details_json, timestamp FROM audit_log");
    reveal_strlit("SELECT id, user_id, module_id, action, record_id, details_json, timestamp FROM audit_log WHERE business_id = ?1");
    reveal_strlit("business_id = ?1");
    reveal_strlit(" AND ");
    reveal_strlit(" WHERE ");
    reveal_strlit(" ORDER BY timestamp DESC LIMIT ?2");
    let parts3 = seq!["business_id = ?1"@];
    let head3 = "SELECT id, user_id, module_id, action, record_id, details_json, timestamp FROM audit_log"@;
    assert(parts3.drop_last() =~= Seq::<Seq<char>>::empty());
    assert(audit_sql(false, false) =~= head3 + " WHERE "@ + joined(parts3, " AND "@) + " ORDER BY timestamp DESC LIMIT ?2"@);
    assert(all_single(parts3));
    lemma_asks(audit_sql(false, false), head3, parts3, " ORDER BY timestamp DESC LIMIT ?2"@);
}

/// The entries that a query without a limit of its own gives.
pub const AUDIT_LIMIT: i64 = 100;

/// The most entries that a query gives.
pub const AUDIT_LIMIT_MAX: i64 = 1000;

/// A query for the audit log.
#[derive(Debug)]
pub struct AuditQuery {
    pub sql: String,
    /// The filters in the order of their places in the query.
    pub filters: Vec<String>,
    pub limit: i64,
}

/// The text of a parameter, where it is there.
pub open spec fn param(q: Map<Seq<char>, ValueView>, name: Seq<char>) -> Option<Seq<char>> {
    match get_of(q, name) {
        Some(v) => v.as_text(),
        None => None,
    }
}

/// The text of a parameter, where it is there.
pub fn get_param(q: &Record, name: &str) -> (r: Option<String>)
    ensures
        opt_view(r) == param(q@, name@),
{
    match q.get(name) {
        Some(v) => match v.as_str() {
            Some(s) => Some(s.to_owned()),
            None => None,
        },
        None => None,
    }
}

/// The text of a parameter, or a default where it is missing.
pub open spec fn param_or(q: Map<Seq<char>, ValueView>, name: Seq<char>, default: Seq<char>) -> Seq<char> {
    match param(q, name) {
        Some(s) => s,
        None => default,
    }
}

/// The text of a parameter, or a default where it is missing.
pub fn get_param_or(q: &Record, name: &str, default: &str) -> (r: String)
    ensures
        r@ == param_or(q@, name@, default@),
{
    match get_param(q, name) {
        Some(s) => s,
        None => default.to_owned(),
    }
}

/// The limit that a parameter asks for: an integer of 64 bits, the default
/// where it is none, and never above the most.
pub open spec fn audit_limit(text: Option<Seq<char>>) -> int {
    let asked = match text {
        Some(s) => match crate::text::int_of(s) {
            Some(n) => if i64::MIN <= n <= i64::MAX {
                n
            } else {
                AUDIT_LIMIT as int
            },
            None => AUDIT_LIMIT as int,
        },
        None => AUDIT_LIMIT as int,
    };
    if asked > AUDIT_LIMIT_MAX {
        AUDIT_LIMIT_MAX as int
    } else {
        asked
    }
}

/// Builds the query for the audit log from a request's parameters.
pub fn audit_query(q: &Record) -> (r: AuditQuery)
    ensures
        ({
            let module = param(q@, "module_id"@);
            let record = param(q@, "record_id"@);
            &&& r.sql@ == audit_sql(module is Some, record is Some)
            &&& r.limit == audit_limit(param(q@, "limit"@))
            &&& views(r.filters@) == (match (module, record) {
                (Some(m), Some(x)) => seq![m, x],
                (Some(m), None) => seq![m],
                (None, Some(x)) => seq![x],
                (None, None) => Seq::empty(),
            })
        }),
{
    let module = get_param(q, "module_id");
    let record = get_param(q, "record_id");
    let asked: i64 = match get_param(q, "limit") {
        Some(s) => match parse_i64(s.as_str()) {
            Some(n) => n,
            None => AUDIT_LIMIT,
        },
        None => AUDIT_LIMIT,
    };
    let limit: i64 = if asked > AUDIT_LIMIT_MAX {
        AUDIT_LIMIT_MAX
    } else {
        asked
    };
    let mut sql =
        "SELECT id, user_id, module_id, action, record_id, details_json, timestamp FROM audit_log WHERE business_id = ?1".to_owned();
    let mut filters: Vec<String> = Vec::new();
    match (module, record) {
        (Some(m), Some(x)) => {
            sql.append(" AND module_id = ?2 AND record_id = ?3 ORDER BY timestamp DESC LIMIT ?4");
            filters.push(m);
            filters.push(x);
            assert(views(filters@) =~= seq![m@, x@]);
        },
        (Some(m), None) => {
            sql.append(" AND module_id = ?2 ORDER BY timestamp DESC LIMIT ?3");
            filters.push(m);
            assert(views(filters@) =~= seq![m@]);
        },
        (None, Some(x)) => {
            sql.append(" AND record_id = ?2 ORDER BY timestamp DESC LIMIT ?3");
            filters.push(x);
            assert(views(filters@) =~= seq![x@]);
        },
        (None, None) => {
            sql.append(" ORDER BY timestamp DESC LIMIT ?2");
            assert(views(filters@) =~= Seq::<Seq<char>>::empty());
        },
    }
    AuditQuery { sql, filters, limit }
}

// ---------------------------------------------------------------------------
// Reports and forecasts
// ---------------------------------------------------------------------------

/// What a report is split by.
#[derive(Debug)]
pub enum Dimension {
    Time { time_field: String, bucket: String },
    Category { category_field: String },
    Whole,
}

/// What a report is split by.
pub enum DimensionView {
    Time(Seq<char>, Seq<char>),
    Category(Seq<char>),
    Whole,
}

impl View for Dimension {
    type V = DimensionView;

    open spec fn view(&self) -> DimensionView {
        match *self {
            Dimension::Time { time_field, bucket } => DimensionView::Time(time_field@, bucket@),
            Dimension::Category { category_field } => DimensionView::Category(category_field@),
            Dimension::Whole => DimensionView::Whole,
        }
    }
}

/// A report as a request asks for it.
#[derive(Debug)]
pub struct ReportRequest {
    pub measure: Option<String>,
    pub aggregation: String,
    pub dimension: Dimension,
    pub start: Option<String>,
    pub end: Option<String>,
}

/// Reads the report that a request asks for. A report by category names its
/// field; one by time is by month of creation unless it says otherwise.
pub fn build_report(q: &Record) -> (r: Result<ReportRequest, Refusal>)
    ensures
        ({
            let dimension = param(q@, "dimension"@);
            let field = param(q@, "field"@);
            match r {
                Err(e) => {
                    &&& dimension == Some("category"@) && field is None
                    &&& e@ == (400u16, "'field' is required for dimension=category"@)
                },
                Ok(p) => {
                    &&& !(dimension == Some("category"@) && field is None)
                    &&& reports_on(p, q@)
                    &&& p.dimension@ == (if dimension == Some("time"@) {
                        DimensionView::Time(
                            param_or(q@, "field"@, "created_at"@),
                            param_or(q@, "bucket"@, "month"@),
                        )
                    } else if dimension == Some("category"@) {
                        DimensionView::Category(field->0)
                    } else {
                        DimensionView::Whole
                    })
                    &&& opt_view(p.measure) == param(q@, "measure"@)
                    &&& p.aggregation@ == param_or(q@, "agg"@, "sum"@)
                    &&& opt_view(p.start) == param(q@, "start"@)
                    &&& opt_view(p.end) == param(q@, "end"@)
                },
            }
        }),
{
    proof {
        reveal_strlit("time");
        reveal_strlit("category");
        assert("time"@.len() != "category"@.len());
    }
    let dimension = match get_param(q, "dimension") {
        Some(d) => if same(d.as_str(), "time") {
            Dimension::Time {
                time_field: get_param_or(q, "field", "created_at"),
                bucket: get_param_or(q, "bucket", "month"),
            }
        } else if same(d.as_str(), "category") {
            match get_param(q, "field") {
                Some(category_field) => Dimension::Category { category_field },
                None => {
                    return refuse(400, "'field' is required for dimension=category");
                },
            }
        } else {
            Dimension::Whole
        },
        None => Dimension::Whole,
    };
    Ok(
        ReportRequest {
            measure: get_param(q, "measure"),
            aggregation: get_param_or(q, "agg", "sum"),
            dimension,
            start: get_param(q, "start"),
            end: get_param(q, "end"),
        },
    )
}

/// The label of a report's measure.
pub fn measure_label(q: &Record) -> (s: String)
    ensures
        s@ == param_or(q@, "measure"@, "count"@),
{
    get_param_or(q, "measure", "count")
}

/// How a forecast is made.
#[derive(Clone, Copy, PartialEq, Eq, Structural, Debug)]
pub enum ForecastMethod {
    /// The average of the last periods.
    MovingAverage { window: u64 },
    /// An average that weighs later periods more; the weight is given by its
    /// bits.
    Smoothing { weight: u64 },
}

/// The periods of a moving average where a request does not say.
pub const DEFAULT_WINDOW: u64 = 3;

/// The bits of one half, the weight where a request does not say.
pub const DEFAULT_WEIGHT: u64 = 0x3fe0_0000_0000_0000;

/// A forecast as a request asks for it.
#[derive(Debug)]
pub struct ForecastRequest {
    pub measure: String,
    pub bucket: String,
    pub method: ForecastMethod,
}

/// The method that a request asks for: smoothing where it says so, else a
/// moving average. A window or weight that is no such number is as good as
/// none.
pub open spec fn method_of(q: Map<Seq<char>, ValueView>) -> ForecastMethod {
    if param(q, "method"@) == Some("exponential_smoothing"@) {
        ForecastMethod::Smoothing {
            weight: match param(q, "alpha"@) {
                Some(s) => match real_of(s) {
                    Some(bits) => bits,
                    None => DEFAULT_WEIGHT,
                },
                None => DEFAULT_WEIGHT,
            },
        }
    } else {
        ForecastMethod::MovingAverage {
            window: match param(q, "window"@) {
                Some(s) => match unsigned_of(s) {
                    Some(n) => if n <= u64::MAX {
                        n as u64
                    } else {
                        DEFAULT_WINDOW
                    },
                    None => DEFAULT_WINDOW,
                },
                None => DEFAULT_WINDOW,
            },
        }
    }
}

/// Reads the forecast that a request asks for, which must name a measure.
pub fn forecast_request(q: &Record) -> (r: Result<ForecastRequest, Refusal>)
    ensures
        match r {
            Ok(f) => {
                &&& param(q@, "measure"@) == Some(f.measure@)
                &&& f.bucket@ == param_or(q@, "bucket"@, "month"@)
                &&& f.method == method_of(q@)
            },
            Err(e) => {
                &&& param(q@, "measure"@) is None
                &&& e@ == (400u16, "'measure' query param is required"@)
            },
        },
{
    let measure = match get_param(q, "measure") {
        Some(m) => m,
        None => {
            return refuse(400, "'measure' query param is required");
        },
    };
    let smooth = match get_param(q, "method") {
        Some(m) => same(m.as_str(), "exponential_smoothing"),
        None => false,
    };
    let method = if smooth {
        let weight: u64 = match get_param(q, "alpha") {
            Some(s) => match real_bits(s.as_str()) {
                Some(bits) => bits,
                None => DEFAULT_WEIGHT,
            },
            None => DEFAULT_WEIGHT,
        };
        ForecastMethod::Smoothing { weight }
    } else {
        let window: u64 = match get_param(q, "window") {
            Some(s) => match parse_u64(s.as_str()) {
                Some(n) => n,
                None => DEFAULT_WINDOW,
            },
            None => DEFAULT_WINDOW,
        };
        ForecastMethod::MovingAverage { window }
    };
    Ok(ForecastRequest { measure, bucket: get_param_or(q, "bucket", "month"), method })
}

// ---------------------------------------------------------------------------
// Backup and restore
// ---------------------------------------------------------------------------

/// Refuses the restore of a first setup where a business is already there.
pub fn restore_refusal(has_business: bool) -> (r: Option<Refusal>)
    ensures
        match r {
            Some(e) => {
                &&& has_business
                &&& e@ == (
                    409u16,
                    "this install already has a business set up — use Admin → Backup to restore from within the app instead"@,
                )
            },
            None => !has_business,
        },
{
    if has_business {
        Some(
            Refusal {
                status: 409,
                text: "this install already has a business set up — use Admin → Backup to restore from within the app instead".to_owned(),
            },
        )
    } else {
        None
    }
}

/// The passphrase of a request for a backup.
pub fn backup_passphrase(body: &Option<Record>) -> (r: Result<String, Refusal>)
    ensures
        match r {
            Ok(s) => *body is Some && param(body->0@, "passphrase"@) == Some(s@),
            Err(e) => {
                &&& *body is None || param(body->0@, "passphrase"@) is None
                &&& e@ == (400u16, "a passphrase is required to create a backup"@)
            },
        },
{
    let given = match body {
        Some(m) => get_param(m, "passphrase"),
        None => None,
    };
    match given {
        Some(s) => Ok(s),
        None => refuse(400, "a passphrase is required to create a backup"),
    }
}

/// The business type of a request for onboarding.
pub fn business_type_of(body: &Option<Record>) -> (r: Result<String, Refusal>)
    ensures
        match r {
            Ok(s) => *body is Some && param(body->0@, "business_type"@) == Some(s@),
            Err(e) => if *body is None {
                e@ == (400u16, "body must be JSON with 'business_type'"@)
            } else {
                &&& param(body->0@, "business_type"@) is None
                &&& e@ == (400u16, "'business_type' is required (retail, food, services, manufacturing)"@)
            },
        },
{
    match body {
        None => refuse(400, "body must be JSON with 'business_type'"),
        Some(m) => match get_param(m, "business_type") {
            Some(s) => Ok(s),
            None => refuse(400, "'business_type' is required (retail, food, services, manufacturing)"),
        },
    }
}

/// A spreadsheet that is to be imported.
#[derive(Debug)]
pub struct ImportFile {
    pub bytes: Vec<u8>,
    /// The field that rows are matched by, where the request names one.
    pub key_field: Option<String>,
}

/// Reads the spreadsheet of a request for an import, which is sent in base64.
pub fn import_file(body: &Option<Record>) -> (r: Result<ImportFile, Refusal>)
    ensures
        match r {
            Ok(f) => {
                &&& *body is Some && param(body->0@, "file_base64"@) is Some
                &&& base64_reading(param(body->0@, "file_base64"@)->0) == Ok::<Seq<u8>, Seq<char>>(f.bytes@)
                &&& opt_view(f.key_field) == param(body->0@, "key_field"@)
            },
            Err(e) => if *body is None {
                e@ == (400u16, "invalid body"@)
            } else {
                match param(body->0@, "file_base64"@) {
                    None => e@ == (400u16, "'file_base64' is required"@),
                    Some(s) => {
                        &&& base64_reading(s) is Err
                        &&& e@ == (400u16, "invalid base64 file data: "@ + base64_reading(s)->Err_0)
                    },
                }
            },
        },
{
    match body {
        None => refuse(400, "invalid body"),
        Some(m) => match get_param(m, "file_base64") {
            None => refuse(400, "'file_base64' is required"),
            Some(s) => match base64_read(s.as_str()) {
                Ok(bytes) => Ok(ImportFile { bytes, key_field: get_param(m, "key_field") }),
                Err(why) => refuse(400, cat("invalid base64 file data: ", why.as_str()).as_str()),
            },
        },
    }
}

// ---------------------------------------------------------------------------
// What a user may do, and what a question is
// ---------------------------------------------------------------------------

/// Those of a module's actions that a user may do, in order.
pub open spec fn allowed_actions(access: &crate::rbac::Access, module_id: Seq<char>, actions: Seq<Seq<char>>) -> Seq<
    Seq<char>,
>
    decreases actions.len(),
{
    if actions.len() == 0 {
        actions
    } else if crate::rbac::granted(access.permissions@, module_id, actions.last()) {
        allowed_actions(access, module_id, actions.drop_last()).push(actions.last())
    } else {
        allowed_actions(access, module_id, actions.drop_last())
    }
}

/// Those of a module's actions that a user may do, in order.
pub fn my_permissions(access: &crate::rbac::Access, module_id: &str, actions: &Vec<String>) -> (r: Vec<String>)
    ensures
        views(r@) == allowed_actions(access, module_id@, views(actions@)),
{
    let mut r: Vec<String> = Vec::new();
    let mut i: usize = 0;
    assert(views(actions@).take(0) =~= views(r@));
    while i < actions.len()
        invariant
            i <= actions@.len(),
            views(r@) == allowed_actions(access, module_id@, views(actions@).take(i as int)),
        decreases actions@.len() - i,
    {
        proof {
            let l = views(actions@).take(i + 1);
            assert(l.drop_last() =~= views(actions@).take(i as int));
            assert(l.last() == actions@[i as int]@);
        }
        let ghost before = views(r@);
        if crate::rbac::is_allowed(access, module_id, actions[i].as_str()) {
            r.push(actions[i].clone());
            assert(views(r@) =~= before.push(actions@[i as int]@));
        }
        i = i + 1;
    }
    assert(views(actions@).take(actions@.len() as int) =~= views(actions@));
    r
}

/// The question of a request to the assistant: a text that is not blank.
pub fn question_of(body: &Option<Record>) -> (r: Result<String, Refusal>)
    ensures
        match r {
            Ok(s) => *body is Some && param(body->0@, "question"@) == Some(s@) && !crate::text::blank(s@),
            Err(e) => if *body is None {
                e@ == (400u16, "body must be JSON with a 'question' field"@)
            } else {
                &&& e@ == (400u16, "'question' is required"@)
                &&& param(body->0@, "question"@) matches Some(s) ==> crate::text::blank(s)
            },
        },
{
    match body {
        None => refuse(400, "body must be JSON with a 'question' field"),
        Some(m) => match get_param(m, "question") {
            Some(s) => if crate::text::is_blank(s.as_str()) {
                refuse(400, "'question' is required")
            } else {
                Ok(s)
            },
            None => refuse(400, "'question' is required"),
        },
    }
}

// ---------------------------------------------------------------------------
// Laws of reading a request
// ---------------------------------------------------------------------------

/// What was escaped comes back: a byte that is written as a percent sign and two
/// hexadecimal digits is read as the character of that number, a plus as a space,
/// and any other character as itself; what follows is read on its own.
pub proof fn law_escapes_come_back(a: char, b: char, c: char, rest: Seq<char>)
    requires
        hex_digit(a) is Some && hex_digit(b) is Some,
        a != '+',
        c != '+' && c != '%',
    ensures
        decoded(seq!['%', a, b] + rest) == seq![(16 * hex_digit(a)->0 + hex_digit(b)->0) as char] + decoded(rest),
        decoded(seq!['+'] + rest) == seq![' '] + decoded(rest),
        decoded(seq![c] + rest) == seq![c] + decoded(rest),
{
    let s = seq!['%', a, b] + rest;
    assert(s.skip(1).take(2) =~= seq![a, b]);
    assert(s.skip(1).skip(2) =~= rest);
    let h = seq![a, b];
    assert(h[0] == a && h[1] == b);
    assert((seq!['+'] + rest).skip(1) =~= rest);
    assert((seq![c] + rest).skip(1) =~= rest);
}

/// A parameter has the value that stands behind its name, resolved; the last one of
/// a name counts, and the others stay as they are.
pub proof fn law_parameters_have_their_own_value(
    before: Seq<Seq<char>>,
    name: Seq<char>,
    value: Seq<char>,
    other: Seq<char>,
)
    requires
        forall|i: int| 0 <= i < name.len() ==> name[i] != '=',
        other != name,
    ensures
        params_of(before.push(name + seq!['='] + value)).contains_pair(name, ValueView::Text(decoded(value))),
        params_of(before.push(name + seq!['='] + value)).contains_key(other) == params_of(before).contains_key(other),
        params_of(before.push(name + seq!['='] + value))[other] == params_of(before)[other],
        params_of(before.push(name)) == params_of(before),
{
    let piece = name + seq!['='] + value;
    let all = before.push(piece);
    assert(all.drop_last() =~= before);
    crate::text::lemma_find_is(piece, '=', name.len() as int);
    assert(piece.take(name.len() as int) =~= name);
    assert(piece.skip(name.len() as int + 1) =~= value);
    assert(before.push(name).drop_last() =~= before);
    crate::text::lemma_find_is(name, '=', name.len() as int);
}

/// A header is found by its name in any letter case, and the first of that name
/// counts.
pub proof fn law_the_first_header_counts(headers: Seq<HeaderLine>, name: Seq<char>, k: int)
    requires
        0 <= k <= headers.len(),
        k < headers.len() ==> ascii_lowered(headers[k].name@) == ascii_lowered(name),
        forall|i: int| 0 <= i < k ==> ascii_lowered((#[trigger] headers[i]).name@) != ascii_lowered(name),
    ensures
        header_of(headers, name) == if k < headers.len() {
            Some(headers[k].value@)
        } else {
            None
        },
    decreases headers.len(),
{
    if headers.len() > 0 && k > 0 {
        assert(ascii_lowered(headers[0].name@) != ascii_lowered(name));
        let rest = headers.skip(1);
        assert forall|i: int| 0 <= i < k - 1 implies ascii_lowered((#[trigger] rest[i]).name@) != ascii_lowered(name) by {
            assert(rest[i] == headers[i + 1]);
        }
        law_the_first_header_counts(rest, name, k - 1);
    }
}

/// Who may do what of a list is told without gaps and without more: an action is
/// told where it is listed and permitted.
pub proof fn law_permitted_actions_are_told(
    access: &crate::rbac::Access,
    module_id: Seq<char>,
    actions: Seq<Seq<char>>,
    action: Seq<char>,
)
    ensures
        allowed_actions(access, module_id, actions).contains(action) <==> actions.contains(action)
            && crate::rbac::granted(access.permissions@, module_id, action),
    decreases actions.len(),
{
    let all = allowed_actions(access, module_id, actions);
    if actions.len() > 0 {
        let rest = actions.drop_last();
        let before = allowed_actions(access, module_id, rest);
        law_permitted_actions_are_told(access, module_id, rest, action);
        if before.contains(action) {
            let k = choose|k: int| 0 <= k < before.len() && before[k] == action;
            assert(all[k] == action);
            let j = choose|j: int| 0 <= j < rest.len() && rest[j] == action;
            assert(actions[j] == action);
        }
        if actions.contains(action) {
            let j = choose|j: int| 0 <= j < actions.len() && actions[j] == action;
            if j < rest.len() {
                assert(rest[j] == action);
            } else if crate::rbac::granted(access.permissions@, module_id, action) {
                assert(all[all.len() - 1] == action);
            }
        }
        if all.contains(action) {
            let k = choose|k: int| 0 <= k < all.len() && all[k] == action;
            if k < before.len() {
                assert(before[k] == action);
            } else {
                assert(actions[actions.len() - 1] == action);
            }
        }
    }
}

/// The audit log gives as many entries as asked for, never above a thousand, and a
/// hundred where nothing was asked for.
pub proof fn law_audit_limits(n: i64)
    ensures
        audit_limit(None) == 100,
        audit_limit(Some(crate::text::signed_decimal(n as int))) == if n <= 1000 {
            n as int
        } else {
            1000
        },
{
    let m: nat = if n < 0 {
        (-n) as nat
    } else {
        n as nat
    };
    let s = crate::text::signed_decimal(n as int);
    crate::text::lemma_decimal(m);
    let d = crate::text::decimal(m);
    assert(crate::text::is_digit(d[0]));
    if n < 0 {
        assert(s.skip(1) =~= d);
    }
    assert(crate::text::int_of(s) == Some(n as int));
}

/// An attempt is refused where no business is named, and where as many attempts
/// count already as are allowed; and in no other case.
pub proof fn law_attempts_are_refused_for_a_reason(
    limiter: &RateLimiter,
    kind: Attempt,
    business: Option<Seq<char>>,
    username: Seq<char>,
    now: u64,
)
    ensures
        attempt_refusal(limiter, kind, None, username, now) matches Some(e) && e.0 == 400,
        business matches Some(b) ==> {
            let key = match kind {
                Attempt::Login => "login:"@ + b + ":"@ + username,
                Attempt::SecurityQuestions => "recover-sq:"@ + b + ":"@ + username,
                Attempt::AdminCode => "recover-admin:"@ + b,
            };
            let kept = recent(limiter.on_record(key), now, limiter.window());
            &&& attempt_refusal(limiter, kind, business, username, now) is Some <==> kept.len() >= limiter.limit()
            &&& attempt_refusal(limiter, kind, business, username, now) matches Some(e) ==> e.0 == 429
        },
{
}

/// A setup goes through where there is no business yet, all names are given, the
/// password is accepted and both security questions are answered; and in no other
/// case.
pub proof fn law_when_a_setup_goes_through(
    has_business: bool,
    body: Option<Map<Seq<char>, ValueView>>,
    password_problem: Option<Seq<char>>,
)
    ensures
        ({
            let says = |name: Seq<char>| text_or_empty(body->0, name).len() > 0;
            setup_refusal(has_business, body, password_problem) is None <==> {
                &&& !has_business && body is Some && password_problem is None
                &&& says("business_name"@) && says("owner_username"@) && says("owner_password"@)
                &&& says("security_q1"@) && says("security_a1"@) && says("security_q2"@) && says("security_a2"@)
            }
        }),
{
}

/// Whether a setup is the one that a body asks for.
pub open spec fn sets_up(q: SetupRequest, m: Map<Seq<char>, ValueView>) -> bool {
    &&& q.business_name@ == text_or_empty(m, "business_name"@)
    &&& q.currency@ == text_or(m, "currency"@, "USD"@)
    &&& q.timezone@ == text_or(m, "timezone"@, "UTC"@)
    &&& q.business_type@ == text_or_empty(m, "business_type"@)
    &&& q.owner_username@ == text_or_empty(m, "owner_username"@)
    &&& q.owner_password@ == text_or_empty(m, "owner_password"@)
    &&& q.question1@ == text_or_empty(m, "security_q1"@)
    &&& q.answer1@ == text_or_empty(m, "security_a1"@)
    &&& q.question2@ == text_or_empty(m, "security_q2"@)
    &&& q.answer2@ == text_or_empty(m, "security_a2"@)
}

/// A setup is just what was sent: each text of the body is where its name says, and
/// the answers stand with their own questions. A business that says nothing else
/// counts in dollars and in universal time.
pub proof fn law_a_setup_is_what_was_sent(q: SetupRequest, m: Map<Seq<char>, ValueView>, s: Seq<char>)
    requires
        sets_up(q, m),
    ensures
        ({
            let says = |name: Seq<char>| m.contains_pair(name, ValueView::Text(s));
            &&& says("business_name"@) ==> q.business_name@ == s
            &&& says("currency"@) && s.len() > 0 ==> q.currency@ == s
            &&& says("timezone"@) && s.len() > 0 ==> q.timezone@ == s
            &&& says("business_type"@) ==> q.business_type@ == s
            &&& says("owner_username"@) ==> q.owner_username@ == s
            &&& says("owner_password"@) ==> q.owner_password@ == s
            &&& says("security_q1"@) ==> q.question1@ == s
            &&& says("security_a1"@) ==> q.answer1@ == s
            &&& says("security_q2"@) ==> q.question2@ == s
            &&& says("security_a2"@) ==> q.answer2@ == s
            &&& !m.contains_key("currency"@) ==> q.currency@ == "USD"@
            &&& !m.contains_key("timezone"@) ==> q.timezone@ == "UTC"@
        }),
{
}

/// Whether a report is the one that the parameters of a request ask for.
pub open spec fn reports_on(p: ReportRequest, q: Map<Seq<char>, ValueView>) -> bool {
    let dimension = param(q, "dimension"@);
    &&& p.dimension@ == (if dimension == Some("time"@) {
        DimensionView::Time(param_or(q, "field"@, "created_at"@), param_or(q, "bucket"@, "month"@))
    } else if dimension == Some("category"@) {
        DimensionView::Category(param(q, "field"@)->0)
    } else {
        DimensionView::Whole
    })
    &&& opt_view(p.measure) == param(q, "measure"@)
    &&& p.aggregation@ == param_or(q, "agg"@, "sum"@)
    &&& opt_view(p.start) == param(q, "start"@)
    &&& opt_view(p.end) == param(q, "end"@)
}

/// A report is over the measure, the aggregation and the range that were asked for,
/// from the start to the end; one by time is over the field and in the steps that
/// were asked for, by month of creation where nothing was.
pub proof fn law_a_report_is_what_was_asked_for(p: ReportRequest, q: Map<Seq<char>, ValueView>, s: Seq<char>)
    requires
        reports_on(p, q),
    ensures
        ({
            let asks = |name: Seq<char>, text: Seq<char>| q.contains_pair(name, ValueView::Text(text));
            &&& asks("measure"@, s) ==> opt_view(p.measure) == Some(s)
            &&& asks("agg"@, s) ==> p.aggregation@ == s
            &&& !q.contains_key("agg"@) ==> p.aggregation@ == "sum"@
            &&& asks("start"@, s) ==> opt_view(p.start) == Some(s)
            &&& asks("end"@, s) ==> opt_view(p.end) == Some(s)
            &&& !q.contains_key("start"@) ==> p.start is None
            &&& !q.contains_key("end"@) ==> p.end is None
            &&& asks("dimension"@, "time"@) && !q.contains_key("field"@) && !q.contains_key("bucket"@) ==> p.dimension@
                == DimensionView::Time("created_at"@, "month"@)
            &&& asks("dimension"@, "time"@) && asks("field"@, s) && !q.contains_key("bucket"@) ==> p.dimension@
                == DimensionView::Time(s, "month"@)
            &&& asks("dimension"@, "time"@) && asks("bucket"@, s) && !q.contains_key("field"@) ==> p.dimension@
                == DimensionView::Time("created_at"@, s)
            &&& asks("dimension"@, "category"@) && asks("field"@, s) ==> p.dimension@ == DimensionView::Category(s)
            &&& !q.contains_key("dimension"@) ==> p.dimension@ == DimensionView::Whole
        }),
{
    reveal_strlit("time");
    reveal_strlit("category");
    assert("time"@.len() == 4 && "category"@.len() == 8);
}

/// A forecast is by the method that was asked for, with the window or the weight that
/// was: a moving average over three periods where nothing was said.
pub proof fn law_a_forecast_is_what_was_asked_for(q: Map<Seq<char>, ValueView>, n: u64)
    ensures
        ({
            let asks = |name: Seq<char>, text: Seq<char>| q.contains_pair(name, ValueView::Text(text));
            &&& method_of(q) is Smoothing <==> asks("method"@, "exponential_smoothing"@)
            &&& !q.contains_key("method"@) && !q.contains_key("window"@) ==> method_of(q)
                == (ForecastMethod::MovingAverage { window: 3 })
            &&& !q.contains_key("method"@) && asks("window"@, crate::text::decimal(n as nat)) ==> method_of(q)
                == (ForecastMethod::MovingAverage { window: n })
            &&& asks("method"@, "exponential_smoothing"@) && !q.contains_key("alpha"@) ==> method_of(q)
                == (ForecastMethod::Smoothing { weight: 0x3fe0_0000_0000_0000 })
        }),
{
    crate::text::lemma_decimal(n as nat);
    let d = crate::text::decimal(n as nat);
    assert(crate::text::is_digit(d[0]));
}

/// An escape that is no byte is dropped, and what follows is read on its own.
pub proof fn law_broken_escapes_are_dropped(a: char, b: char, rest: Seq<char>)
    requires
        a != '+',
        hex_digit(a) is None || hex_digit(b) is None,
    ensures
        decoded(seq!['%', a, b] + rest) == decoded(rest),
{
    let s = seq!['%', a, b] + rest;
    assert(s.skip(1).take(2) =~= seq![a, b]);
    assert(s.skip(1).skip(2) =~= rest);
    let h = seq![a, b];
    assert(h[0] == a && h[1] == b);
}

} // verus!
