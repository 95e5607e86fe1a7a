//! The daily nCore check-in: signing in, keeping the session cookies, and
//! reading whether the visit counted.
use vstd::prelude::*;

use crate::models::TaskOutcome;
use crate::text::{
    chars_of, contains, contains_seq, find_char_from, join, join2, join3, seq_join, starts_with,
    starts_with_seq, strings_view, substring, trim_end_char, trim_end_matches_char,
};
use crate::text::lemma_find_char_from_bounds;

verus! {

/// The site address without trailing slashes.
pub fn normalize_base_url(base_url: &str) -> (r: String)
    ensures
        r@ == trim_end_char(base_url@, '/'),
{
    trim_end_matches_char(base_url, '/')
}

/// The address of the login form.
pub fn login_url(base_url: &str) -> (r: String)
    ensures
        r@ == base_url@ + "/login.php"@,
{
    join2(base_url, "/login.php")
}

/// A form field.
pub struct FormField {
    pub name: String,
    pub value: String,
}

/// The fields posted to the login form: Hungarian language, the credentials,
/// and a session that stays signed in.
pub fn login_form(username: &str, password: &str) -> (r: Vec<FormField>)
    ensures
        r@.map_values(|f: FormField| (f.name@, f.value@)) == seq![
            ("set_lang"@, "hu"@),
            ("submitted"@, "1"@),
            ("nev"@, username@),
            ("pass"@, password@),
            ("ne_leptessen_ki"@, "1"@),
        ],
{
    let mut v: Vec<FormField> = Vec::new();
    v.push(FormField { name: String::from_str("set_lang"), value: String::from_str("hu") });
    v.push(FormField { name: String::from_str("submitted"), value: String::from_str("1") });
    v.push(FormField { name: String::from_str("nev"), value: String::from_str(username) });
    v.push(FormField { name: String::from_str("pass"), value: String::from_str(password) });
    v.push(FormField { name: String::from_str("ne_leptessen_ki"), value: String::from_str("1") });
    assert(v@.map_values(|f: FormField| (f.name@, f.value@)) =~= seq![
        ("set_lang"@, "hu"@),
        ("submitted"@, "1"@),
        ("nev"@, username@),
        ("pass"@, password@),
        ("ne_leptessen_ki"@, "1"@),
    ]);
    v
}

/// The `name=value` part of a `Set-Cookie` header value: what precedes the first `;`.
pub open spec fn cookie_pair_of(set_cookie: Seq<char>) -> Seq<char> {
    match find_char_from(set_cookie, ';', 0) {
        Some(i) => set_cookie.subrange(0, i),
        None => set_cookie,
    }
}

/// The `Cookie` header that replays the cookies a login set.
pub open spec fn cookie_string_of(set_cookies: Seq<Seq<char>>) -> Seq<char> {
    seq_join(set_cookies.map_values(|c: Seq<char>| cookie_pair_of(c)), "; "@)
}

/// What a login answered with `set_cookies` gives: the cookies to replay,
/// or why the login failed (no cookies, or no `pass` cookie).
pub open spec fn login_cookies_of(set_cookies: Seq<Seq<char>>) -> Result<Seq<char>, Seq<char>> {
    if set_cookies.len() == 0 {
        Err("no cookies received - login likely failed"@)
    } else if !(exists|i: int| 0 <= i < set_cookies.len() && starts_with_seq(#[trigger] set_cookies[i], "pass="@)) {
        Err("no pass cookie received - login failed"@)
    } else {
        Ok(cookie_string_of(set_cookies))
    }
}

/// A login succeeds exactly when some cookie it set, wherever it stands in
/// the list, is the `pass` cookie; it then replays every cookie's
/// `name=value` part, joined by `; `. Whether it succeeds does not depend on
/// the order in which the cookies came.
pub proof fn login_needs_a_pass_cookie_anywhere(set_cookies: Seq<Seq<char>>, reordered: Seq<Seq<char>>)
    ensures
        forall|i: int|
            0 <= i < set_cookies.len() && starts_with_seq(#[trigger] set_cookies[i], "pass="@)
                ==> login_cookies_of(set_cookies) == Ok::<Seq<char>, Seq<char>>(
                seq_join(set_cookies.map_values(|c: Seq<char>| cookie_pair_of(c)), "; "@),
            ),
        (forall|i: int| 0 <= i < set_cookies.len() ==> !starts_with_seq(#[trigger] set_cookies[i], "pass="@))
            ==> login_cookies_of(set_cookies) is Err,
        set_cookies.to_multiset() == reordered.to_multiset() ==> (login_cookies_of(set_cookies) is Ok
            <==> login_cookies_of(reordered) is Ok),
{
    if set_cookies.to_multiset() == reordered.to_multiset() {
        set_cookies.to_multiset_ensures();
        reordered.to_multiset_ensures();
        if exists|i: int| 0 <= i < set_cookies.len() && starts_with_seq(#[trigger] set_cookies[i], "pass="@) {
            let i = choose|i: int| 0 <= i < set_cookies.len() && starts_with_seq(#[trigger] set_cookies[i], "pass="@);
            assert(set_cookies.contains(set_cookies[i]));
            assert(set_cookies.to_multiset().count(set_cookies[i]) > 0);
            assert(reordered.to_multiset().count(set_cookies[i]) > 0);
            assert(reordered.contains(set_cookies[i]));
            let j = choose|j: int| 0 <= j < reordered.len() && reordered[j] == set_cookies[i];
            assert(starts_with_seq(reordered[j], "pass="@));
        }
        if exists|j: int| 0 <= j < reordered.len() && starts_with_seq(#[trigger] reordered[j], "pass="@) {
            let j = choose|j: int| 0 <= j < reordered.len() && starts_with_seq(#[trigger] reordered[j], "pass="@);
            assert(reordered.contains(reordered[j]));
            assert(reordered.to_multiset().count(reordered[j]) > 0);
            assert(set_cookies.to_multiset().count(reordered[j]) > 0);
            assert(set_cookies.contains(reordered[j]));
            let i = choose|i: int| 0 <= i < set_cookies.len() && set_cookies[i] == reordered[j];
            assert(starts_with_seq(set_cookies[i], "pass="@));
        }
    }
}

/// The `name=value` part of a `Set-Cookie` header value.
pub fn cookie_pair(set_cookie: &str) -> (r: String)
    ensures
        r@ == cookie_pair_of(set_cookie@),
{
    let cs = chars_of(set_cookie);
    proof {
        lemma_find_char_from_bounds(cs@, ';', 0);
    }
    let mut i: usize = 0;
    while i < cs.len()
        invariant
            cs@ == set_cookie@,
            i <= cs@.len(),
            find_char_from(cs@, ';', 0) == find_char_from(cs@, ';', i as int),
        decreases cs.len() - i,
    {
        if cs[i] == ';' {
            return substring(set_cookie, 0, i);
        }
        i = i + 1;
    }
    assert(cs@.subrange(0, cs@.len() as int) =~= cs@);
    substring(set_cookie, 0, cs.len())
}

/// The cookies to replay after a login whose reply set `set_cookies`, or why it failed.
pub fn login_cookies(set_cookies: &Vec<String>) -> (r: Result<String, String>)
    ensures
        match login_cookies_of(strings_view(set_cookies@)) {
            Ok(c) => r matches Ok(s) && s@ == c,
            Err(e) => r matches Err(m) && m@ == e,
        },
{
    let ghost views = strings_view(set_cookies@);
    if set_cookies.len() == 0 {
        return Err(String::from_str("no cookies received - login likely failed"));
    }
    let mut parts: Vec<String> = Vec::new();
    let mut has_pass = false;
    let n = set_cookies.len();
    for i in 0..n
        invariant
            n == set_cookies@.len(),
            views == strings_view(set_cookies@),
            strings_view(parts@) == views.take(i as int).map_values(|c: Seq<char>| cookie_pair_of(c)),
            has_pass == (exists|k: int| 0 <= k < i && starts_with_seq(#[trigger] views[k], "pass="@)),
    {
        let pair = cookie_pair(set_cookies[i].as_str());
        let ghost prev = parts@;
        parts.push(pair);
        assert(strings_view(parts@) =~= strings_view(prev).push(cookie_pair_of(views[i as int])));
        assert(views.take(i + 1).map_values(|c: Seq<char>| cookie_pair_of(c)) =~= views.take(
            i as int,
        ).map_values(|c: Seq<char>| cookie_pair_of(c)).push(cookie_pair_of(views[i as int])));
        if starts_with(set_cookies[i].as_str(), "pass=") {
            has_pass = true;
        }
    }
    assert(views.take(n as int) =~= views);
    if !has_pass {
        return Err(String::from_str("no pass cookie received - login failed"));
    }
    Ok(join(&parts, "; "))
}

/// What the front page says after a check-in: it shows a sign-out link
/// (`Kijelentkezés` or `Kilépés`) when the session is signed in.
pub open spec fn checkin_page_message_of(body: Seq<char>) -> Seq<char> {
    if contains_seq(body, "Kijelentkezés"@) || contains_seq(body, "Kilépés"@) {
        "daily check-in successful"@
    } else {
        "daily check-in completed (logged-in status uncertain)"@
    }
}

/// What the front page says after a check-in.
pub fn checkin_page_message(body: &str) -> (r: String)
    ensures
        r@ == checkin_page_message_of(body@),
{
    if contains(body, "Kijelentkezés") || contains(body, "Kilépés") {
        String::from_str("daily check-in successful")
    } else {
        String::from_str("daily check-in completed (logged-in status uncertain)")
    }
}

/// Where an nCore check-in stands.
#[derive(Debug, Clone, Copy, PartialEq, Eq, Structural)]
pub enum NcoreStep {
    AwaitLogin,
    AwaitStore,
    AwaitCheckin,
    Done,
}

/// What the outside world reports back to an nCore check-in.
pub enum NcoreEvent {
    /// The cookies a login gave, or why it failed.
    LoggedIn(Result<String, String>),
    /// Whether the cookies were stored with the account, or why not.
    CookiesStored(Result<(), String>),
    /// What the front page said, or why it could not be read.
    CheckedIn(Result<String, String>),
}

/// What an nCore check-in asks for next.
pub enum NcoreAction {
    /// Store the cookies with the account.
    StoreCookies(String),
    /// Visit the front page with the cookies.
    CheckIn(String),
    /// Done, with this outcome.
    Finish(TaskOutcome),
}

/// The nCore check-in of one account. It starts by signing in.
pub struct NcoreCheckin {
    pub account_name: String,
    pub cookies: String,
    pub step: NcoreStep,
}

pub open spec fn ncore_expects(step: NcoreStep, event: NcoreEvent) -> bool {
    match step {
        NcoreStep::AwaitLogin => event is LoggedIn,
        NcoreStep::AwaitStore => event is CookiesStored,
        NcoreStep::AwaitCheckin => event is CheckedIn,
        NcoreStep::Done => false,
    }
}

impl NcoreCheckin {
    /// The check-in of `account_name`, waiting for the login.
    pub fn new(account_name: &str) -> (r: Self)
        ensures
            r.account_name@ == account_name@,
            r.step == NcoreStep::AwaitLogin,
    {
        NcoreCheckin {
            account_name: String::from_str(account_name),
            cookies: String::new(),
            step: NcoreStep::AwaitLogin,
        }
    }

    /// Takes the next event. A failed login or a failed store fails the
    /// check-in; once the cookies are stored it succeeds, noting whether the
    /// visit itself could be confirmed.
    pub fn step(&mut self, event: NcoreEvent) -> (r: NcoreAction)
        requires
            ncore_expects(old(self).step, event),
        ensures
            final(self).account_name == old(self).account_name,
            ({
                let a = old(self).account_name@;
                match (old(self).step, event) {
                    (NcoreStep::AwaitLogin, NcoreEvent::LoggedIn(Ok(c))) => r matches NcoreAction::StoreCookies(s)
                        && s@ == c@ && final(self).cookies@ == c@ && final(self).step == NcoreStep::AwaitStore,
                    (NcoreStep::AwaitLogin, NcoreEvent::LoggedIn(Err(e))) => r matches NcoreAction::Finish(o)
                        && !o.success && o.message@ == "nCore login failed for "@ + a + ": "@ + e@
                        && final(self).step == NcoreStep::Done,
                    (NcoreStep::AwaitStore, NcoreEvent::CookiesStored(Ok(()))) => r matches NcoreAction::CheckIn(s)
                        && s@ == old(self).cookies@ && final(self).step == NcoreStep::AwaitCheckin,
                    (NcoreStep::AwaitStore, NcoreEvent::CookiesStored(Err(e))) => r matches NcoreAction::Finish(o)
                        && !o.success && o.message@ == "nCore: failed to store cookies for "@ + a + ": "@ + e@
                        && final(self).step == NcoreStep::Done,
                    (NcoreStep::AwaitCheckin, NcoreEvent::CheckedIn(Ok(m))) => r matches NcoreAction::Finish(o)
                        && o.success && o.message@ == "nCore: "@ + a + ": "@ + m@
                        && final(self).step == NcoreStep::Done,
                    (NcoreStep::AwaitCheckin, NcoreEvent::CheckedIn(Err(e))) => r matches NcoreAction::Finish(o)
                        && o.success && o.message@ == "nCore: "@ + a + ": logged in but check-in may have failed: "@ + e@
                        && final(self).step == NcoreStep::Done,
                    _ => false,
                }
            }),
    {
        match event {
            NcoreEvent::LoggedIn(Ok(cookies)) => {
                self.cookies = cookies.clone();
                self.step = NcoreStep::AwaitStore;
                NcoreAction::StoreCookies(cookies)
            },
            NcoreEvent::LoggedIn(Err(e)) => {
                self.step = NcoreStep::Done;
                let head = join3("nCore login failed for ", self.account_name.as_str(), ": ");
                NcoreAction::Finish(TaskOutcome { success: false, message: head.concat(e.as_str()) })
            },
            NcoreEvent::CookiesStored(Ok(())) => {
                self.step = NcoreStep::AwaitCheckin;
                NcoreAction::CheckIn(self.cookies.clone())
            },
            NcoreEvent::CookiesStored(Err(e)) => {
                self.step = NcoreStep::Done;
                let head = join3("nCore: failed to store cookies for ", self.account_name.as_str(), ": ");
                NcoreAction::Finish(TaskOutcome { success: false, message: head.concat(e.as_str()) })
            },
            NcoreEvent::CheckedIn(Ok(m)) => {
                self.step = NcoreStep::Done;
                let head = join3("nCore: ", self.account_name.as_str(), ": ");
                NcoreAction::Finish(TaskOutcome { success: true, message: head.concat(m.as_str()) })
            },
            NcoreEvent::CheckedIn(Err(e)) => {
                self.step = NcoreStep::Done;
                let head = join3(
                    "nCore: ",
                    self.account_name.as_str(),
                    ": logged in but check-in may have failed: ",
                );
                NcoreAction::Finish(TaskOutcome { success: true, message: head.concat(e.as_str()) })
            },
        }
    }
}

} // verus!
