use lantern::ncore::{
    checkin_page_message, cookie_pair, login_cookies, login_form, login_url, normalize_base_url,
    NcoreAction, NcoreCheckin, NcoreEvent,
};

#[test]
fn addresses() {
    assert_eq!(normalize_base_url("https://ncore.pro///"), "https://ncore.pro");
    assert_eq!(normalize_base_url("https://ncore.pro"), "https://ncore.pro");
    assert_eq!(login_url("https://ncore.pro"), "https://ncore.pro/login.php");
    let form = login_form("me", "pw");
    let pairs: Vec<(String, String)> = form.into_iter().map(|f| (f.name, f.value)).collect();
    assert_eq!(pairs[2], ("nev".to_string(), "me".to_string()));
    assert_eq!(pairs[3], ("pass".to_string(), "pw".to_string()));
    assert_eq!(pairs.len(), 5);
}

#[test]
fn login_cookie_handling() {
    assert_eq!(cookie_pair("nick=me; path=/; HttpOnly"), "nick=me");
    assert_eq!(cookie_pair("plain"), "plain");
    assert_eq!(
        login_cookies(&vec![]),
        Err("no cookies received - login likely failed".to_string())
    );
    assert_eq!(
        login_cookies(&vec!["PHPSESSID=1; path=/".to_string()]),
        Err("no pass cookie received - login failed".to_string())
    );
    assert_eq!(
        login_cookies(&vec!["PHPSESSID=1; path=/".to_string(), "pass=abc; expires=x".to_string()]),
        Ok("PHPSESSID=1; pass=abc".to_string())
    );
}

#[test]
fn front_page_after_checkin() {
    assert_eq!(checkin_page_message("<a>Kijelentkezés</a>"), "daily check-in successful");
    assert_eq!(checkin_page_message("<a>Kilépés</a>"), "daily check-in successful");
    assert_eq!(checkin_page_message("<form>login</form>"), "daily check-in completed (logged-in status uncertain)");
}

fn outcome(a: NcoreAction) -> (bool, String) {
    match a {
        NcoreAction::Finish(o) => (o.success, o.message),
        _ => panic!("expected the check-in to finish"),
    }
}

#[test]
fn checkin_flow() {
    let mut c = NcoreCheckin::new("acct");
    assert!(matches!(c.step(NcoreEvent::LoggedIn(Ok("pass=1".to_string()))), NcoreAction::StoreCookies(s) if s == "pass=1"));
    assert!(matches!(c.step(NcoreEvent::CookiesStored(Ok(()))), NcoreAction::CheckIn(s) if s == "pass=1"));
    assert_eq!(outcome(c.step(NcoreEvent::CheckedIn(Ok("daily check-in successful".to_string())))), (true, "nCore: acct: daily check-in successful".to_string()));

    let mut c = NcoreCheckin::new("acct");
    c.step(NcoreEvent::LoggedIn(Ok("pass=1".to_string())));
    c.step(NcoreEvent::CookiesStored(Ok(())));
    assert_eq!(outcome(c.step(NcoreEvent::CheckedIn(Err("status 500".to_string())))), (true, "nCore: acct: logged in but check-in may have failed: status 500".to_string()));
}

#[test]
fn checkin_failures() {
    let mut c = NcoreCheckin::new("acct");
    assert_eq!(outcome(c.step(NcoreEvent::LoggedIn(Err("bad password".to_string())))), (false, "nCore login failed for acct: bad password".to_string()));
    let mut c = NcoreCheckin::new("acct");
    c.step(NcoreEvent::LoggedIn(Ok("pass=1".to_string())));
    assert_eq!(outcome(c.step(NcoreEvent::CookiesStored(Err("locked".to_string())))), (false, "nCore: failed to store cookies for acct: locked".to_string()));
}
