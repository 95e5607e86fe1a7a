use lantern::hoyoverse::{
    build_headers, combine_game_results, cookie_header, games, sign_from_reply,
    status_from_reply, GameAction, GameCheckin, GameEvent, SignResponse,
};
use lantern::models::HoyoverseConfig;

fn config() -> HoyoverseConfig {
    HoyoverseConfig { ltoken_v2: "tok".to_string(), ltuid_v2: "uid".to_string(), ltmid_v2: "mid".to_string() }
}

fn reply(retcode: Option<i32>, message: Option<&str>, is_sign: Option<Option<bool>>) -> SignResponse {
    SignResponse { retcode, message: message.map(String::from), is_sign }
}

#[test]
fn the_three_games() {
    let g = games();
    assert_eq!(g.len(), 3);
    assert_eq!(g[0].name, "Genshin Impact");
    assert_eq!(g[2].act_id, "e202406031448091");
    assert_eq!(g[2].rpc_sign_game, Some("zzz"));
}

#[test]
fn request_headers() {
    assert_eq!(cookie_header(&config()), "ltoken_v2=tok; ltuid_v2=uid; ltmid_v2=mid");
    let g = games();
    let plain = build_headers(&g[0], &config());
    assert_eq!(plain.len(), 9);
    assert_eq!(plain[8].name, "Cookie");
    assert_eq!(plain[6].value, "2.34.1");
    let zzz = build_headers(&g[2], &config());
    assert_eq!(zzz.len(), 10);
    assert_eq!((zzz[8].name.as_str(), zzz[8].value.as_str()), ("x-rpc-signgame", "zzz"));
}

#[test]
fn status_replies() {
    assert_eq!(status_from_reply(&reply(Some(0), None, Some(Some(true)))), Ok(true));
    assert_eq!(status_from_reply(&reply(None, None, Some(Some(false)))), Ok(false));
    assert_eq!(status_from_reply(&reply(None, None, None)), Ok(false));
    assert_eq!(status_from_reply(&reply(None, None, Some(None))), Ok(false));
    assert_eq!(status_from_reply(&reply(Some(-100), Some("not logged in"), None)), Err("not logged in".to_string()));
    assert_eq!(status_from_reply(&reply(Some(-1), None, None)), Err("return code is -1".to_string()));
    assert_eq!(
        status_from_reply(&reply(Some(i32::MIN), None, None)),
        Err("return code is -2147483648".to_string())
    );
    assert_eq!(status_from_reply(&reply(Some(1234), None, None)), Err("return code is 1234".to_string()));
}

#[test]
fn sign_replies() {
    assert_eq!(sign_from_reply(&reply(Some(-5003), Some("already"), None)), Ok(()));
    assert_eq!(sign_from_reply(&reply(None, None, None)), Ok(()));
    assert_eq!(sign_from_reply(&reply(Some(10), None, None)), Err("return code is 10".to_string()));
}

fn finish(a: GameAction) -> (bool, String) {
    match a {
        GameAction::Finish(ok, m) => (ok, m),
        _ => panic!("expected the game to finish"),
    }
}

#[test]
fn game_already_checked_in() {
    let mut g = GameCheckin::new("Genshin Impact", "main");
    assert_eq!(finish(g.step(GameEvent::Status(Ok(true)))), (true, "Genshin Impact: daily check-in already done".to_string()));
}

#[test]
fn game_signs_and_verifies() {
    let mut g = GameCheckin::new("Honkai Star Rail", "main");
    assert!(matches!(g.step(GameEvent::Status(Ok(false))), GameAction::Sign));
    assert!(matches!(g.step(GameEvent::Signed(Ok(()))), GameAction::VerifyStatus));
    assert_eq!(finish(g.step(GameEvent::Status(Ok(true)))), (true, "Honkai Star Rail: daily check-in successful".to_string()));

    let mut g = GameCheckin::new("G", "main");
    g.step(GameEvent::Status(Ok(false)));
    g.step(GameEvent::Signed(Ok(())));
    assert_eq!(finish(g.step(GameEvent::Status(Ok(false)))), (false, "G: check-in did not register after sign request".to_string()));

    let mut g = GameCheckin::new("G", "main");
    g.step(GameEvent::Status(Ok(false)));
    g.step(GameEvent::Signed(Ok(())));
    assert_eq!(finish(g.step(GameEvent::Status(Err("timeout".to_string())))), (false, "G: failed to verify sign-in: timeout".to_string()));
}

#[test]
fn game_failures() {
    let mut g = GameCheckin::new("G", "main");
    assert_eq!(finish(g.step(GameEvent::Status(Err("boom".to_string())))), (false, "G: failed to read check-in status: boom".to_string()));
    let mut g = GameCheckin::new("G", "main");
    g.step(GameEvent::Status(Ok(false)));
    assert_eq!(finish(g.step(GameEvent::Signed(Err("captcha".to_string())))), (false, "G: failed to sign in for main: captcha".to_string()));
}

#[test]
fn account_outcome() {
    let all = combine_game_results(&vec![(true, "a".to_string()), (true, "b".to_string())]);
    assert!(all.success);
    assert_eq!(all.message, "a; b");
    let one_bad = combine_game_results(&vec![(true, "a".to_string()), (false, "b".to_string()), (true, "c".to_string())]);
    assert!(!one_bad.success);
    assert_eq!(one_bad.message, "a; b; c");
    let none = combine_game_results(&vec![]);
    assert!(none.success);
    assert_eq!(none.message, "");
}

#[test]
fn game_table_names_ids_and_endpoints() {
    let g = games();
    assert_eq!(g.len(), 3);
    assert_eq!(g[0].act_id, "e202102251931481");
    assert_eq!(g[0].url_get_status, "https://sg-hk4e-api.hoyolab.com/event/sol/info");
    assert_eq!(g[0].url_sign, "https://sg-hk4e-api.hoyolab.com/event/sol/sign");
    assert_eq!(g[1].act_id, "e202303301540311");
    assert_eq!(g[1].url_get_status, "https://sg-public-api.hoyolab.com/event/luna/os/info");
    assert_eq!(g[1].url_sign, "https://sg-public-api.hoyolab.com/event/luna/os/sign");
    assert_eq!(g[2].act_id, "e202406031448091");
    assert_eq!(g[2].url_get_status, "https://sg-public-api.hoyolab.com/event/luna/zzz/os/info");
    assert_eq!(g[2].url_sign, "https://sg-public-api.hoyolab.com/event/luna/zzz/os/sign");
    assert_eq!(g[2].rpc_sign_game, Some("zzz"));
}
