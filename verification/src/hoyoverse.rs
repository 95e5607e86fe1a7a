//! The daily HoYoLAB check-in: which games, which requests, and how the
//! replies decide the outcome.
use vstd::prelude::*;

use crate::models::{HoyoverseConfig, TaskOutcome};
use crate::text::{int_decimal, int_to_decimal, join, join2, join3, seq_join, strings_view};

verus! {

/// A game with a HoYoLAB daily check-in.
#[derive(Debug, Clone, Copy)]
pub struct Game {
    pub name: &'static str,
    pub act_id: &'static str,
    pub url_get_status: &'static str,
    pub url_sign: &'static str,
    pub rpc_sign_game: Option<&'static str>,
}

/// The games checked in for every Hoyoverse account, in order.
pub fn games() -> (r: Vec<Game>)
    ensures
        r@.len() == 3,
        r@[0].name@ == "Genshin Impact"@,
        r@[1].name@ == "Honkai Star Rail"@,
        r@[2].name@ == "Zenless Zone Zero"@,
        r@[0].rpc_sign_game is None,
        r@[1].rpc_sign_game is None,
        r@[2].rpc_sign_game matches Some(g) && g@ == "zzz"@,
        r@[0].act_id@ == "e202102251931481"@,
        r@[1].act_id@ == "e202303301540311"@,
        r@[2].act_id@ == "e202406031448091"@,
        r@[0].url_get_status@ == "https://sg-hk4e-api.hoyolab.com/event/sol/info"@,
        r@[0].url_sign@ == "https://sg-hk4e-api.hoyolab.com/event/sol/sign"@,
        r@[1].url_get_status@ == "https://sg-public-api.hoyolab.com/event/luna/os/info"@,
        r@[1].url_sign@ == "https://sg-public-api.hoyolab.com/event/luna/os/sign"@,
        r@[2].url_get_status@ == "https://sg-public-api.hoyolab.com/event/luna/zzz/os/info"@,
        r@[2].url_sign@ == "https://sg-public-api.hoyolab.com/event/luna/zzz/os/sign"@,
{
    let mut v: Vec<Game> = Vec::new();
    v.push(
        Game {
            name: "Genshin Impact",
            act_id: "e202102251931481",
            url_get_status: "https://sg-hk4e-api.hoyolab.com/event/sol/info",
            url_sign: "https://sg-hk4e-api.hoyolab.com/event/sol/sign",
            rpc_sign_game: None,
        },
    );
    v.push(
        Game {
            name: "Honkai Star Rail",
            act_id: "e202303301540311",
            url_get_status: "https://sg-public-api.hoyolab.com/event/luna/os/info",
            url_sign: "https://sg-public-api.hoyolab.com/event/luna/os/sign",
            rpc_sign_game: None,
        },
    );
    v.push(
        Game {
            name: "Zenless Zone Zero",
            act_id: "e202406031448091",
            url_get_status: "https://sg-public-api.hoyolab.com/event/luna/zzz/os/info",
            url_sign: "https://sg-public-api.hoyolab.com/event/luna/zzz/os/sign",
            rpc_sign_game: Some("zzz"),
        },
    );
    v
}

// ----- Requests -----

/// The `Cookie` header that authenticates an account.
pub open spec fn cookie_of(c: HoyoverseConfig) -> Seq<char> {
    "ltoken_v2="@ + c.ltoken_v2@ + "; ltuid_v2="@ + c.ltuid_v2@ + "; ltmid_v2="@ + c.ltmid_v2@
}

/// The `Cookie` header that authenticates an account.
pub fn cookie_header(config: &HoyoverseConfig) -> (r: String)
    ensures
        r@ == cookie_of(*config),
{
    join3("ltoken_v2=", config.ltoken_v2.as_str(), "; ltuid_v2=").concat(
        config.ltuid_v2.as_str(),
    ).concat("; ltmid_v2=").concat(config.ltmid_v2.as_str())
}

/// A header name and value.
pub struct Header {
    pub name: String,
    pub value: String,
}

pub open spec fn header_view(h: Header) -> (Seq<char>, Seq<char>) {
    (h.name@, h.value@)
}

/// The headers sent with every HoYoLAB request for a game and an account.
pub open spec fn headers_of(game: Game, config: HoyoverseConfig) -> Seq<(Seq<char>, Seq<char>)> {
    let fixed = seq![
        ("Accept"@, "application/json, text/plain, */*"@),
        ("Accept-Language"@, "en-US,en;q=0.5"@),
        ("Origin"@, "https://act.hoyolab.com"@),
        ("Referer"@, "https://act.hoyolab.com"@),
        ("Content-Type"@, "application/json;charset=utf-8"@),
        ("User-Agent"@, "Mozilla/5.0 (Windows NT 10.0; Win64; x64) AppleWebKit/537.36 (KHTML, like Gecko) Chrome/116.0.0.0 Safari/537.36"@),
        ("x-rpc-app_version"@, "2.34.1"@),
        ("x-rpc-client_type"@, "4"@),
    ];
    let sign_game = match game.rpc_sign_game {
        Some(g) => seq![("x-rpc-signgame"@, g@)],
        None => seq![],
    };
    fixed + sign_game + seq![("Cookie"@, cookie_of(config))]
}

fn header(name: &str, value: &str) -> (r: Header)
    ensures
        r.name@ == name@,
        r.value@ == value@,
{
    Header { name: String::from_str(name), value: String::from_str(value) }
}

/// The headers sent with every HoYoLAB request for a game and an account.
pub fn build_headers(game: &Game, config: &HoyoverseConfig) -> (r: Vec<Header>)
    ensures
        r@.map_values(|h: Header| header_view(h)) == headers_of(*game, *config),
{
    let mut v: Vec<Header> = Vec::new();
    v.push(header("Accept", "application/json, text/plain, */*"));
    v.push(header("Accept-Language", "en-US,en;q=0.5"));
    v.push(header("Origin", "https://act.hoyolab.com"));
    v.push(header("Referer", "https://act.hoyolab.com"));
    v.push(header("Content-Type", "application/json;charset=utf-8"));
    v.push(
        header(
            "User-Agent",
            "Mozilla/5.0 (Windows NT 10.0; Win64; x64) AppleWebKit/537.36 (KHTML, like Gecko) Chrome/116.0.0.0 Safari/537.36",
        ),
    );
    v.push(header("x-rpc-app_version", "2.34.1"));
    v.push(header("x-rpc-client_type", "4"));
    match game.rpc_sign_game {
        Some(g) => v.push(header("x-rpc-signgame", g)),
        None => {},
    }
    let cookie = cookie_header(config);
    v.push(Header { name: String::from_str("Cookie"), value: cookie });
    assert(v@.map_values(|h: Header| header_view(h)) =~= headers_of(*game, *config));
    v
}

// ----- Replies -----

/// The fields read from a HoYoLAB reply.
#[derive(Debug, Clone)]
pub struct SignResponse {
    pub retcode: Option<i32>,
    pub message: Option<String>,
    /// The `data.is_sign` field: `None` when `data` is absent, `Some(None)`
    /// when it has no `is_sign`.
    pub is_sign: Option<Option<bool>>,
}

/// The return code of a reply; a missing one counts as 0 (success).
pub open spec fn return_code_of(resp: SignResponse) -> int {
    match resp.retcode {
        Some(c) => c as int,
        None => 0,
    }
}

/// The error for a reply with a failing return code: its message, or the code.
pub open spec fn reply_error_of(resp: SignResponse) -> Seq<char> {
    match resp.message {
        Some(m) => m@,
        None => "return code is "@ + int_decimal(return_code_of(resp)),
    }
}

fn reply_error(resp: &SignResponse) -> (r: String)
    ensures
        r@ == reply_error_of(*resp),
{
    match &resp.message {
        Some(m) => m.clone(),
        None => {
            let code: i64 = match resp.retcode {
                Some(c) => c as i64,
                None => 0,
            };
            join2("return code is ", int_to_decimal(code).as_str())
        },
    }
}

/// What a status reply says: whether today's check-in is done, or the error.
pub open spec fn status_from_reply_of(resp: SignResponse) -> Result<bool, Seq<char>> {
    if return_code_of(resp) != 0 {
        Err(reply_error_of(resp))
    } else {
        Ok(resp.is_sign == Some(Some(true)))
    }
}

/// What a status reply says: whether today's check-in is done, or the error.
pub fn status_from_reply(resp: &SignResponse) -> (r: Result<bool, String>)
    ensures
        match status_from_reply_of(*resp) {
            Ok(b) => r == Ok::<bool, String>(b),
            Err(e) => r matches Err(m) && m@ == e,
        },
{
    let code: i64 = match resp.retcode {
        Some(c) => c as i64,
        None => 0,
    };
    if code != 0 {
        return Err(reply_error(resp));
    }
    let signed = match resp.is_sign {
        Some(Some(b)) => b,
        _ => false,
    };
    Ok(signed)
}

/// The return code HoYoLAB gives when today's reward was already claimed.
pub const ALREADY_SIGNED_CODE: i32 = -5003;

/// What a sign reply says: success (also when already claimed), or the error.
pub open spec fn sign_from_reply_of(resp: SignResponse) -> Result<(), Seq<char>> {
    if return_code_of(resp) == ALREADY_SIGNED_CODE || return_code_of(resp) == 0 {
        Ok(())
    } else {
        Err(reply_error_of(resp))
    }
}

/// A sign reply succeeds exactly when its return code is missing, 0, or
/// -5003 (already claimed today); any other code is an error carrying the
/// reply's message, or `return code is <code>` when it has none.
pub proof fn sign_succeeds_only_on_zero_or_already_claimed(resp: SignResponse)
    ensures
        sign_from_reply_of(resp) is Ok <==> (resp.retcode is None || resp.retcode == Some(0i32)
            || resp.retcode == Some(-5003i32)),
        resp.retcode matches Some(c) ==> (c != 0 && c != -5003 ==> sign_from_reply_of(resp) == Err::<
            (),
            Seq<char>,
        >(
            match resp.message {
                Some(m) => m@,
                None => "return code is "@ + int_decimal(c as int),
            },
        )),
{
}

/// What a sign reply says: success (also when already claimed), or the error.
pub fn sign_from_reply(resp: &SignResponse) -> (r: Result<(), String>)
    ensures
        match sign_from_reply_of(*resp) {
            Ok(()) => r is Ok,
            Err(e) => r matches Err(m) && m@ == e,
        },
{
    let code: i64 = match resp.retcode {
        Some(c) => c as i64,
        None => 0,
    };
    if code == ALREADY_SIGNED_CODE as i64 {
        return Ok(());
    }
    if code != 0 {
        return Err(reply_error(resp));
    }
    Ok(())
}

// ----- One game -----

/// Where the check-in of one game stands.
#[derive(Debug, Clone, Copy, PartialEq, Eq, Structural)]
pub enum GameStep {
    /// Waiting for the first status reply.
    AwaitStatus,
    /// Waiting for the reply to the sign request.
    AwaitSign,
    /// Waiting for the status reply after signing.
    AwaitVerify,
    /// Finished.
    Done,
}

/// What the outside world reports back to a game check-in.
pub enum GameEvent {
    /// The check-in status, or why it could not be read.
    Status(Result<bool, String>),
    /// Whether signing in succeeded, or why not.
    Signed(Result<(), String>),
}

/// What a game check-in asks for next.
pub enum GameAction {
    /// Send the sign request.
    Sign,
    /// Read the status again, to see that the sign-in registered.
    VerifyStatus,
    /// The game is done: whether it succeeded, and the message for it.
    Finish(bool, String),
}

/// The check-in of one game for one account. It starts by reading the status.
pub struct GameCheckin {
    pub game_name: String,
    pub account_name: String,
    pub step: GameStep,
}

/// The event a game check-in waits for at each step.
pub open spec fn game_expects(step: GameStep, event: GameEvent) -> bool {
    match step {
        GameStep::AwaitStatus | GameStep::AwaitVerify => event is Status,
        GameStep::AwaitSign => event is Signed,
        GameStep::Done => false,
    }
}

impl GameCheckin {
    /// The check-in of `game_name` for `account_name`, waiting for the first status.
    pub fn new(game_name: &str, account_name: &str) -> (r: Self)
        ensures
            r.game_name@ == game_name@,
            r.account_name@ == account_name@,
            r.step == GameStep::AwaitStatus,
    {
        GameCheckin {
            game_name: String::from_str(game_name),
            account_name: String::from_str(account_name),
            step: GameStep::AwaitStatus,
        }
    }

    /// Takes the next reply. Already checked in: success. Not yet: sign, then
    /// read the status again; success only if it now reports checked in.
    /// Any failure ends the game with a message saying which step failed.
    pub fn step(&mut self, event: GameEvent) -> (r: GameAction)
        requires
            game_expects(old(self).step, event),
        ensures
            final(self).game_name == old(self).game_name,
            final(self).account_name == old(self).account_name,
            ({
                let g = old(self).game_name@;
                match (old(self).step, event) {
                    (GameStep::AwaitStatus, GameEvent::Status(Ok(true))) => r matches GameAction::Finish(ok, m)
                        && ok && m@ == g + ": daily check-in already done"@ && final(self).step == GameStep::Done,
                    (GameStep::AwaitStatus, GameEvent::Status(Ok(false))) => r is Sign && final(self).step == GameStep::AwaitSign,
                    (GameStep::AwaitStatus, GameEvent::Status(Err(e))) => r matches GameAction::Finish(ok, m)
                        && !ok && m@ == g + ": failed to read check-in status: "@ + e@ && final(self).step == GameStep::Done,
                    (GameStep::AwaitSign, GameEvent::Signed(Ok(()))) => r is VerifyStatus && final(self).step == GameStep::AwaitVerify,
                    (GameStep::AwaitSign, GameEvent::Signed(Err(e))) => r matches GameAction::Finish(ok, m)
                        && !ok && m@ == g + ": failed to sign in for "@ + old(self).account_name@ + ": "@ + e@
                        && final(self).step == GameStep::Done,
                    (GameStep::AwaitVerify, GameEvent::Status(Ok(true))) => r matches GameAction::Finish(ok, m)
                        && ok && m@ == g + ": daily check-in successful"@ && final(self).step == GameStep::Done,
                    (GameStep::AwaitVerify, GameEvent::Status(Ok(false))) => r matches GameAction::Finish(ok, m)
                        && !ok && m@ == g + ": check-in did not register after sign request"@ && final(self).step == GameStep::Done,
                    (GameStep::AwaitVerify, GameEvent::Status(Err(e))) => r matches GameAction::Finish(ok, m)
                        && !ok && m@ == g + ": failed to verify sign-in: "@ + e@ && final(self).step == GameStep::Done,
                    _ => false,
                }
            }),
            // A game succeeds only on a status reply that reports it checked in.
            (r matches GameAction::Finish(ok, _) && ok) ==> event == GameEvent::Status(Ok(true)),
    {
        match event {
            GameEvent::Status(Ok(true)) => {
                let waiting_for_verify = self.step == GameStep::AwaitVerify;
                self.step = GameStep::Done;
                if waiting_for_verify {
                    GameAction::Finish(true, join2(self.game_name.as_str(), ": daily check-in successful"))
                } else {
                    GameAction::Finish(true, join2(self.game_name.as_str(), ": daily check-in already done"))
                }
            },
            GameEvent::Status(Ok(false)) => {
                if self.step == GameStep::AwaitVerify {
                    self.step = GameStep::Done;
                    GameAction::Finish(
                        false,
                        join2(self.game_name.as_str(), ": check-in did not register after sign request"),
                    )
                } else {
                    self.step = GameStep::AwaitSign;
                    GameAction::Sign
                }
            },
            GameEvent::Status(Err(e)) => {
                let waiting_for_verify = self.step == GameStep::AwaitVerify;
                self.step = GameStep::Done;
                if waiting_for_verify {
                    GameAction::Finish(
                        false,
                        join3(self.game_name.as_str(), ": failed to verify sign-in: ", e.as_str()),
                    )
                } else {
                    GameAction::Finish(
                        false,
                        join3(self.game_name.as_str(), ": failed to read check-in status: ", e.as_str()),
                    )
                }
            },
            GameEvent::Signed(Ok(())) => {
                self.step = GameStep::AwaitVerify;
                GameAction::VerifyStatus
            },
            GameEvent::Signed(Err(e)) => {
                self.step = GameStep::Done;
                let head = join3(self.game_name.as_str(), ": failed to sign in for ", self.account_name.as_str());
                GameAction::Finish(false, join3(head.as_str(), ": ", e.as_str()))
            },
        }
    }
}

// ----- The whole account -----

/// The outcome of checking in all games: success if every game succeeded,
/// and the games' messages joined by `; `.
pub fn combine_game_results(results: &Vec<(bool, String)>) -> (r: TaskOutcome)
    ensures
        r.success == (forall|i: int| 0 <= i < results@.len() ==> (#[trigger] results@[i]).0),
        r.message@ == seq_join(results@.map_values(|p: (bool, String)| p.1@), "; "@),
{
    let mut success = true;
    let mut messages: Vec<String> = Vec::new();
    let n = results.len();
    for i in 0..n
        invariant
            n == results@.len(),
            success == (forall|k: int| 0 <= k < i ==> (#[trigger] results@[k]).0),
            strings_view(messages@) == results@.take(i as int).map_values(|p: (bool, String)| p.1@),
    {
        success = success && results[i].0;
        let m = results[i].1.clone();
        let ghost prev = messages@;
        messages.push(m);
        assert(strings_view(messages@) =~= strings_view(prev).push(results@[i as int].1@));
        assert(results@.take(i + 1).map_values(|p: (bool, String)| p.1@) =~= results@.take(
            i as int,
        ).map_values(|p: (bool, String)| p.1@).push(results@[i as int].1@));
        assert(strings_view(messages@) =~= results@.take(i + 1).map_values(|p: (bool, String)| p.1@));
    }
    assert(results@.take(n as int) =~= results@);
    TaskOutcome { success, message: join(&messages, "; ") }
}

} // verus!
