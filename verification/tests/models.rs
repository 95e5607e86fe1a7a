use lantern::models::{
    default_enabled, require_non_empty, validate_account_config, AccountConfig, HoyoverseConfig,
    NcoreConfig, Service,
};

fn hoyo(a: &str, b: &str, c: &str) -> AccountConfig {
    AccountConfig::Hoyoverse(HoyoverseConfig {
        ltoken_v2: a.to_string(),
        ltuid_v2: b.to_string(),
        ltmid_v2: c.to_string(),
    })
}

fn ncore(u: &str, p: &str) -> AccountConfig {
    AccountConfig::Ncore(NcoreConfig {
        username: u.to_string(),
        password: p.to_string(),
        base_url: "https://ncore.pro".to_string(),
    })
}

#[test]
fn service_names_round_trip() {
    assert_eq!(Service::Hoyoverse.as_str(), "hoyoverse");
    assert_eq!(Service::Ncore.as_str(), "ncore");
    assert_eq!(Service::try_from(Service::Hoyoverse.as_str()), Ok(Service::Hoyoverse));
    assert_eq!(Service::try_from(Service::Ncore.as_str()), Ok(Service::Ncore));
}

#[test]
fn unknown_service_is_refused() {
    assert_eq!(Service::try_from("steam"), Err("unsupported service 'steam'".to_string()));
    assert_eq!(Service::try_from("Ncore"), Err("unsupported service 'Ncore'".to_string()));
    assert_eq!(Service::try_from(""), Err("unsupported service ''".to_string()));
}

#[test]
fn blank_values_are_required() {
    assert_eq!(require_non_empty("name", "x"), Ok(()));
    assert_eq!(require_non_empty("name", ""), Err("name is required".to_string()));
    assert_eq!(require_non_empty("name", " \t\n"), Err("name is required".to_string()));
    assert_eq!(require_non_empty("name", "\u{3000}"), Err("name is required".to_string()));
    assert_eq!(require_non_empty("name", " a "), Ok(()));
}

#[test]
fn hoyoverse_config_checks_fields_in_order() {
    match validate_account_config(hoyo("t", "u", "m")) {
        Ok(AccountConfig::Hoyoverse(c)) => {
            assert_eq!(c.ltoken_v2, "t");
            assert_eq!(c.ltuid_v2, "u");
            assert_eq!(c.ltmid_v2, "m");
        }
        other => panic!("unexpected {:?}", other),
    }
    assert_eq!(validate_account_config(hoyo("", "", "")).unwrap_err(), "ltoken_v2 is required");
    assert_eq!(validate_account_config(hoyo("t", " ", "")).unwrap_err(), "ltuid_v2 is required");
    assert_eq!(validate_account_config(hoyo("t", "u", "  ")).unwrap_err(), "ltmid_v2 is required");
}

#[test]
fn ncore_config_checks_fields_in_order() {
    assert!(validate_account_config(ncore("user", "pass")).is_ok());
    assert_eq!(validate_account_config(ncore("", "pass")).unwrap_err(), "username is required");
    assert_eq!(validate_account_config(ncore("user", "\t")).unwrap_err(), "password is required");
}

#[test]
fn accounts_are_enabled_by_default() {
    assert!(default_enabled());
}
