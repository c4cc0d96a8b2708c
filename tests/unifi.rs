use unifi::address::{is_hex_byte_field, parse_mac_addr, InvalidAddress};
use unifi::config::{validate_config, ConfigError, Credential, UnifiConfig};
use unifi::json::json_object2_text;
use unifi::response::{classify, Outcome, TransportError};
use unifi::session::{
    client_settings, command_request, login_request, station_endpoint, Phase, Run,
    StationCommand, Step,
};

fn config(user: Option<&str>, password: Option<&str>, macs: &[&str]) -> UnifiConfig {
    UnifiConfig {
        base_url: "https://controller:8443".to_string(),
        site: "default".to_string(),
        accept_invalid_certs: true,
        user: user.map(|u| u.to_string()),
        password: password.map(|p| p.to_string()),
        client_macs: macs.iter().map(|m| m.to_string()).collect(),
    }
}

/// Drives a run against a fixed list of outcomes; returns the requests sent
/// (url, body) and the result.
fn drive(
    command: StationCommand,
    cfg: UnifiConfig,
    outcomes: &[Outcome],
) -> (Vec<(String, String)>, Result<(), TransportError>) {
    let (mut run, login) = Run::start(command, cfg);
    let mut sent = vec![(login.url, login.body)];
    for o in outcomes {
        match run.on_outcome(*o) {
            Step::Send(req) => sent.push((req.url, req.body)),
            Step::Finished(res) => return (sent, res),
        }
    }
    panic!("outcomes ran out before the run finished")
}

#[test]
fn it_works() {
    assert_eq!(2 + 2, 4);
}

#[test]
fn mac_well_formed() {
    assert_eq!(parse_mac_addr("AA:BB:CC:DD:EE:FF"), Ok(()));
    assert_eq!(parse_mac_addr("00:11:22:33:44:55"), Ok(()));
    assert_eq!(parse_mac_addr("a:b:c:d:e:f"), Ok(()));
    assert_eq!(parse_mac_addr("0FF:00:00:00:00:00"), Ok(()));
    assert_eq!(parse_mac_addr("+A:00:00:00:00:00"), Ok(()));
}

#[test]
fn mac_wrong_field_count() {
    assert_eq!(parse_mac_addr("AA:BB:CC"), Err(InvalidAddress));
    assert_eq!(parse_mac_addr("AA:BB:CC:DD:EE:FF:00"), Err(InvalidAddress));
    assert_eq!(parse_mac_addr(""), Err(InvalidAddress));
    assert_eq!(parse_mac_addr("AABBCCDDEEFF"), Err(InvalidAddress));
}

#[test]
fn mac_bad_field() {
    assert_eq!(parse_mac_addr("GG:00:00:00:00:00"), Err(InvalidAddress));
    assert_eq!(parse_mac_addr("AA::CC:DD:EE:FF"), Err(InvalidAddress));
    assert_eq!(parse_mac_addr("100:00:00:00:00:00"), Err(InvalidAddress));
    assert_eq!(parse_mac_addr("+:00:00:00:00:00"), Err(InvalidAddress));
    assert_eq!(parse_mac_addr("-1:00:00:00:00:00"), Err(InvalidAddress));
    assert_eq!(parse_mac_addr(" AA:BB:CC:DD:EE:FF"), Err(InvalidAddress));
}

#[test]
fn hex_byte_field_bounds() {
    assert!(is_hex_byte_field(&vec!['f', 'F']));
    assert!(is_hex_byte_field(&vec!['0', '0', '0', '1']));
    assert!(!is_hex_byte_field(&vec!['1', '0', '0']));
    assert!(!is_hex_byte_field(&vec![]));
    assert!(!is_hex_byte_field(&vec!['+']));
}

#[test]
fn missing_user_everywhere() {
    let r = validate_config(config(None, Some("pw"), &["AA:BB:CC:DD:EE:FF"]), None, None);
    assert_eq!(r.err(), Some(ConfigError::MissingCredential(Credential::User)));
    assert_eq!(Credential::User.name(), "user");
}

#[test]
fn missing_password_everywhere() {
    let r = validate_config(config(Some("admin"), None, &[]), None, None);
    assert_eq!(r.err(), Some(ConfigError::MissingCredential(Credential::Password)));
    assert_eq!(Credential::Password.name(), "password");
}

#[test]
fn credentials_from_override() {
    let r = validate_config(
        config(None, None, &["AA:BB:CC:DD:EE:FF"]),
        Some("cli-user".to_string()),
        Some("cli-pw".to_string()),
    );
    let c = r.ok().unwrap();
    assert_eq!(c.user.as_deref(), Some("cli-user"));
    assert_eq!(c.password.as_deref(), Some("cli-pw"));
    assert_eq!(c.client_macs, vec!["AA:BB:CC:DD:EE:FF".to_string()]);
}

#[test]
fn configured_credentials_win() {
    let r = validate_config(
        config(Some("file-user"), Some("file-pw"), &[]),
        Some("cli-user".to_string()),
        Some("cli-pw".to_string()),
    );
    let c = r.ok().unwrap();
    assert_eq!(c.user.as_deref(), Some("file-user"));
    assert_eq!(c.password.as_deref(), Some("file-pw"));
}

#[test]
fn first_bad_address_reported() {
    let r = validate_config(
        config(Some("u"), Some("p"), &["AA:BB:CC:DD:EE:FF", "ZZ:00:00:00:00:00", "AA:BB"]),
        None,
        None,
    );
    assert_eq!(r.err(), Some(ConfigError::BadAddress("ZZ:00:00:00:00:00".to_string())));
}

#[test]
fn bad_address_before_missing_credential() {
    let r = validate_config(config(None, None, &["AA:BB"]), None, None);
    assert_eq!(r.err(), Some(ConfigError::BadAddress("AA:BB".to_string())));
}

#[test]
fn classify_outcomes() {
    assert_eq!(classify(Outcome::Status(200)), Ok(()));
    assert_eq!(classify(Outcome::Status(204)), Ok(()));
    assert_eq!(classify(Outcome::Status(503)), Err(TransportError::ServerError(503)));
    assert_eq!(classify(Outcome::Status(500)), Err(TransportError::ServerError(500)));
    assert_eq!(classify(Outcome::Status(404)), Err(TransportError::UnexpectedStatus(404)));
    assert_eq!(classify(Outcome::Status(301)), Err(TransportError::UnexpectedStatus(301)));
    assert_eq!(classify(Outcome::Status(600)), Err(TransportError::UnexpectedStatus(600)));
    assert_eq!(classify(Outcome::SendFailed), Err(TransportError::SendFailed));
}

#[test]
fn json_object_text() {
    assert_eq!(json_object2_text("a", "x\"y", "b", ""), "{\"a\":\"x\\\"y\",\"b\":\"\"}");
}

#[test]
fn login_request_text() {
    let r = login_request("https://c:8443", "admin", "secret");
    assert_eq!(r.url, "https://c:8443/api/login");
    assert_eq!(r.body, "{\"username\":\"admin\",\"password\":\"secret\"}");
}

#[test]
fn command_request_text() {
    let endpoint = station_endpoint("https://c:8443", "default");
    assert_eq!(endpoint, "https://c:8443/api/s/default/cmd/stamgr");
    let r = command_request(&endpoint, StationCommand::BlockStation, "AA:BB:CC:DD:EE:FF");
    assert_eq!(r.url, "https://c:8443/api/s/default/cmd/stamgr");
    assert_eq!(r.body, "{\"cmd\":\"block-sta\",\"mac\":\"AA:BB:CC:DD:EE:FF\"}");
    let r = command_request(&endpoint, StationCommand::UnblockStation, "a:b:c:d:e:f");
    assert_eq!(r.body, "{\"cmd\":\"unblock-sta\",\"mac\":\"a:b:c:d:e:f\"}");
}

#[test]
fn settings_follow_config() {
    let s = client_settings(&config(None, None, &[]));
    assert!(s.cookie_store && !s.gzip && s.tcp_nodelay && s.accept_invalid_certs);
    let mut c = config(None, None, &[]);
    c.accept_invalid_certs = false;
    assert!(!client_settings(&c).accept_invalid_certs);
}

#[test]
fn empty_target_list_succeeds() {
    let (sent, res) = drive(StationCommand::BlockStation, config(Some("u"), Some("p"), &[]), &[
        Outcome::Status(200),
    ]);
    assert_eq!(res, Ok(()));
    assert_eq!(sent.len(), 1);
    assert_eq!(sent[0].0, "https://controller:8443/api/login");
}

#[test]
fn all_addresses_commanded_in_order() {
    let macs = ["AA:BB:CC:DD:EE:01", "AA:BB:CC:DD:EE:02", "AA:BB:CC:DD:EE:03"];
    let ok = Outcome::Status(200);
    let (sent, res) = drive(StationCommand::UnblockStation, config(Some("u"), Some("p"), &macs), &[
        ok, ok, ok, ok,
    ]);
    assert_eq!(res, Ok(()));
    assert_eq!(sent.len(), 4);
    for (i, mac) in macs.iter().enumerate() {
        assert_eq!(sent[i + 1].0, "https://controller:8443/api/s/default/cmd/stamgr");
        assert_eq!(sent[i + 1].1, format!("{{\"cmd\":\"unblock-sta\",\"mac\":\"{}\"}}", mac));
    }
}

#[test]
fn second_command_server_error_stops_run() {
    let macs = ["AA:BB:CC:DD:EE:01", "AA:BB:CC:DD:EE:02", "AA:BB:CC:DD:EE:03"];
    let (sent, res) = drive(StationCommand::BlockStation, config(Some("u"), Some("p"), &macs), &[
        Outcome::Status(200),
        Outcome::Status(200),
        Outcome::Status(503),
        Outcome::Status(200),
    ]);
    assert_eq!(res, Err(TransportError::ServerError(503)));
    let commands: Vec<&(String, String)> = sent.iter().skip(1).collect();
    assert_eq!(commands.len(), 2);
    assert!(commands[0].1.contains("AA:BB:CC:DD:EE:01"));
    assert!(commands[1].1.contains("AA:BB:CC:DD:EE:02"));
    assert!(!sent.iter().any(|s| s.1.contains("AA:BB:CC:DD:EE:03")));
}

#[test]
fn login_failure_sends_no_command() {
    let (sent, res) = drive(
        StationCommand::BlockStation,
        config(Some("u"), Some("p"), &["AA:BB:CC:DD:EE:FF"]),
        &[Outcome::Status(401)],
    );
    assert_eq!(res, Err(TransportError::UnexpectedStatus(401)));
    assert_eq!(sent.len(), 1);
    assert_eq!(sent[0].1, "{\"username\":\"u\",\"password\":\"p\"}");
}

#[test]
fn send_failure_on_login() {
    let (mut run, _) = Run::start(StationCommand::BlockStation, config(Some("u"), Some("p"), &[
        "AA:BB:CC:DD:EE:FF",
    ]));
    match run.on_outcome(Outcome::SendFailed) {
        Step::Finished(res) => assert_eq!(res, Err(TransportError::SendFailed)),
        Step::Send(_) => panic!("a request after a failed login"),
    }
    assert_eq!(run.phase, Phase::Finished);
}
