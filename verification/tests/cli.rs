//! The command line.
use vault::vault_agent::clipboard::BackendChoice;
use vault::vault_cli::commands::{
    add_password, add_request, card_fields_asked, check_origin, code_wanted, config_lines,
    confirms_purge, confirms_removal, consent, edit_password, edit_request, entered_api_key,
    entered_code, entered_secret, generate_options, given_code, identity_fields_asked,
    named_account, new_pin, parse_expiry, plan, print_login_summary, print_removed, print_row,
    print_saved, print_status, report_error, resolve_account, resolve_arg, settle, Account,
    AddArgs, Command, Consent, EditArgs, Expected, KindArg, PasswordSource, EXIT_OTHER,
};
use vault::vault_cli::config::{agent_args, every_key, known_keys, AccountCfg, Config};
use vault::vault_cli::env_exec::parse_item_spec;
use vault::vault_cli::spawn::{keep_waiting, resolve_binary, socket_is_dead, ConnectFailure};
use vault::vault_ipc::proto::{
    CardWrite, Error, Field, IdentityWrite, ListEntry, Removed, Request, Response, Saved, Status,
};

#[test]
fn set_then_get_round_trips_both_keys() {
    let mut c = Config::default();
    c.set("clipboard.clear_secs", "45").expect("set");
    c.set("agent.idle_lock_secs", "600").expect("set");
    assert_eq!(c.get("clipboard.clear_secs").unwrap().as_deref(), Some("45"));
    assert_eq!(c.get("agent.idle_lock_secs").unwrap().as_deref(), Some("600"));
    assert_eq!(c.clipboard_clear_secs(), Some(45));
    assert_eq!(c.idle_lock_secs(), Some(600));
}

#[test]
fn get_unset_key_is_none_not_error() {
    let c = Config::default();
    assert_eq!(c.get("clipboard.clear_secs"), Ok(None));
}

#[test]
fn set_rejects_unknown_key_and_bad_value() {
    let mut c = Config::default();
    assert!(c.set("bogus.key", "1").is_err());
    let err = c.set("clipboard.clear_secs", "not-a-number").unwrap_err();
    assert!(err.contains("clipboard.clear_secs"), "{err}");
    assert_eq!(c.clipboard_clear_secs(), None);
    assert_eq!(
        err,
        "clipboard.clear_secs: expected a non-negative integer, got 'not-a-number'"
    );
}

#[test]
fn unset_clears_a_set_key_and_rejects_unknown() {
    let mut c = Config::default();
    c.set("clipboard.clear_secs", "45").expect("set");
    c.unset("clipboard.clear_secs").expect("unset");
    assert_eq!(c.clipboard_clear_secs(), None);
    assert!(c.unset("nope.nope").is_err());
}

#[test]
fn zero_is_a_valid_disabling_value() {
    let mut c = Config::default();
    c.set("clipboard.clear_secs", "0").expect("set");
    assert_eq!(c.clipboard_clear_secs(), Some(0));
}

#[test]
fn known_keys_are_all_reachable_by_get_set_unset() {
    for key in &known_keys() {
        let mut c = Config::default();
        assert!(c.get(key).is_ok(), "get missing {key}");
        assert!(c.set(key, "1").is_ok(), "set missing {key}");
        assert!(c.unset(key).is_ok(), "unset missing {key}");
    }
}

#[test]
fn set_account_lowercases_email_and_mints_device_id_once() {
    let mut c = Config::default();
    c.set_account("https://vault.example.org", "Me@Example.org").unwrap();
    assert_eq!(
        c.account().server.as_deref(),
        Some("https://vault.example.org")
    );
    assert_eq!(c.account().email.as_deref(), Some("me@example.org"));
    let id = c.account().device_id.clone().expect("device_id minted");
    c.set_account("https://other.example.org", "Other@Example.org").unwrap();
    assert_eq!(c.account().device_id.as_deref(), Some(id.as_str()));
    assert_eq!(c.account().email.as_deref(), Some("other@example.org"));
}

#[test]
fn agent_args_emits_only_set_keys_in_order() {
    let mut c = Config::default();
    assert!(agent_args(&c).is_empty(), "nothing set → no flags");

    c.set("agent.idle_lock_secs", "600").expect("set");
    assert_eq!(
        agent_args(&c),
        vec!["--idle-lock-secs".to_owned(), "600".to_owned()]
    );

    c.set("clipboard.clear_secs", "45").expect("set");
    assert_eq!(
        agent_args(&c),
        vec![
            "--clipboard-clear-secs".to_owned(),
            "45".to_owned(),
            "--idle-lock-secs".to_owned(),
            "600".to_owned(),
        ]
    );
    c.set("sync.interval_secs", "300").expect("set");
    c.set("clipboard.backend", "osc52").expect("set");
    c.set("agent.session_keyring", "true").expect("set");
    assert_eq!(
        agent_args(&c)[4..].to_vec(),
        vec![
            "--sync-interval-secs".to_owned(),
            "300".to_owned(),
            "--clipboard-backend".to_owned(),
            "osc52".to_owned(),
            "--session-keyring".to_owned(),
        ]
    );
}

#[test]
fn every_documented_key_is_recognised() {
    let mut c = Config::default();
    c.set("clipboard.backend", "osc52").unwrap();
    assert_eq!(c.clipboard.backend, Some(BackendChoice::Osc52));
    assert_eq!(c.get("clipboard.backend").unwrap().as_deref(), Some("osc52"));
    assert!(c.set("clipboard.backend", "x11").is_err());
    c.set("agent.session_keyring", "true").unwrap();
    c.set("ui.reduced_motion", "false").unwrap();
    c.set("tui.vim", "true").unwrap();
    c.set("sync.interval_secs", "+007").unwrap();
    assert_eq!(c.get("sync.interval_secs").unwrap().as_deref(), Some("7"));
    assert_eq!(
        c.set("tui.vim", "yes").unwrap_err(),
        "tui.vim: expected true or false, got 'yes'"
    );
    assert_eq!(c.get("tui.vim").unwrap().as_deref(), Some("true"));
    assert_eq!(c.get("nope"), Err("nope".to_owned()));
    assert_eq!(
        c.unset("nope").unwrap_err(),
        "unknown config key 'nope' (known: clipboard.clear_secs, agent.idle_lock_secs, \
         sync.interval_secs, clipboard.backend, agent.session_keyring, ui.reduced_motion, tui.vim)"
    );
    assert_eq!(every_key().len(), 7);
    let lines = config_lines(&c);
    assert_eq!(lines[0], "clipboard.clear_secs = (unset)");
    assert_eq!(lines[3], "clipboard.backend = osc52");
    assert_eq!(lines[5], "ui.reduced_motion = false");
    assert!(c.set("clipboard.clear_secs", "18446744073709551616").is_err());
    assert!(c.set("clipboard.clear_secs", "18446744073709551615").is_ok());
    assert!(c.set("clipboard.clear_secs", "").is_err());
    assert!(c.set("clipboard.clear_secs", "-1").is_err());
    assert!(AccountCfg::default().is_empty());
}

#[test]
fn bare_name_defaults_to_password() {
    let spec = parse_item_spec("Anthropic API Key").expect("parse");
    assert_eq!(spec.name, "Anthropic API Key");
    assert_eq!(spec.field, Field::Password);
}

#[test]
fn explicit_field_keywords_parse() {
    assert_eq!(
        parse_item_spec("Item#username").expect("parse").field,
        Field::Username
    );
    assert_eq!(
        parse_item_spec("Item#notes").expect("parse").field,
        Field::Notes
    );
    assert_eq!(
        parse_item_spec("Item#totp").expect("parse").field,
        Field::Totp
    );
    assert_eq!(
        parse_item_spec("Item#PASSWORD").expect("parse").field,
        Field::Password
    );
}

#[test]
fn custom_field_preserves_name_case() {
    let spec = parse_item_spec("Brave Search#custom:API_Key").expect("parse");
    assert_eq!(spec.field, Field::Custom("API_Key".to_owned()));
}

#[test]
fn whitespace_around_name_and_field_is_trimmed() {
    let spec = parse_item_spec("  Item Name  #  username  ").expect("parse");
    assert_eq!(spec.name, "Item Name");
    assert_eq!(spec.field, Field::Username);
}

#[test]
fn rejects_empty_name_and_unknown_field() {
    assert!(parse_item_spec("#password").is_err());
    assert!(parse_item_spec("Item#bogus").is_err());
    assert!(parse_item_spec("Item#custom:").is_err());
    assert_eq!(
        parse_item_spec(" #x").unwrap_err(),
        "empty item name in exec spec ' #x'"
    );
    assert_eq!(
        parse_item_spec("Item#Bogus").unwrap_err(),
        "unknown exec field 'Bogus' (expected password/username/notes/totp/custom:<name>)"
    );
}

#[test]
fn resolve_binary_prefers_override_then_sibling_then_path() {
    let over = Some("/opt/vault-agent".to_owned());
    let sib = Some("/bin-dir/vault-agent".to_owned());
    assert_eq!(resolve_binary(over, sib.clone()), "/opt/vault-agent");
    assert_eq!(
        resolve_binary(Some(String::new()), sib.clone()),
        "/bin-dir/vault-agent"
    );
    assert_eq!(resolve_binary(None, sib), "/bin-dir/vault-agent");
    assert_eq!(resolve_binary(None, None), "vault-agent");
}

#[test]
fn socket_is_dead_only_for_missing_or_refused() {
    assert!(socket_is_dead(ConnectFailure::NotFound));
    assert!(socket_is_dead(ConnectFailure::ConnectionRefused));
    assert!(!socket_is_dead(ConnectFailure::PermissionDenied));
    assert!(!socket_is_dead(ConnectFailure::Other));
    assert!(keep_waiting(1999));
    assert!(!keep_waiting(2000));
}

#[test]
fn errors_have_exit_codes() {
    assert_eq!(report_error(&Error::Locked), 4);
    assert_eq!(report_error(&Error::BadPassword), 5);
    assert_eq!(report_error(&Error::TwoFactorRequired), 6);
    assert_eq!(report_error(&Error::NoSuchItem("x".into())), 7);
    assert_eq!(
        report_error(&Error::NoSuchField {
            item: "x".into(),
            field: "y".into()
        }),
        8
    );
    assert_eq!(
        report_error(&Error::AmbiguousItem {
            name: "x".into(),
            ids: vec![]
        }),
        10
    );
    assert_eq!(report_error(&Error::Offline), 11);
    assert_eq!(report_error(&Error::Internal("x".into())), 9);
    assert_eq!(report_error(&Error::ClipboardUnavailable), 9);
}

#[test]
fn answers_are_settled_by_their_kind() {
    assert!(matches!(settle(Expected::Ack, Response::Done), Ok(Response::Done)));
    assert!(matches!(settle(Expected::Synced, Response::Done), Ok(_)));
    assert!(matches!(
        settle(Expected::List, Response::Error(Error::Locked)),
        Err((4, m)) if m == "agent is locked"
    ));
    assert!(matches!(
        settle(Expected::List, Response::Done),
        Err((EXIT_OTHER, m)) if m == "unexpected response from agent: Ok"
    ));
}

#[test]
fn commands_make_requests() {
    let p = plan(Command::StopAgent);
    assert!(!p.spawn, "an agent is not started to be stopped");
    assert!(matches!(p.request, Request::Quit));
    let p = plan(Command::Get {
        name: "github".into(),
        field: Field::Totp,
    });
    assert!(p.spawn);
    assert_eq!(p.expected, Expected::Item);
    assert!(matches!(
        p.request,
        Request::Get { id: None, field: Some(Field::Totp), .. }
    ));
    let p = plan(Command::UnlockPin {
        account: Account {
            server: "https://x".into(),
            email: "a@b".into(),
            device_id: None,
        },
        pin: b"1234".to_vec(),
    });
    assert!(matches!(p.request, Request::UnlockPin { pin, .. } if pin == b"1234"));
}

#[test]
fn accounts_come_from_flags_then_environment_then_profile() {
    let profile = AccountCfg {
        server: Some("https://profile".into()),
        email: Some("p@x".into()),
        device_id: Some("dev".into()),
    };
    let a = resolve_account(None, Some("https://env".into()), None, None, &profile).unwrap();
    assert_eq!(a.server, "https://env");
    assert_eq!(a.email, "p@x");
    assert_eq!(a.device_id.as_deref(), Some("dev"));
    let none = AccountCfg::default();
    assert!(resolve_account(None, None, Some("a@b".into()), None, &none).is_err());
    assert!(resolve_account(Some("s".into()), None, None, None, &none).is_err());
    assert_eq!(
        resolve_arg(None, Some(String::new()), "--server", "VAULT_SERVER"),
        Err("missing --server (or $VAULT_SERVER)".to_owned())
    );
    assert_eq!(
        resolve_arg(None, Some("e".into()), "--server", "VAULT_SERVER"),
        Ok("e".to_owned())
    );
    assert!(check_origin("https://x").is_ok());
    assert!(check_origin("http://x").is_ok());
    assert_eq!(
        check_origin("ftp://x").unwrap_err(),
        "server must be an http(s):// origin, got 'ftp://x'"
    );
}

#[test]
fn one_end_of_line_is_stripped() {
    assert_eq!(entered_secret("pw\n"), Some(b"pw".to_vec()));
    assert_eq!(entered_secret("pw\r\n"), Some(b"pw".to_vec()));
    assert_eq!(entered_secret("pw \n\n"), Some(b"pw \n".to_vec()));
    assert_eq!(entered_secret("\r\n"), None);
    assert_eq!(entered_secret(""), None);
    assert_eq!(entered_secret("pé"), Some("pé".as_bytes().to_vec()));
    assert_eq!(new_pin("123\n"), Err("PIN must be at least 4 characters"));
    assert_eq!(new_pin("1234\n"), Ok(b"1234".to_vec()));
}

#[test]
fn deletions_are_confirmed() {
    assert!(confirms_removal(" github \n", "github"));
    assert!(!confirms_removal("GitHub", "github"));
    assert!(confirms_purge("y\n"));
    assert!(confirms_purge("yes"));
    assert!(!confirms_purge("YES"));
    assert!(!confirms_purge(""));
    assert_eq!(consent(true, false), Consent::Given);
    assert_eq!(consent(false, true), Consent::Ask);
    assert_eq!(consent(false, false), Consent::Refuse);
}

#[test]
fn new_items_take_the_fields_of_their_kind() {
    let args = |kind: KindArg| AddArgs {
        name: "n".into(),
        kind,
        username: Some("u".into()),
        uri: Some("https://x".into()),
        folder: None,
        notes: None,
        card: Some(vault::vault_ipc::proto::CardWrite::default()),
        identity: None,
    };
    match add_request(args(KindArg::Login), Some(b"pw".to_vec())) {
        Request::Add { cipher_type, username, password, card, .. } => {
            assert_eq!(cipher_type, 1);
            assert_eq!(username.as_deref(), Some("u"));
            assert_eq!(password, Some(b"pw".to_vec()));
            assert!(card.is_none());
        }
        _ => panic!("expected Add"),
    }
    match add_request(args(KindArg::Card), Some(b"pw".to_vec())) {
        Request::Add { cipher_type, username, password, card, uri, .. } => {
            assert_eq!(cipher_type, 3);
            assert!(username.is_none() && password.is_none() && uri.is_none());
            assert!(card.is_some());
        }
        _ => panic!("expected Add"),
    }
    let e = EditArgs {
        selector: "s".into(),
        name: None,
        username: Some("u".into()),
        uri: None,
        folder: None,
        notes: None,
        card: None,
        identity: None,
    };
    assert!(matches!(
        edit_request(e, None),
        Request::Edit { selector, password: None, .. } if selector == "s"
    ));
    assert_eq!(add_password(KindArg::Login, Some(9)), PasswordSource::Generate(9));
    assert_eq!(add_password(KindArg::Login, None), PasswordSource::Enter);
    assert_eq!(add_password(KindArg::Note, Some(9)), PasswordSource::Nowhere);
    assert_eq!(edit_password(true, None), PasswordSource::Enter);
    assert_eq!(edit_password(false, None), PasswordSource::Nowhere);
    assert!(!generate_options(8, false, true, false, false).lowercase);
    assert_eq!(KindArg::Identity.cipher_type(), 4);
}

#[test]
fn expiries_are_read_in_two_forms() {
    assert_eq!(parse_expiry("04/2030"), Ok(("4".to_owned(), "2030".to_owned())));
    assert_eq!(parse_expiry("12/31"), Ok(("12".to_owned(), "2031".to_owned())));
    for bad in ["13/2030", "0/2030", "04-2030", "04/203", "+4/2030", "/2030", "004/2030", "04/20x0"] {
        assert_eq!(
            parse_expiry(bad),
            Err(format!("invalid expiry '{bad}' (expected MM/YYYY or MM/YY)"))
        );
    }
}

#[test]
fn outcomes_are_told_in_lines() {
    let status = Status {
        unlocked: true,
        server: Some("https://x".into()),
        email: Some("a@b".into()),
        items: Some(12),
        last_sync: None,
        agent_version: "0.1.0".into(),
        clipboard_backend: Some("osc52".into()),
    };
    assert_eq!(
        print_status(&status),
        vec![
            "unlocked",
            "server:        https://x",
            "email:         a@b",
            "items:         12",
            "agent version: 0.1.0",
            "clipboard:     osc52",
        ]
    );
    assert_eq!(print_login_summary("a@b", &status), "logged in as a@b · 12 items");
    let row = ListEntry {
        id: "1".into(),
        name: "github".into(),
        cipher_type: 1,
        username: None,
        folder: Some("Work".into()),
    };
    assert_eq!(print_row(&row), "github\t\tWork");
    let saved = Saved {
        id: "1".into(),
        name: "n".into(),
    };
    assert_eq!(
        print_saved(&saved, &Some("pw".into())),
        vec!["saved: n (1)", "generated password: pw"]
    );
    assert_eq!(
        print_removed(&Removed {
            id: "1".into(),
            name: "n".into()
        }),
        "removed: n (1)"
    );
}

#[test]
fn accounts_are_registered_from_the_line_or_the_environment() {
    let some = |s: &str| Some(s.to_owned());
    assert_eq!(
        named_account(None, some(""), some("a@b"), None),
        Err("missing --server (or $VAULT_SERVER)".to_owned())
    );
    assert_eq!(
        named_account(some("h"), None, None, None),
        Err("missing --email (or $VAULT_EMAIL)".to_owned())
    );
    assert_eq!(
        named_account(some("h"), None, some("a@b"), None),
        Err("server must be an http(s):// origin, got 'h'".to_owned())
    );
    let (server, email) =
        named_account(None, some("https://h"), some(" A@b "), some("x")).unwrap();
    let mut c = Config::default();
    assert_eq!(
        c.set_account_with(&server, &email, None),
        Err(vault::vault_core::Error::Random)
    );
    assert!(c.account().is_empty());
    assert!(c.set_account_with(&server, &email, Some([0u8; 16])).is_ok());
    assert_eq!(c.account().server.as_deref(), Some("https://h"));
    assert_eq!(c.account().email.as_deref(), Some("a@b"));
    assert_eq!(
        c.account().device_id.as_deref(),
        Some("00000000-0000-4000-8000-000000000000")
    );
    assert!(c.set_account_with("https://i", "a@b", None).is_ok());
}

#[test]
fn an_authenticator_code_is_given_or_entered() {
    let token = |flag: Option<&str>, env: Option<&str>| {
        given_code(&flag.map(str::to_owned), &env.map(str::to_owned)).map(|c| c.token)
    };
    assert_eq!(token(Some("123456"), Some("654321")).as_deref(), Some("123456"));
    assert_eq!(token(None, Some(" 654321\n")).as_deref(), Some("654321"));
    assert_eq!(token(Some(" "), Some("654321")), None);
    assert_eq!(token(None, None), None);
    assert_eq!(entered_code("123 456\n").unwrap().token, "123 456");
    assert!(entered_code(" \n").is_none());
    assert!(code_wanted(&Response::Error(Error::TwoFactorRequired)));
    assert!(!code_wanted(&Response::Error(Error::Locked)));
    assert!(!code_wanted(&Response::Done));
}

#[test]
fn an_api_key_has_both_parts() {
    let key = entered_api_key(" user.1\n", "secret \r\n").unwrap();
    assert_eq!(key.client_id, "user.1");
    assert_eq!(key.client_secret, b"secret ");
    assert_eq!(entered_api_key(" ", "s").err(), Some("empty client_id"));
    assert_eq!(entered_api_key("user.1", "\n").err(), Some("empty client_secret"));
}

#[test]
fn card_and_identity_fields_go_along_where_they_are_asked_for() {
    let brand = CardWrite {
        brand: Some("Visa".into()),
        ..CardWrite::default()
    };
    assert_eq!(card_fields_asked(false, false, brand).unwrap().brand.as_deref(), Some("Visa"));
    assert!(card_fields_asked(false, false, CardWrite::default()).is_none());
    assert!(card_fields_asked(false, true, CardWrite::default()).is_some());
    assert!(card_fields_asked(true, false, CardWrite::default()).is_some());
    let country = IdentityWrite {
        country: Some("NZ".into()),
        ..IdentityWrite::default()
    };
    assert!(identity_fields_asked(false, false, country).is_some());
    assert!(identity_fields_asked(false, false, IdentityWrite::default()).is_none());
    assert!(identity_fields_asked(false, true, IdentityWrite::default()).is_some());
    assert!(identity_fields_asked(true, false, IdentityWrite::default()).is_some());
}
