//! The protocol.
use vault::vault_ipc::proto::{
    ApiKeyCreds, ApiKeyStatus, CardWrite, Copied, Error, Field, IdentityWrite, Item, ListEntry,
    PinStatus, Removed, Response, Saved, Status,
};
use vault::vault_ipc::socket::{default_socket_path, sanitize_socket_path, uid_string};
use vault::vault_ipc::transport::{
    decode_frame, encode_frame, frame_length, FrameError, MAX_FRAME,
};

#[test]
fn card_write_debug_redacts_secrets() {
    let c = CardWrite {
        brand: Some("Visa".into()),
        number: Some(b"4111111111111111".to_vec()),
        code: Some(b"123".to_vec()),
        ..CardWrite::default()
    };
    let rendered = c.debug_text();
    assert!(rendered.contains("Visa"));
    assert!(!rendered.contains("4111"), "number leaked: {rendered}");
    assert!(!rendered.contains("123"), "cvv leaked: {rendered}");
    assert_eq!(
        rendered,
        "CardWrite { cardholder: None, brand: Some(\"Visa\"), number: Some(\"<redacted>\"), \
         exp_month: None, exp_year: None, code: Some(\"<redacted>\") }"
    );
}

#[test]
fn other_secrets_are_redacted_too() {
    let i = IdentityWrite {
        city: Some("Amber".into()),
        ssn: Some(b"123-45-6789".to_vec()),
        ..IdentityWrite::default()
    };
    let rendered = i.debug_text();
    assert!(rendered.contains("city: Some(\"Amber\")"));
    assert!(rendered.contains("ssn: Some(\"<redacted>\")"));
    assert!(!rendered.contains("6789"));
    let k = ApiKeyCreds {
        client_id: "user.abc".into(),
        client_secret: b"s3cr3t".to_vec(),
    };
    assert_eq!(
        k.debug_text(),
        "ApiKeyCreds { client_id: \"user.abc\", client_secret: \"<redacted>\" }"
    );
}

#[test]
fn oversized_length_prefix_is_rejected() {
    let len = MAX_FRAME + 1;
    assert_eq!(
        frame_length(&len.to_be_bytes()),
        Err(FrameError::LengthExceedsMax)
    );
    assert_eq!(
        decode_frame(&len.to_be_bytes()),
        Err(FrameError::LengthExceedsMax)
    );
    assert_eq!(frame_length(&MAX_FRAME.to_be_bytes()), Ok(MAX_FRAME as usize));
}

#[test]
fn short_read_returns_unexpected_eof() {
    assert_eq!(decode_frame(&[]), Err(FrameError::UnexpectedEof));
    assert_eq!(decode_frame(&[0, 0, 0]), Err(FrameError::UnexpectedEof));
    assert_eq!(decode_frame(&[0, 0, 0, 2, 9]), Err(FrameError::UnexpectedEof));
}

#[test]
fn multiple_frames_on_one_stream() {
    let mut stream = encode_frame(b"first").unwrap();
    stream.extend_from_slice(&encode_frame(b"").unwrap());
    stream.extend_from_slice(&encode_frame(b"third").unwrap());
    assert_eq!(stream[..4], [0, 0, 0, 5]);
    let (a, n) = decode_frame(&stream).unwrap();
    assert_eq!(a, b"first");
    let (b, m) = decode_frame(&stream[n..]).unwrap();
    assert_eq!(b, b"");
    let (c, k) = decode_frame(&stream[n + m..]).unwrap();
    assert_eq!(c, b"third");
    assert_eq!(n + m + k, stream.len());
}

#[test]
fn bodies_have_a_largest_length() {
    let body = vec![0u8; MAX_FRAME as usize];
    let frame = encode_frame(&body).unwrap();
    assert_eq!(frame.len(), body.len() + 4);
    assert_eq!(frame[..4], MAX_FRAME.to_be_bytes());
    let body = vec![0u8; MAX_FRAME as usize + 1];
    assert_eq!(encode_frame(&body), Err(FrameError::ExceedsMax));
    assert_eq!(FrameError::ExceedsMax.message(), "frame exceeds MAX_FRAME");
}

#[test]
fn socket_paths_are_absolute() {
    assert_eq!(sanitize_socket_path(""), None);
    assert_eq!(sanitize_socket_path("run/agent.sock"), None);
    assert_eq!(
        sanitize_socket_path("/run/agent.sock").as_deref(),
        Some("/run/agent.sock")
    );
    assert_eq!(
        default_socket_path(&Some("/run/user/1000".into()), "/tmp", "1000"),
        "/run/user/1000/vault/agent.sock"
    );
    assert_eq!(
        default_socket_path(&None, "/tmp/", "1000"),
        "/tmp/vault-1000/agent.sock"
    );
}

#[test]
fn the_user_is_read_from_the_process_status() {
    let status = "Name:\tvault\nUmask:\t0022\nUid:\t1000\t1000\t1000\t1000\nGid:\t5\n";
    assert_eq!(uid_string(status), "1000");
    assert_eq!(uid_string("Name:\tvault\n"), "unknown");
    assert_eq!(uid_string("Uid:   \nUid: 7"), "7");
}

#[test]
fn errors_are_told_in_words() {
    assert_eq!(Error::Locked.message(), "agent is locked");
    assert_eq!(Error::BadPassword.message(), "bad password");
    assert_eq!(Error::Network("x".into()).message(), "network: x");
    assert_eq!(Error::NoSuchItem("x".into()).message(), "no item named x");
    assert_eq!(
        Error::AmbiguousItem {
            name: "x".into(),
            ids: vec!["1".into(), "2".into()],
        }
        .message(),
        "name x is ambiguous (matches 2 items: 1, 2)"
    );
    assert_eq!(
        Error::NoSuchField {
            item: "x".into(),
            field: "totp".into(),
        }
        .message(),
        "item x has no totp"
    );
    assert_eq!(Error::Decrypt("x".into()).message(), "decrypt failed: x");
    assert_eq!(
        Error::BadPin {
            attempts_remaining: 3
        }
        .message(),
        "incorrect PIN (3 attempt(s) left)"
    );
    assert_eq!(Error::Internal("x".into()).message(), "internal: x");
    assert_eq!(
        Error::Offline.message(),
        "offline session — unlock again while online to sync or modify items"
    );
}

#[test]
fn the_password_is_the_default_field() {
    assert_eq!(Field::default(), Field::Password);
    assert_eq!(Field::CardNumber.name(), "cardnumber");
    assert_eq!(Field::Custom("K".into()).name(), "custom:K");
}

#[test]
fn logged_texts_are_escaped() {
    let k = ApiKeyCreds {
        client_id: "user.\"1\"\n".into(),
        client_secret: b"s3cret".to_vec(),
    };
    assert_eq!(
        k.debug_text(),
        "ApiKeyCreds { client_id: \"user.\\\"1\\\"\\n\", client_secret: \"<redacted>\" }"
    );
}

#[test]
fn answers_are_written_out_field_by_field() {
    let text = |s: &str| s.to_owned();
    let status = Status {
        unlocked: true,
        server: Some(text("https://h")),
        email: None,
        items: Some(3),
        last_sync: None,
        agent_version: text("0.1.0"),
        clipboard_backend: Some(text("a\"b")),
    };
    let row = ListEntry {
        id: text("1"),
        name: text("n\n"),
        cipher_type: 1,
        username: Some(text("u")),
        folder: None,
    };
    let item = |field: Field| {
        Response::Item(Item {
            id: text("1"),
            name: text("n"),
            cipher_type: 3,
            field,
            value: text("v"),
        })
    };
    let mut answers = vec![
        Response::Status(status.clone()),
        Response::Status(Status {
            unlocked: false,
            items: None,
            ..status
        }),
        Response::List(vec![]),
        Response::List(vec![row.clone(), row]),
        item(Field::Password),
        item(Field::CardNumber),
        item(Field::IdentityPostal),
        item(Field::Custom(text("x y"))),
        Response::Removed(Removed {
            id: text("1"),
            name: text("n"),
        }),
        Response::Saved(Saved {
            id: text("1"),
            name: text("n"),
        }),
        Response::Copied(Copied {
            clear_after_secs: 30,
        }),
        Response::PinStatus(PinStatus {
            enabled: true,
            attempts_remaining: 5,
        }),
        Response::ApiKeyStatus(ApiKeyStatus {
            configured: false,
            client_id: None,
        }),
    ];
    for e in [
        Error::Locked,
        Error::BadPassword,
        Error::Network(text("x")),
        Error::TwoFactorRequired,
        Error::NoSuchItem(text("x")),
        Error::AmbiguousItem {
            name: text("n"),
            ids: vec![text("1"), text("2")],
        },
        Error::NoSuchField {
            item: text("i"),
            field: text("f"),
        },
        Error::Decrypt(text("x")),
        Error::ClipboardUnavailable,
        Error::Offline,
        Error::BadPin {
            attempts_remaining: 2,
        },
        Error::PinLockedOut,
        Error::PinNotSet,
        Error::FingerprintUnavailable(text("x")),
        Error::Internal(text("x")),
    ] {
        answers.push(Response::Error(e));
    }
    for a in answers {
        assert_eq!(a.debug_text(), format!("{a:?}"));
    }
    assert_eq!(Response::Done.debug_text(), "Ok");
}
