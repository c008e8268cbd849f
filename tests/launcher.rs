use std::collections::HashSet;

use dynamic_launcher::launcher::{Icon, IconReply, IconType, LauncherIcon, LauncherType, LauncherTypes};
use dynamic_launcher::options::PrepareInstallOptions;
use dynamic_launcher::proxy::{decode_install_result, DynamicLauncherProxy};
use dynamic_launcher::request::{Delivery, Error, RequestTracker, ResponseStatus, Slot};
use dynamic_launcher::token::{HandleToken, TokenGenerator};
use dynamic_launcher::wire::{DecodeError, Entry, Value};

fn entry(key: &str, value: Value) -> Entry {
    Entry { key: key.to_string(), value }
}

fn keys(record: &[Entry]) -> Vec<String> {
    record.iter().map(|e| e.key.clone()).collect()
}

fn install_results(name: &str, token: &str) -> Vec<Entry> {
    vec![
        entry("name", Value::Str(name.to_string())),
        entry("token", Value::Str(token.to_string())),
    ]
}

#[test]
fn test_icon_signature() {
    let signature = LauncherIcon::signature();
    assert_eq!(signature, "(vsu)");

    let icon = vec![IconType::Png.as_str()];
    assert_eq!(serde_json::to_string(&icon).unwrap(), "[\"png\"]");
}

#[test]
fn tokens_are_decimal_counter_values() {
    let mut g = TokenGenerator::new();
    assert_eq!(g.new_token().as_str(), "0");
    assert_eq!(g.new_token().as_str(), "1");
    for _ in 2..10 {
        g.new_token();
    }
    assert_eq!(g.new_token().as_str(), "10");
    assert!(!g.exhausted());
}

#[test]
fn tokens_are_pairwise_distinct() {
    let mut proxy = DynamicLauncherProxy::new();
    let mut seen = HashSet::new();
    for _ in 0..500 {
        let t = proxy.new_token().unwrap();
        assert!(seen.insert(t.as_str().to_string()));
    }
    assert_eq!(seen.len(), 500);
}

#[test]
fn options_with_no_field_set_send_only_the_required_ones() {
    let o = PrepareInstallOptions::new(HandleToken::from_string("tok".to_string()));
    let record = o.encode();
    assert_eq!(keys(&record), vec!["handle_token"]);
    assert_eq!(record[0].value, Value::Str("tok".to_string()));
    assert_eq!(PrepareInstallOptions::decode(&record).unwrap(), o);
}

#[test]
fn options_round_trip_keeps_exactly_the_set_fields() {
    let o = PrepareInstallOptions::new(HandleToken::from_string("t7".to_string()))
        .modal(Some(false))
        .launcher_type(LauncherType::WebApplication)
        .target(Some("https://example.org"))
        .editable_icon(Some(true));
    let record = o.encode();
    assert_eq!(
        keys(&record),
        vec!["handle_token", "modal", "launcher_type", "target", "editable_icon"]
    );
    assert_eq!(record[2].value, Value::U32(2));
    let back = PrepareInstallOptions::decode(&record).unwrap();
    assert_eq!(back, o);
    let unset = PrepareInstallOptions::new(HandleToken::from_string("t7".to_string()))
        .modal(Some(false))
        .launcher_type(LauncherType::WebApplication)
        .target(Some("https://example.org"))
        .editable_icon(Some(true))
        .editable_name(Some(true));
    assert_ne!(back, unset);
}

#[test]
fn options_decode_errors() {
    let missing_token = vec![entry("launcher_type", Value::U32(1))];
    assert_eq!(PrepareInstallOptions::decode(&missing_token), Err(DecodeError::Truncated));
    let wrong_shape = vec![
        entry("handle_token", Value::Str("a".to_string())),
        entry("modal", Value::U32(1)),
        entry("launcher_type", Value::U32(1)),
    ];
    assert_eq!(PrepareInstallOptions::decode(&wrong_shape), Err(DecodeError::SignatureMismatch));
    let bad_type = vec![
        entry("handle_token", Value::Str("a".to_string())),
        entry("launcher_type", Value::U32(3)),
    ];
    assert_eq!(PrepareInstallOptions::decode(&bad_type), Err(DecodeError::UnknownVariant));
}

#[test]
fn icon_round_trip_for_each_format() {
    let formats = [IconType::Png, IconType::Jpeg, IconType::Svg];
    let tags = ["png", "jpeg", "svg"];
    for (t, tag) in formats.iter().zip(tags.iter()) {
        let icons = vec![
            Icon::Bytes(vec![0x89, 0x50, 0x4e, 0x47]),
            Icon::with_names(vec!["dialog-symbolic".to_string()]),
            Icon::File("/usr/share/icons/app.svg".to_string()),
        ];
        let copies = vec![
            Icon::Bytes(vec![0x89, 0x50, 0x4e, 0x47]),
            Icon::with_names(vec!["dialog-symbolic".to_string()]),
            Icon::File("/usr/share/icons/app.svg".to_string()),
        ];
        for (icon, copy) in icons.into_iter().zip(copies.into_iter()) {
            let reply = LauncherIcon::new(icon, *t, 48).encode();
            assert_eq!(reply.format, *tag);
            assert_eq!(reply.size, 48);
            let back = LauncherIcon::decode(reply).unwrap();
            assert_eq!(back, LauncherIcon::new(copy, *t, 48));
        }
    }
}

#[test]
fn icon_kinds_on_the_wire() {
    let (kind, data) = Icon::with_names(vec!["a".to_string()]).encode();
    assert_eq!(kind, "themed");
    assert_eq!(data, Value::StrList(vec!["a".to_string()]));
    let (kind, _) = Icon::Bytes(vec![]).encode();
    assert_eq!(kind, "bytes");
    let (kind, _) = Icon::File("/x".to_string()).encode();
    assert_eq!(kind, "file");
}

#[test]
fn icon_reply_decodes_bytes_png_64() {
    let reply = IconReply {
        icon_kind: "bytes".to_string(),
        icon_data: Value::Bytes(vec![1, 2, 3]),
        format: "png".to_string(),
        size: 64,
    };
    let icon = DynamicLauncherProxy::icon(reply).unwrap();
    assert_eq!(*icon.icon(), Icon::Bytes(vec![1, 2, 3]));
    assert_eq!(icon.type_(), IconType::Png);
    assert_eq!(icon.size(), 64);
}

#[test]
fn icon_reply_with_unknown_format_is_refused() {
    let reply = IconReply {
        icon_kind: "file".to_string(),
        icon_data: Value::Str("/tmp/icon".to_string()),
        format: "bogus".to_string(),
        size: 10,
    };
    assert_eq!(
        DynamicLauncherProxy::icon(reply).err(),
        Some(Error::Decode(DecodeError::UnknownVariant))
    );
    let wrong = IconReply {
        icon_kind: "bytes".to_string(),
        icon_data: Value::Str("x".to_string()),
        format: "png".to_string(),
        size: 10,
    };
    assert_eq!(LauncherIcon::decode(wrong).err(), Some(DecodeError::SignatureMismatch));
    let unknown_kind = IconReply {
        icon_kind: "emblem".to_string(),
        icon_data: Value::Str("x".to_string()),
        format: "png".to_string(),
        size: 10,
    };
    assert_eq!(LauncherIcon::decode(unknown_kind).err(), Some(DecodeError::UnknownVariant));
}

#[test]
fn supported_types_one_is_application_only() {
    let t = DynamicLauncherProxy::supported_launcher_types(1).unwrap();
    assert!(t.contains(LauncherType::Application));
    assert!(!t.contains(LauncherType::WebApplication));
    assert_eq!(t.bits(), 1);
    let both = LauncherTypes::from_bits(3).unwrap();
    assert!(both.contains(LauncherType::WebApplication));
    assert_eq!(
        DynamicLauncherProxy::supported_launcher_types(4).err(),
        Some(Error::Decode(DecodeError::UnknownVariant))
    );
    assert_eq!(LauncherType::default(), LauncherType::Application);
    assert_eq!(LauncherType::WebApplication.bit(), 2);
}

#[test]
fn cancelled_request_drains_a_late_signal() {
    let mut tracker = RequestTracker::new();
    let h = "/req/1".to_string();
    let other = "/req/2".to_string();
    tracker.register(h.clone()).unwrap();
    tracker.register(other.clone()).unwrap();
    assert!(tracker.cancel(&h));
    assert!(!tracker.cancel(&h));
    assert_eq!(
        tracker.deliver(&h, Ok(install_results("a", "b"))),
        Delivery::Drained
    );
    assert!(tracker.take(&h).is_none());
    assert!(tracker.slot_of(&h).is_none());
    assert!(matches!(tracker.slot_of(&other), Some(Slot::Awaiting)));
    assert_eq!(
        tracker.deliver(&h, Ok(install_results("a", "b"))),
        Delivery::Ignored
    );
}

#[test]
fn success_resolves_with_payload_and_cancel_status_declines() {
    let mut proxy = DynamicLauncherProxy::new();
    let a = "/req/a".to_string();
    let b = "/req/b".to_string();
    proxy.await_response(a.clone()).unwrap();
    proxy.await_response(b.clone()).unwrap();
    assert_eq!(proxy.on_response(&b, 1, vec![]), Delivery::Resolved);
    assert!(proxy.prepare_install_result(&a).is_none());
    assert_eq!(proxy.on_response(&a, 0, install_results("x.desktop", "t")), Delivery::Resolved);
    assert_eq!(
        proxy.prepare_install_result(&a),
        Some(Ok(("x.desktop".to_string(), "t".to_string())))
    );
    assert_eq!(
        proxy.prepare_install_result(&b),
        Some(Err(Error::RequestDeclined(ResponseStatus::Cancelled)))
    );
    assert!(proxy.prepare_install_result(&a).is_none());
}

#[test]
fn other_status_and_bad_payload_are_errors() {
    let mut proxy = DynamicLauncherProxy::new();
    let a = "/req/a".to_string();
    let b = "/req/b".to_string();
    proxy.await_response(a.clone()).unwrap();
    proxy.await_response(b.clone()).unwrap();
    let c = "/req/c".to_string();
    proxy.await_response(c.clone()).unwrap();
    assert_eq!(proxy.on_response(&c, 7, vec![]), Delivery::Resolved);
    assert_eq!(
        proxy.prepare_install_result(&c),
        Some(Err(Error::Decode(DecodeError::UnknownVariant)))
    );
    assert_eq!(proxy.on_response(&a, 2, vec![]), Delivery::Resolved);
    assert_eq!(
        proxy.prepare_install_result(&a),
        Some(Err(Error::RequestDeclined(ResponseStatus::Other)))
    );
    proxy.on_response(&b, 0, vec![entry("name", Value::Str("n".to_string()))]);
    assert_eq!(
        proxy.prepare_install_result(&b),
        Some(Err(Error::Decode(DecodeError::Truncated)))
    );
    assert_eq!(
        decode_install_result(&vec![entry("name", Value::Bool(true))]),
        Err(DecodeError::SignatureMismatch)
    );
}

#[test]
fn duplicate_waiter_is_refused() {
    let mut proxy = DynamicLauncherProxy::new();
    let h = "/req/x".to_string();
    assert_eq!(proxy.await_response(h.clone()), Ok(()));
    assert_eq!(proxy.await_response(h.clone()), Err(Error::DuplicateWaiter));
}

#[test]
fn lost_connection_resolves_pending_requests() {
    let mut proxy = DynamicLauncherProxy::new();
    let a = "/req/a".to_string();
    let b = "/req/b".to_string();
    proxy.await_response(a.clone()).unwrap();
    proxy.await_response(b.clone()).unwrap();
    proxy.cancel(&b);
    proxy.connection_lost();
    assert_eq!(proxy.prepare_install_result(&a), Some(Err(Error::ConnectionLost)));
    assert!(proxy.prepare_install_result(&b).is_none());
}

#[test]
fn prepare_install_scenario() {
    let mut proxy = DynamicLauncherProxy::new();
    let options = proxy.prepare_install_options().unwrap();
    let token = options.handle_token().as_str().to_string();
    let call = proxy.prepare_install(
        "",
        "My App",
        Icon::with_names(vec!["dialog-symbolic".to_string()]),
        &options,
    );
    assert_eq!(call.name, "My App");
    assert_eq!(call.icon_kind, "themed");
    assert_eq!(call.icon_data, Value::StrList(vec!["dialog-symbolic".to_string()]));
    assert_eq!(keys(&call.options), vec!["handle_token"]);
    assert_eq!(call.options[0].value, Value::Str(token.clone()));

    let handle = format!("/org/freedesktop/portal/desktop/request/1_42/{}", token);
    proxy.await_response(handle.clone()).unwrap();
    assert!(proxy.prepare_install_result(&handle).is_none());
    let delivery = proxy.on_response(&handle, 0, install_results("My App.desktop", "tok123"));
    assert_eq!(delivery, Delivery::Resolved);
    assert_eq!(
        proxy.prepare_install_result(&handle),
        Some(Ok(("My App.desktop".to_string(), "tok123".to_string())))
    );
}

#[test]
fn launcher_type_is_sent_only_when_set() {
    let token = HandleToken::from_string("t1".to_string());
    let o = PrepareInstallOptions::new(token).launcher_type(LauncherType::Application);
    let record = o.encode();
    assert_eq!(keys(&record), vec!["handle_token", "launcher_type"]);
    assert_eq!(record[1].value, Value::U32(1));
    assert_eq!(PrepareInstallOptions::decode(&record).unwrap(), o);
}

#[test]
fn prefixed_tokens_start_with_the_prefix() {
    let mut proxy = DynamicLauncherProxy::with_token_prefix("dl7_".to_string());
    assert_eq!(proxy.new_token().unwrap().as_str(), "dl7_0");
    let o = proxy.prepare_install_options().unwrap();
    assert_eq!(o.handle_token().as_str(), "dl7_1");
    let mut g = TokenGenerator::with_prefix("x".to_string());
    assert_eq!(g.new_token().as_str(), "x0");
}

#[test]
fn value_of_another_kind_is_a_signature_mismatch() {
    let record = vec![
        entry("handle_token", Value::Str("a".to_string())),
        entry("target", Value::Other),
    ];
    assert_eq!(PrepareInstallOptions::decode(&record), Err(DecodeError::SignatureMismatch));
    assert_eq!(
        decode_install_result(&vec![entry("name", Value::Other)]),
        Err(DecodeError::SignatureMismatch)
    );
}
