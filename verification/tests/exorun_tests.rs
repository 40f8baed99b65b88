use std::time::Duration;

use isocore::ids::{ComponentId, InstanceId, PeerId};
use isocore::kv::Kv;
use isocore::ledger::{
    check_wire_safe, ComponentItem, ComponentType, Error as LedgerError, FuncType, FunctionSignature,
    InstanceType, InterfaceSchema, Ledger, WireType,
};
use isocore::peer::{reply_count_violation, CallFailure, Error as PeerError, Peer, PeerConfig, PeerState};
use isocore::system::{SystemTarget, WasiSystem};
use isocore::host::{Error as HostError, HostInstance, Logger, Wasi};
use isocore::client::{CallFailure as ClientFailure, Client, Error as ClientError};
use isocore::transport::{CallTransport, Error as TransportError};

fn s(text: &str) -> String {
    text.to_string()
}

fn func(params: Vec<(&str, WireType)>, results: Vec<WireType>) -> ComponentItem {
    ComponentItem::ComponentFunc(FuncType {
        params: params.into_iter().map(|(n, t)| (s(n), t)).collect(),
        results,
    })
}

fn instance(exports: Vec<(&str, ComponentItem)>) -> ComponentItem {
    ComponentItem::ComponentInstance(InstanceType {
        exports: exports.into_iter().map(|(n, i)| (s(n), i)).collect(),
    })
}

fn component(imports: Vec<(&str, ComponentItem)>) -> ComponentType {
    ComponentType { imports: imports.into_iter().map(|(n, i)| (s(n), i)).collect() }
}

// -----------------------------------------------------------------------------
// Identifiers
// -----------------------------------------------------------------------------

#[test]
fn ids_display_with_their_prefix() {
    assert_eq!(ComponentId(7).to_string(), "component-7");
    assert_eq!(PeerId(0).to_string(), "peer-0");
    assert_eq!(InstanceId(18446744073709551615).to_string(), "instance-18446744073709551615");
}

#[test]
fn peer_id_get_instance_keeps_peer_and_target() {
    let inst = PeerId(42).get_instance(s("service-1"));
    assert_eq!(inst.peer_id, PeerId(42));
    assert_eq!(inst.target_id, "service-1");
}

// -----------------------------------------------------------------------------
// Peer lifecycle
// -----------------------------------------------------------------------------

fn peer() -> Peer {
    Peer::new(s("test-peer"), PeerConfig::default())
}

#[test]
fn test_peer_initial_state_is_connected() {
    let p = peer();
    assert_eq!(p.state(), PeerState::Connected);
    assert_eq!(p.pending_len(), 0);
}

#[test]
fn test_peer_state_after_shutdown() {
    let mut p = peer();
    assert_eq!(p.state(), PeerState::Connected);
    p.shutdown();
    assert_eq!(p.state(), PeerState::Shutdown);
}

#[test]
fn test_shutdown_notifies_pending_requests() {
    let mut p = peer();
    let a = p.prepare_call();
    let b = p.prepare_call();
    let mut released = p.shutdown();
    released.sort();
    assert_eq!(released, vec![a, b]);
    assert_eq!(p.pending_len(), 0);
}

#[test]
fn test_shutdown_is_idempotent() {
    let mut p = peer();
    p.prepare_call();
    assert_eq!(p.shutdown().len(), 1);
    assert_eq!(p.shutdown().len(), 0);
    assert_eq!(p.state(), PeerState::Shutdown);
}

#[test]
fn test_call_after_shutdown_returns_error() {
    let mut p = peer();
    p.shutdown();
    assert!(matches!(p.check_call(), Err(PeerError::Shutdown)));
    let seq = p.prepare_call();
    assert!(matches!(p.check_send(seq), Err(PeerError::Shutdown)));
    assert!(!p.is_pending(seq));
}

#[test]
fn test_reconnect_on_shutdown_peer_fails() {
    let mut p = peer();
    p.shutdown();
    assert!(matches!(p.reconnect(), Err(PeerError::Shutdown)));
    assert_eq!(p.state(), PeerState::Shutdown);
}

#[test]
fn test_reconnect_while_connected_fails() {
    let mut p = peer();
    assert!(matches!(p.reconnect(), Err(PeerError::AlreadyConnected)));
    assert_eq!(p.state(), PeerState::Connected);
}

#[test]
fn test_reconnect_resets_state_to_connected() {
    let mut p = peer();
    p.pump_exited();
    assert_eq!(p.state(), PeerState::Disconnected);
    assert!(p.reconnect().is_ok());
    assert_eq!(p.state(), PeerState::Connected);
    assert!(p.check_call().is_ok());
}

#[test]
fn test_pump_death_updates_state_to_disconnected() {
    let mut p = peer();
    let seq = p.prepare_call();
    let released = p.pump_exited();
    assert_eq!(released, vec![seq]);
    assert_eq!(p.state(), PeerState::Disconnected);
}

#[test]
fn test_pump_exit_after_shutdown_keeps_shutdown() {
    let mut p = peer();
    p.shutdown();
    p.pump_exited();
    assert_eq!(p.state(), PeerState::Shutdown);
}

#[test]
fn test_call_after_pump_death_returns_disconnected_not_timeout() {
    let mut p = peer();
    p.pump_exited();
    assert!(matches!(p.check_call(), Err(PeerError::Disconnected)));
    let seq = p.prepare_call();
    assert!(matches!(p.check_send(seq), Err(PeerError::Disconnected)));
    assert!(!p.is_pending(seq));
}

#[test]
fn test_default_timeout_is_30_seconds() {
    let config = PeerConfig::default();
    assert_eq!(config.call_timeout, Duration::from_secs(30));
    assert_eq!(config.max_pending, 0);
}

#[test]
fn test_max_pending_rejects_excess() {
    let config = PeerConfig { call_timeout: Duration::from_secs(5), max_pending: 2 };
    let mut p = Peer::new(s("limited"), config);
    assert!(p.check_call().is_ok());
    p.prepare_call();
    assert!(p.check_call().is_ok());
    p.prepare_call();
    assert!(matches!(p.check_call(), Err(PeerError::TooManyPendingRequests { limit: 2 })));
}

#[test]
fn test_unlimited_pending_when_zero() {
    let mut p = peer();
    for _ in 0..100 {
        p.prepare_call();
    }
    assert_eq!(p.pending_len(), 100);
    assert!(p.check_call().is_ok());
}

#[test]
fn test_send_failure_removes_pending_and_returns_error() {
    let mut p = peer();
    let seq = p.prepare_call();
    assert!(p.check_send(seq).is_ok());
    let e = p.fail_call(seq, CallFailure::SendFailed(TransportError::Io(s("boom"))));
    assert!(matches!(e, PeerError::Transport(TransportError::Io(ref m)) if m == "boom"));
    assert!(!p.is_pending(seq));
    assert_eq!(p.pending_len(), 0);
}

#[test]
fn test_call_failures_map_to_errors() {
    let mut p = peer();
    let a = p.prepare_call();
    let b = p.prepare_call();
    let c = p.prepare_call();
    assert!(matches!(p.fail_call(a, CallFailure::TimedOut), PeerError::Timeout));
    assert!(matches!(p.fail_call(b, CallFailure::ChannelClosed), PeerError::ChannelClosed));
    assert!(matches!(p.fail_call(c, CallFailure::TransportMissing), PeerError::Disconnected));
    assert_eq!(p.pending_len(), 0);
}

#[test]
fn test_sequence_numbers_start_at_one_and_replies_release_once() {
    let mut p = peer();
    assert_eq!(p.prepare_call(), 1);
    assert_eq!(p.prepare_call(), 2);
    assert_eq!(p.prepare_call(), 3);
    assert!(p.take_reply(2));
    assert!(!p.take_reply(2));
    assert!(!p.take_reply(99));
    assert_eq!(p.pending_len(), 2);
    assert!(p.is_pending(1) && p.is_pending(3));
}

#[test]
fn test_peer_name_is_preserved() {
    let p = Peer::new(s("my-special-peer"), PeerConfig::default());
    assert_eq!(p.peer_name(), "my-special-peer");
}

#[test]
fn peer_state_byte_roundtrip() {
    for st in [PeerState::Connected, PeerState::Disconnected, PeerState::Shutdown] {
        assert_eq!(PeerState::from_u8(st.to_u8()), st);
    }
    assert_eq!(PeerState::Disconnected.to_u8(), 1);
    assert_eq!(PeerState::from_u8(200), PeerState::Shutdown);
}

#[test]
fn peer_error_messages() {
    assert_eq!(
        PeerError::TooManyPendingRequests { limit: 2 }.message(),
        "too many pending requests (limit: 2)"
    );
    assert_eq!(
        PeerError::SequenceMismatch { expected: 10, received: 205 }.message(),
        "sequence mismatch: expected 10, received 205"
    );
    assert_eq!(PeerError::Shutdown.message(), "peer has been shut down");
    assert_eq!(PeerError::Disconnected.message(), "peer is disconnected");
    assert_eq!(PeerError::AlreadyConnected.message(), "peer is already connected");
    assert_eq!(PeerError::Timeout.message(), "request timed out");
    assert_eq!(PeerError::ChannelClosed.message(), "response channel closed");
    assert_eq!(
        PeerError::Transport(TransportError::ConnectionLost(s("Stream closed"))).message(),
        "transport error: connection lost: Stream closed"
    );
}

#[test]
fn transport_error_messages() {
    assert_eq!(TransportError::Timeout.message(), "request timed out");
    assert_eq!(TransportError::PayloadTooLarge.message(), "payload too large for transport");
    assert_eq!(TransportError::Io(s("disk")).message(), "i/o error: disk");
}

#[test]
fn call_transport_new_builds() {
    let _t = CallTransport::new(|req: &[u8]| -> isocore::transport::Result<Vec<u8>> { Ok(req.to_vec()) });
}

// -----------------------------------------------------------------------------
// Key-value store
// -----------------------------------------------------------------------------

#[test]
fn kv_get_set_and_snapshot() {
    let mut kv = Kv::new();
    assert_eq!(kv.get("a"), None);
    kv.set(s("a"), s("1"));
    kv.set(s("b"), s("2"));
    kv.set(s("a"), s("3"));
    assert_eq!(kv.get("a"), Some(s("3")));
    assert_eq!(kv.get("b"), Some(s("2")));
    assert_eq!(kv.get("c"), None);
    let snap = kv.get_store();
    assert_eq!(snap.len(), 2);
    assert_eq!(snap.get("a"), Some(&s("3")));
    kv.set(s("b"), s("changed"));
    assert_eq!(snap.get("b"), Some(&s("2")));
    let mut names = snap.names();
    names.sort();
    assert_eq!(names, vec![s("a"), s("b")]);
}

#[test]
fn kv_default_is_empty() {
    let kv = Kv::default();
    assert_eq!(kv.get_store().len(), 0);
    assert!(kv.get_store().is_empty());
}

// -----------------------------------------------------------------------------
// System components
// -----------------------------------------------------------------------------

#[test]
fn wasi_system_has_no_interface_name() {
    let target = SystemTarget::Wasi(WasiSystem::new());
    assert_eq!(target.interface_name(), None);
    let _ = WasiSystem::default();
    let _ = Wasi::new();
}

// -----------------------------------------------------------------------------
// Wire safety and the ledger
// -----------------------------------------------------------------------------

#[test]
fn check_wire_safe_accepts_pure_data() {
    let ty = WireType::Record(vec![
        (s("name"), WireType::String),
        (s("tags"), WireType::List(Box::new(WireType::Option(Box::new(WireType::U32))))),
        (s("pair"), WireType::Tuple(vec![WireType::Char, WireType::Float64])),
        (s("kind"), WireType::Variant(vec![(s("a"), None), (s("b"), Some(WireType::S8))])),
        (s("e"), WireType::Enum(vec![s("x")])),
        (s("f"), WireType::Flags(vec![s("y")])),
    ]);
    assert!(check_wire_safe(ty).is_ok());
}

#[test]
fn check_wire_safe_rejects_each_forbidden_kind() {
    assert!(matches!(check_wire_safe(WireType::Own), Err(LedgerError::ResourceNotWireSafe)));
    assert!(matches!(check_wire_safe(WireType::Borrow), Err(LedgerError::ResourceNotWireSafe)));
    assert!(matches!(check_wire_safe(WireType::Future), Err(LedgerError::FutureNotWireSafe)));
    assert!(matches!(check_wire_safe(WireType::Stream), Err(LedgerError::StreamNotWireSafe)));
    assert!(matches!(
        check_wire_safe(WireType::ErrorContext),
        Err(LedgerError::ErrorContextNotWireSafe)
    ));
}

#[test]
fn check_wire_safe_finds_deep_and_first_violation() {
    let nested = WireType::Result {
        ok: Some(Box::new(WireType::Variant(vec![(s("c"), Some(WireType::List(Box::new(WireType::Stream))))]))),
        err: Some(Box::new(WireType::Own)),
    };
    assert!(matches!(check_wire_safe(nested), Err(LedgerError::StreamNotWireSafe)));
    let tuple = WireType::Tuple(vec![WireType::U8, WireType::Future, WireType::Borrow]);
    assert!(matches!(check_wire_safe(tuple), Err(LedgerError::FutureNotWireSafe)));
}

#[test]
fn function_signature_reports_import_name() {
    let f = FuncType { params: vec![(s("h"), WireType::Borrow)], results: vec![] };
    let err = match FunctionSignature::from_func_ty(f, "bad#use-resource") {
        Err(e) => e,
        Ok(_) => panic!("expected an error"),
    };
    assert_eq!(
        err.message(),
        "Import 'bad#use-resource' is not wire-safe: parameter contains forbidden type: Resources cannot cross network boundaries"
    );
    let g = FuncType { params: vec![(s("x"), WireType::U8)], results: vec![WireType::Future] };
    let err = match FunctionSignature::from_func_ty(g, "i#g") {
        Err(e) => e,
        Ok(_) => panic!("expected an error"),
    };
    assert!(matches!(err, LedgerError::InvalidResult { .. }));
    assert_eq!(
        err.message(),
        "Import 'i#g' is not wire-safe: result contains forbidden type: Futures cannot cross network boundaries"
    );
}

#[test]
fn interface_schema_skips_non_functions() {
    let inst = InstanceType {
        exports: vec![
            (s("r"), ComponentItem::Other),
            (s("f"), func(vec![("a", WireType::U8), ("b", WireType::String)], vec![WireType::Bool])),
        ],
    };
    let schema = match InterfaceSchema::from_inst_ty("i", inst) {
        Ok(sc) => sc,
        Err(_) => panic!("expected a schema"),
    };
    assert_eq!(schema.funcs().len(), 1);
    let sig = schema.funcs().get("f").expect("f");
    assert_eq!(sig.params.len(), 2);
    assert_eq!(sig.results.len(), 1);
    assert!(schema.funcs().get("r").is_none());
}

#[test]
fn test_ledger_discovery_scalars() {
    let c = component(vec![(
        "logger",
        instance(vec![("log", func(vec![("msg", WireType::String)], vec![WireType::U32]))]),
    )]);
    let ledger = match Ledger::from_component(c) {
        Ok(l) => l,
        Err(e) => panic!("Ledger creation failed: {}", e.message()),
    };
    let sig = ledger.get_interface_func("logger", "log").expect("logger.log not found");
    assert_eq!(sig.params.len(), 1);
    assert_eq!(sig.results.len(), 1);
}

#[test]
fn test_ledger_discovery_interfaces() {
    let c = component(vec![(
        "kv",
        instance(vec![
            ("get", func(vec![("k", WireType::String)], vec![WireType::String])),
            ("set", func(vec![("k", WireType::String), ("v", WireType::String)], vec![])),
        ]),
    )]);
    let ledger = match Ledger::from_component(c) {
        Ok(l) => l,
        Err(e) => panic!("Ledger creation failed: {}", e.message()),
    };
    let sig_get = ledger.get_interface_func("kv", "get").expect("kv.get not found");
    assert_eq!(sig_get.params.len(), 1);
    assert_eq!(sig_get.results.len(), 1);
}

fn resource_component(bad_func: ComponentItem) -> ComponentType {
    component(vec![
        ("inst", instance(vec![("r", ComponentItem::Other)])),
        ("bad", instance(vec![("f", bad_func)])),
    ])
}

#[test]
fn test_ledger_rejects_resources_in_params() {
    let c = resource_component(func(vec![("h", WireType::Borrow)], vec![]));
    let err = match Ledger::from_component(c) {
        Err(e) => e,
        Ok(_) => panic!("expected an error"),
    };
    assert!(err.message().contains("not wire-safe"));
    assert!(err.message().contains("Resources cannot cross"));
}

#[test]
fn test_ledger_rejects_resources_in_results() {
    let c = resource_component(func(vec![], vec![WireType::Own]));
    let err = match Ledger::from_component(c) {
        Err(e) => e,
        Ok(_) => panic!("expected an error"),
    };
    assert!(err.message().contains("not wire-safe"));
}

#[test]
fn test_ledger_rejects_nested_resources() {
    let c = resource_component(func(vec![("nested", WireType::List(Box::new(WireType::Own)))], vec![]));
    let err = match Ledger::from_component(c) {
        Err(e) => e,
        Ok(_) => panic!("expected an error"),
    };
    assert!(err.message().contains("not wire-safe"));
}

#[test]
fn test_ledger_allows_complex_pure_data() {
    let c = component(vec![(
        "good",
        instance(vec![(
            "process",
            func(
                vec![
                    ("opt", WireType::Option(Box::new(WireType::String))),
                    (
                        "res",
                        WireType::Result {
                            ok: Some(Box::new(WireType::U32)),
                            err: Some(Box::new(WireType::String)),
                        },
                    ),
                    ("lst", WireType::List(Box::new(WireType::U32))),
                    ("tup", WireType::Tuple(vec![WireType::String, WireType::U32])),
                ],
                vec![],
            ),
        )]),
    )]);
    assert!(Ledger::from_component(c).is_ok(), "Should accept pure complex data");
}

#[test]
fn ledger_skips_wasi_and_empty_interfaces() {
    let c = component(vec![
        ("wasi:cli/environment@0.2.0", instance(vec![("get", func(vec![], vec![WireType::Own]))])),
        ("types-only", instance(vec![("r", ComponentItem::Other)])),
        ("f", func(vec![], vec![])),
        ("svc", instance(vec![("run", func(vec![], vec![]))])),
    ]);
    let ledger = match Ledger::from_component(c) {
        Ok(l) => l,
        Err(e) => panic!("Ledger creation failed: {}", e.message()),
    };
    assert_eq!(ledger.interfaces().len(), 1);
    assert!(ledger.get_interface_func("svc", "run").is_some());
    assert!(ledger.get_interface_func("wasi:cli/environment@0.2.0", "get").is_none());
    assert!(ledger.get_interface_func("types-only", "r").is_none());
    assert!(ledger.get_interface_func("svc", "missing").is_none());
}

// -----------------------------------------------------------------------------
// Host components
// -----------------------------------------------------------------------------

#[test]
fn logger_keeps_lines_in_order() {
    let mut logger = Logger::new();
    logger.log("info", "hello");
    logger.log("warn", "world");
    assert_eq!(logger.get_logs(), vec![s("[info] hello"), s("[warn] world")]);
    assert!(Logger::default().get_logs().is_empty());
}

#[test]
fn host_instances_validate_their_interfaces() {
    let wasi = HostInstance::Wasi(Wasi::new());
    assert!(wasi.validate_interface("wasi:cli/stdout@0.2.0").is_ok());
    let logger = HostInstance::Logger(Logger::new());
    assert!(logger.validate_interface("exorun:host/logging").is_ok());
    let kv = HostInstance::Kv(Kv::new());
    assert!(kv.validate_interface("exorun:host/kv").is_ok());

    match wasi.validate_interface("my:kv/store") {
        Err(HostError::Link(msg)) => assert_eq!(
            msg,
            "WASI host instance cannot provide interface 'my:kv/store' (expected 'wasi:*')"
        ),
        Ok(()) => panic!("expected an error"),
    }
    match logger.validate_interface("exorun:host/kv") {
        Err(e) => assert_eq!(
            e.message(),
            "Linker error: Logger host instance cannot provide interface 'exorun:host/kv' (expected 'exorun:host/logging')"
        ),
        Ok(()) => panic!("expected an error"),
    }
    assert!(kv.validate_interface("exorun:host/kv2").is_err());
    assert!(wasi.validate_interface("wasi").is_err());
}

// -----------------------------------------------------------------------------
// Client bookkeeping
// -----------------------------------------------------------------------------

#[test]
fn client_numbers_and_releases_requests() {
    let mut c = Client::new();
    assert_eq!(c.prepare_call(), 1);
    assert_eq!(c.prepare_call(), 2);
    assert!(c.take_reply(1));
    assert!(!c.take_reply(1));
    assert!(matches!(c.fail_call(2, ClientFailure::TimedOut), ClientError::Timeout));
    assert_eq!(c.pending_len(), 0);
    assert_eq!(c.call_timeout(), Duration::from_secs(30));
}

#[test]
fn client_pump_stop_with_one_request_reports_the_message_error() {
    let mut c = Client::new();
    let seq = c.prepare_call();
    let stop = c.pump_stopped(true);
    assert_eq!(stop.failed, Some(seq));
    assert!(stop.lost.is_empty());
    assert_eq!(c.pending_len(), 0);
}

#[test]
fn client_pump_stop_tells_everyone_the_connection_was_lost() {
    let mut c = Client::new();
    let a = c.prepare_call();
    let b = c.prepare_call();
    let mut stop = c.pump_stopped(true);
    assert_eq!(stop.failed, None);
    stop.lost.sort();
    assert_eq!(stop.lost, vec![a, b]);

    let mut c = Client::new();
    let a = c.prepare_call();
    let stop = c.pump_stopped(false);
    assert_eq!(stop.failed, None);
    assert_eq!(stop.lost, vec![a]);
}

#[test]
fn client_error_messages() {
    assert_eq!(ClientError::Timeout.message(), "Request timed out");
    assert_eq!(ClientError::ChannelClosed.message(), "Response channel closed");
    assert_eq!(
        ClientError::SequenceMismatch { expected: 1, received: 2 }.message(),
        "Sequence mismatch: expected 1, received 2"
    );
    assert_eq!(
        ClientError::Transport(TransportError::Timeout).message(),
        "Transport error: request timed out"
    );
}

// -----------------------------------------------------------------------------
// Linking host instances: interface name validation
// -----------------------------------------------------------------------------

fn link_error(instance: &HostInstance, interface: &str) -> String {
    match instance.validate_interface(interface) {
        Err(e) => e.message(),
        Ok(()) => panic!("expected '{}' to be refused", interface),
    }
}

#[test]
fn test_valid_wasi_interface() {
    assert!(HostInstance::Wasi(Wasi::new()).validate_interface("wasi:cli/environment").is_ok());
    assert!(HostInstance::Logger(Logger::new()).validate_interface("exorun:host/logging").is_ok());
}

#[test]
fn test_valid_logger_interface() {
    assert!(HostInstance::Logger(Logger::new()).validate_interface("exorun:host/logging").is_ok());
}

#[test]
fn test_valid_kv_interface() {
    assert!(HostInstance::Kv(Kv::new()).validate_interface("exorun:host/kv").is_ok());
}

#[test]
fn test_multiple_wasi_interfaces() {
    let wasi = HostInstance::Wasi(Wasi::new());
    assert!(wasi.validate_interface("wasi:cli/environment").is_ok());
    assert!(wasi.validate_interface("wasi:io/streams").is_ok());
}

#[test]
fn test_invalid_wasi_interface_name() {
    let msg = link_error(&HostInstance::Wasi(Wasi::new()), "exorun:host/logging");
    assert!(msg.contains("WASI host instance cannot provide interface"));
    assert!(msg.contains("exorun:host/logging"));
}

#[test]
fn test_invalid_logger_interface_name() {
    let msg = link_error(&HostInstance::Logger(Logger::new()), "exorun:host/kv");
    assert!(msg.contains("Logger host instance cannot provide interface"));
    assert!(msg.contains("exorun:host/kv"));
}

#[test]
fn test_invalid_kv_interface_name() {
    let msg = link_error(&HostInstance::Kv(Kv::new()), "exorun:host/logging");
    assert!(msg.contains("Kv host instance cannot provide interface"));
    assert!(msg.contains("exorun:host/logging"));
}

#[test]
fn test_multiple_kv_instances_different_names() {
    let user_kv = HostInstance::Kv(Kv::new());
    let session_kv = HostInstance::Kv(Kv::new());
    assert!(user_kv.validate_interface("exorun:host/kv").is_ok());
    assert!(session_kv.validate_interface("exorun:host/kv").is_ok());
}

#[test]
fn test_wasi_interface_variations() {
    let wasi = HostInstance::Wasi(Wasi::new());
    for interface in [
        "wasi:cli/environment",
        "wasi:cli/exit",
        "wasi:filesystem/types",
        "wasi:filesystem/preopens",
        "wasi:io/streams",
        "wasi:clocks/wall-clock",
        "wasi:random/random",
        "wasi:sockets/network",
    ] {
        assert!(wasi.validate_interface(interface).is_ok(), "WASI should accept interface '{}'", interface);
    }
}

#[test]
fn test_empty_interface_name() {
    assert!(HostInstance::Logger(Logger::new()).validate_interface("").is_err());
    assert!(HostInstance::Wasi(Wasi::new()).validate_interface("").is_err());
    assert!(HostInstance::Kv(Kv::new()).validate_interface("").is_err());
}

#[test]
fn test_wasi_prefix_but_invalid() {
    assert!(HostInstance::Wasi(Wasi::new()).validate_interface("wasi").is_err());
}

#[test]
fn reply_with_the_expected_result_count_is_accepted() {
    assert_eq!(reply_count_violation(0, 0), None);
    assert_eq!(reply_count_violation(2, 2), None);
}

#[test]
fn reply_with_another_result_count_is_a_protocol_violation() {
    assert_eq!(
        reply_count_violation(2, 1),
        Some("Result count mismatch: expected 2, got 1".to_string())
    );
    assert_eq!(
        reply_count_violation(0, 13),
        Some("Result count mismatch: expected 0, got 13".to_string())
    );
}
