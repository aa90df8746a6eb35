use wattch::config::ServiceConfig;
use wattch::daemon::{
    error_code, list_sources_response, plan_request, start_response, stop_response, stream_sources,
    wattch_error_response,
    DaemonConfig, DaemonState, RequestPlan, CODE_BAD_REQUEST, CODE_INTERNAL,
    CODE_INTERVAL_TOO_LOW, CODE_SOURCE_NOT_FOUND, CODE_SOURCE_UNAVAILABLE,
    CODE_STREAM_ALREADY_RUNNING, CODE_STREAM_NOT_RUNNING, CODE_UNSUPPORTED_VERSION,
};
use wattch::proto::{
    Error, HelloRequest, HelloResponse, ListSourcesRequest, Request, RequestKind, Response,
    ResponseKind, StartStreamRequest, StartStreamResponse, StopStreamRequest, StopStreamResponse,
};
use wattch::daemon::{socket_owner_ids, source_backend, SourceBackend};
use wattch::sources::push_powercap_source;
use wattch::{PowercapSource, WattchError};

fn daemon() -> DaemonState<&'static str> {
    DaemonState::new(DaemonConfig::from_service_config(ServiceConfig::default()))
}

fn start(source_ids: Vec<u32>, interval_ns: u64) -> Request {
    Request {
        request_id: 2,
        kind: Some(RequestKind::StartStream(StartStreamRequest {
            source_ids,
            interval_ns,
            include_raw: false,
        })),
    }
}

fn zone(source_id: u32, available: bool) -> PowercapSource {
    PowercapSource {
        source_id,
        name: format!("rapl:{source_id}"),
        kind: "rapl".to_string(),
        unit: "joule".to_string(),
        available,
        path: format!("/zones/{source_id}"),
        max_energy_uj: 262_143_000_000,
    }
}

fn reply(plan: RequestPlan) -> Response {
    match plan {
        RequestPlan::Reply(response) => response,
        _ => panic!("expected an immediate reply"),
    }
}

#[test]
fn hello_is_answered_with_daemon_version() {
    let request = Request {
        request_id: 1,
        kind: Some(RequestKind::Hello(HelloRequest {
            protocol_version: 1,
            client_name: "integration-test".to_string(),
        })),
    };
    assert_eq!(
        reply(plan_request(request, None)),
        Response {
            request_id: 1,
            kind: Some(ResponseKind::Hello(HelloResponse {
                protocol_version: 1,
                daemon_version: "0.1.0".to_string(),
            })),
        }
    );
}

#[test]
fn hello_with_other_version_is_refused() {
    let request = Request {
        request_id: 4,
        kind: Some(RequestKind::Hello(HelloRequest {
            protocol_version: 2,
            client_name: "x".to_string(),
        })),
    };
    assert_eq!(
        reply(plan_request(request, Some(100_000))),
        Response {
            request_id: 4,
            kind: Some(ResponseKind::Error(Error {
                code: CODE_UNSUPPORTED_VERSION,
                message: "unsupported protocol version".to_string(),
            })),
        }
    );
}

#[test]
fn request_without_kind_is_refused() {
    let response = reply(plan_request(Request { request_id: 9, kind: None }, None));
    assert_eq!(
        response.kind,
        Some(ResponseKind::Error(Error {
            code: CODE_BAD_REQUEST,
            message: "missing request kind".to_string(),
        }))
    );
}

#[test]
fn second_start_is_refused_already_running() {
    let response = reply(plan_request(start(vec![1], 10_000_000), Some(100_000_000)));
    assert_eq!(
        response,
        Response {
            request_id: 2,
            kind: Some(ResponseKind::Error(Error {
                code: CODE_STREAM_ALREADY_RUNNING,
                message: "stream already running".to_string(),
            })),
        }
    );
}

#[test]
fn daemon_rejects_second_active_stream() {
    let mut state = daemon();
    let first = Request {
        request_id: 4,
        kind: Some(RequestKind::StartStream(StartStreamRequest {
            source_ids: Vec::new(),
            interval_ns: 100_000_000,
            include_raw: false,
        })),
    };
    let (request_id, interval_ns) = match plan_request(first, state.active_stream_interval_ns()) {
        RequestPlan::StartStream { request_id, interval_ns, .. } => (request_id, interval_ns),
        _ => panic!("expected a stream start"),
    };
    let started = state.begin_stream(interval_ns, "first");
    assert!(matches!(
        start_response(request_id, interval_ns, started).kind,
        Some(ResponseKind::StartStream(_))
    ));

    let second = Request {
        request_id: 5,
        kind: Some(RequestKind::StartStream(StartStreamRequest {
            source_ids: Vec::new(),
            interval_ns: 100_000_000,
            include_raw: false,
        })),
    };
    let response = reply(plan_request(second, state.active_stream_interval_ns()));
    assert_eq!(response.request_id, 5);
    match response.kind {
        Some(ResponseKind::Error(error)) => assert_eq!(error.code, 6),
        other => panic!("unexpected response: {other:?}"),
    }
    assert_eq!(state.active_stream_interval_ns(), Some(100_000_000));
}

#[test]
fn daemon_stop_without_stream_returns_error() {
    let mut state = daemon();
    let stopped = state.stop_stream();
    assert!(stopped.is_none());
    let response = stop_response(6, stopped.is_some());
    match response.kind {
        Some(ResponseKind::Error(error)) => assert_eq!(error.code, 7),
        other => panic!("unexpected response: {other:?}"),
    }
}

#[test]
fn stop_response_for_each_outcome() {
    assert_eq!(
        stop_response(3, true),
        Response {
            request_id: 3,
            kind: Some(ResponseKind::StopStream(StopStreamResponse { stopped: true })),
        }
    );
    assert_eq!(
        stop_response(3, false),
        Response {
            request_id: 3,
            kind: Some(ResponseKind::Error(Error {
                code: CODE_STREAM_NOT_RUNNING,
                message: "stream not running".to_string(),
            })),
        }
    );
}

#[test]
fn stop_after_start_stops_the_stream() {
    let mut state = daemon();
    let id = state.begin_stream(1_000_000, "first").expect("started");
    let stopped = state.stop_stream().expect("a stream ran");
    assert_eq!((stopped.id, stopped.interval_ns, stopped.stop), (id, 1_000_000, "first"));
    assert_eq!(
        stop_response(8, true).kind,
        Some(ResponseKind::StopStream(StopStreamResponse { stopped: true }))
    );
    assert_eq!(state.active_stream_interval_ns(), None);
}

#[test]
fn start_response_for_each_outcome() {
    assert_eq!(
        start_response(7, 2_000_000, Ok(1)),
        Response {
            request_id: 7,
            kind: Some(ResponseKind::StartStream(StartStreamResponse {
                started: true,
                effective_interval_ns: 2_000_000,
            })),
        }
    );
    assert_eq!(
        start_response(7, 2_000_000, Err(WattchError::StreamAlreadyRunning)),
        Response {
            request_id: 7,
            kind: Some(ResponseKind::Error(Error {
                code: CODE_STREAM_ALREADY_RUNNING,
                message: "stream already running".to_string(),
            })),
        }
    );
}

#[test]
fn start_with_low_interval_is_refused() {
    let response = reply(plan_request(start(vec![], 99_999), None));
    assert_eq!(
        response.kind,
        Some(ResponseKind::Error(Error {
            code: CODE_INTERVAL_TOO_LOW,
            message: "sampling interval too low: 99999 ns (minimum 100000 ns)".to_string(),
        }))
    );
}

#[test]
fn other_requests_are_planned() {
    match plan_request(start(vec![3, 1], 2_000_000), None) {
        RequestPlan::StartStream { request_id, interval_ns, source_ids } => {
            assert_eq!((request_id, interval_ns, source_ids), (2, 2_000_000, vec![3, 1]));
        }
        _ => panic!("expected a stream start"),
    }
    let list = Request { request_id: 5, kind: Some(RequestKind::ListSources(ListSourcesRequest {})) };
    assert!(matches!(plan_request(list, None), RequestPlan::ListSources { request_id: 5 }));
    let stop = Request { request_id: 6, kind: Some(RequestKind::StopStream(StopStreamRequest {})) };
    assert!(matches!(plan_request(stop, None), RequestPlan::StopStream { request_id: 6 }));
}

#[test]
fn listed_sources_follow_discovery() {
    let response = list_sources_response(3, Ok(vec![zone(1, true), zone(2, false)]));
    match response.kind {
        Some(ResponseKind::ListSources(list)) => {
            assert_eq!(list.sources.len(), 2);
            assert_eq!(list.sources[0].name, "rapl:1");
            assert!(!list.sources[1].available);
        }
        other => panic!("unexpected response: {other:?}"),
    }
    let response = list_sources_response(3, Err(WattchError::Internal("no tree".to_string())));
    assert_eq!(
        response.kind,
        Some(ResponseKind::Error(Error {
            code: CODE_INTERNAL,
            message: "internal error: no tree".to_string(),
        }))
    );
}

#[test]
fn stream_sources_checks_and_picks() {
    let zones = vec![zone(1, true), zone(2, false), zone(3, true)];
    let picked = stream_sources(2, &[], Ok(zones.clone())).expect("all available");
    assert_eq!(picked.iter().map(|z| z.source_id).collect::<Vec<_>>(), vec![1, 3]);
    let picked = stream_sources(2, &[3], Ok(zones.clone())).expect("requested");
    assert_eq!(picked, vec![zone(3, true)]);
    let refused = stream_sources(2, &[2], Ok(zones.clone())).expect_err("unavailable");
    assert_eq!(
        refused.kind,
        Some(ResponseKind::Error(Error {
            code: CODE_SOURCE_UNAVAILABLE,
            message: "source unavailable: 2".to_string(),
        }))
    );
    let refused = stream_sources(2, &[8], Ok(zones)).expect_err("missing");
    assert_eq!(
        refused.kind,
        Some(ResponseKind::Error(Error {
            code: CODE_SOURCE_NOT_FOUND,
            message: "source not found: 8".to_string(),
        }))
    );
}

#[test]
fn error_codes() {
    assert_eq!(error_code(&WattchError::BadRequest(String::new())), CODE_BAD_REQUEST);
    assert_eq!(error_code(&WattchError::StreamAlreadyRunning), CODE_STREAM_ALREADY_RUNNING);
    assert_eq!(error_code(&WattchError::StreamNotRunning), CODE_STREAM_NOT_RUNNING);
    assert_eq!(error_code(&WattchError::FrameTooLarge { size: 1, max: 0 }), CODE_INTERNAL);
    let response = wattch_error_response(11, WattchError::StreamAlreadyRunning);
    assert_eq!(response.request_id, 11);
    assert_eq!(
        response.kind,
        Some(ResponseKind::Error(Error {
            code: CODE_STREAM_ALREADY_RUNNING,
            message: "stream already running".to_string(),
        }))
    );
}

#[test]
fn daemon_allows_one_stream_at_a_time() {
    let mut state = daemon();
    assert_eq!(state.active_stream_interval_ns(), None);
    assert_eq!(state.begin_stream(10_000_000, "first").expect("first start"), 1);
    assert_eq!(state.active_stream_interval_ns(), Some(10_000_000));
    assert!(matches!(
        state.begin_stream(20_000_000, "second"),
        Err(WattchError::StreamAlreadyRunning)
    ));
    assert_eq!(state.active_stream_interval_ns(), Some(10_000_000));
}

#[test]
fn daemon_stop_and_stale_finish() {
    let mut state = daemon();
    assert!(state.stop_stream().is_none());
    let first = state.begin_stream(1_000_000, "first").expect("start");
    let stopped = state.stop_stream().expect("running stream");
    assert_eq!((stopped.id, stopped.interval_ns, stopped.stop), (first, 1_000_000, "first"));
    let second = state.begin_stream(2_000_000, "second").expect("restart");
    assert_ne!(first, second);
    state.finish_stream(first);
    assert_eq!(state.active_stream_interval_ns(), Some(2_000_000));
    state.finish_stream(second);
    assert_eq!(state.active_stream_interval_ns(), None);
}

#[test]
fn daemon_config_copies_service_config() {
    let mut service = ServiceConfig::with_sudo_ids(Some("12"), None);
    service.powercap_root = "/tmp/pc".to_string();
    let config = DaemonConfig::from_service_config(service);
    assert_eq!(config.socket_path, "/run/wattch/wattch.sock");
    assert_eq!(config.socket_uid, Some(12));
    assert_eq!(config.powercap_root, "/tmp/pc");
    let state: DaemonState<()> = DaemonState::new(config);
    assert_eq!(state.config().socket_mode, 0o600);
}

#[test]
fn discovered_zones_are_numbered_in_order() {
    let mut zones = Vec::new();
    push_powercap_source(&mut zones, "/t/intel-rapl/intel-rapl:0", "package-0\n", 262_143_000_000);
    push_powercap_source(&mut zones, "/t/intel-rapl/intel-rapl:0/intel-rapl:0:0", " core ", 1);
    assert_eq!(zones.len(), 2);
    assert_eq!(zones[0].source_id, 1);
    assert_eq!(zones[0].name, "rapl:package-0");
    assert_eq!(zones[1].source_id, 2);
    assert_eq!(zones[1].name, "rapl:core");
    assert_eq!(zones[1].kind, "rapl");
    assert_eq!(zones[1].unit, "joule");
    assert!(zones[1].available);
    let proto = zones[0].to_proto();
    assert_eq!(proto.source_id, 1);
    assert_eq!(proto.name, "rapl:package-0");
    assert_eq!(wattch::SourceMetadata::source_name(&zones[1]), "rapl:core");
    let boxed = Box::new(zones[1].clone());
    assert_eq!(wattch::SourceMetadata::to_proto(&boxed), zones[1].to_proto());
}

#[test]
fn sysfs_numbers_are_parsed() {
    assert_eq!(wattch::sources::parse_u64_file("/x/energy_uj", " 500000\n").expect("n"), 500_000);
    let error = wattch::sources::parse_u64_file("/x/energy_uj", "lots").expect_err("bad");
    assert_eq!(
        error.to_string(),
        "internal error: failed to parse /x/energy_uj as u64: invalid digit found in string"
    );
}

#[test]
fn source_backend_values() {
    assert_eq!(source_backend(None).expect("unset"), SourceBackend::Powercap);
    assert_eq!(source_backend(Some("powercap")).expect("powercap"), SourceBackend::Powercap);
    assert_eq!(source_backend(Some("rapl")).expect("rapl"), SourceBackend::Powercap);
    assert_eq!(source_backend(Some("fake")).expect("fake"), SourceBackend::Fake);
    let error = source_backend(Some("Fake")).expect_err("case matters");
    assert_eq!(
        error.to_string(),
        "bad request: invalid WATTCH_SOURCE_BACKEND value \"Fake\": expected powercap, rapl, or fake"
    );
    assert!(source_backend(Some("")).is_err());
}

#[test]
fn socket_owner_defaults() {
    assert_eq!(socket_owner_ids(None, None), None);
    assert_eq!(socket_owner_ids(Some(1000), None), Some((1000, u32::MAX)));
    assert_eq!(socket_owner_ids(None, Some(7)), Some((u32::MAX, 7)));
    assert_eq!(socket_owner_ids(Some(1), Some(2)), Some((1, 2)));
}

#[test]
fn refused_start_keeps_the_running_streams_handle() {
    let mut state = daemon();
    let id = state.begin_stream(1_000_000, "first").expect("started");
    assert!(matches!(state.begin_stream(2_000_000, "second"), Err(WattchError::StreamAlreadyRunning)));
    let stopped = state.stop_stream().expect("a stream ran");
    assert_eq!((stopped.id, stopped.interval_ns, stopped.stop), (id, 1_000_000, "first"));
    assert!(state.stop_stream().is_none());
}

#[test]
fn finish_of_another_stream_keeps_the_handle() {
    let mut state = daemon();
    let id = state.begin_stream(1_000_000, "first").expect("started");
    state.finish_stream(id.wrapping_add(7));
    let stopped = state.stop_stream().expect("still running");
    assert_eq!(stopped.stop, "first");
    let id = state.begin_stream(3_000_000, "again").expect("started");
    state.finish_stream(id);
    assert!(state.stop_stream().is_none());
}

#[test]
fn outside_errors_render_as_their_own_text() {
    let error = WattchError::Io(std::io::Error::new(std::io::ErrorKind::Other, "disk gone"));
    assert_eq!(error.to_string(), "disk gone");
}
