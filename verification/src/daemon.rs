//! The daemon's decisions: which response a request gets, which error code
//! an error carries, and the bookkeeping of the one stream that may run.

use vstd::prelude::*;

use crate::config::{opt_chars, ServiceConfig};
use crate::text::{chars_eq, chars_of, debug_str, push_str, str_debug};
use crate::errors::WattchError;
use crate::proto::{
    Error, HelloResponse, ListSourcesResponse, Request, RequestKind, Response, ResponseKind,
    Source, StartStreamResponse, StopStreamResponse,
};
use crate::sources::{
    first_problem, lemma_first_problem_kind, powercap_keys, powercap_to_proto, select_sources, spec_select_powercap,
    validate_source_ids, PowercapSource,
};
use crate::validate_interval_ns;
use crate::MIN_INTERVAL_NS;

verus! {

/// The protocol version the daemon speaks.
pub const PROTOCOL_VERSION: u32 = 1;

/// The daemon's version, as `hello` reports it.
pub const DAEMON_VERSION: &'static str = "0.1.0";

pub const CODE_UNKNOWN: u32 = 1;
pub const CODE_BAD_REQUEST: u32 = 2;
pub const CODE_UNSUPPORTED_VERSION: u32 = 3;
pub const CODE_SOURCE_NOT_FOUND: u32 = 4;
pub const CODE_SOURCE_UNAVAILABLE: u32 = 5;
pub const CODE_STREAM_ALREADY_RUNNING: u32 = 6;
pub const CODE_STREAM_NOT_RUNNING: u32 = 7;
pub const CODE_INTERVAL_TOO_LOW: u32 = 8;
pub const CODE_INTERNAL: u32 = 9;

/// Where the daemon listens and which powercap tree it reads.
#[derive(Debug)]
pub struct DaemonConfig {
    pub socket_path: String,
    pub socket_mode: u32,
    pub socket_uid: Option<u32>,
    pub socket_gid: Option<u32>,
    pub powercap_root: String,
}

impl DaemonConfig {
    /// The daemon's part of the service configuration.
    pub fn from_service_config(config: ServiceConfig) -> (r: Self)
        ensures
            r.socket_path@ == config.socket_path@,
            r.socket_mode == config.socket_mode,
            r.socket_uid == config.socket_uid,
            r.socket_gid == config.socket_gid,
            r.powercap_root@ == config.powercap_root@,
    {
        DaemonConfig {
            socket_path: config.socket_path,
            socket_mode: config.socket_mode,
            socket_uid: config.socket_uid,
            socket_gid: config.socket_gid,
            powercap_root: config.powercap_root,
        }
    }
}

/// The protocol error code for an error.
pub open spec fn spec_error_code(error: WattchError) -> u32 {
    match error {
        WattchError::BadRequest(_) => CODE_BAD_REQUEST,
        WattchError::SourceNotFound(_) => CODE_SOURCE_NOT_FOUND,
        WattchError::SourceUnavailable(_) => CODE_SOURCE_UNAVAILABLE,
        WattchError::StreamAlreadyRunning => CODE_STREAM_ALREADY_RUNNING,
        WattchError::StreamNotRunning => CODE_STREAM_NOT_RUNNING,
        WattchError::IntervalTooLow { .. } => CODE_INTERVAL_TOO_LOW,
        _ => CODE_INTERNAL,
    }
}

/// The protocol error code for an error.
pub fn error_code(error: &WattchError) -> (r: u32)
    ensures
        r == spec_error_code(*error),
{
    match error {
        WattchError::BadRequest(_) => CODE_BAD_REQUEST,
        WattchError::SourceNotFound(_) => CODE_SOURCE_NOT_FOUND,
        WattchError::SourceUnavailable(_) => CODE_SOURCE_UNAVAILABLE,
        WattchError::StreamAlreadyRunning => CODE_STREAM_ALREADY_RUNNING,
        WattchError::StreamNotRunning => CODE_STREAM_NOT_RUNNING,
        WattchError::IntervalTooLow { .. } => CODE_INTERVAL_TOO_LOW,
        WattchError::FrameTooLarge { .. }
        | WattchError::TruncatedPayload { .. }
        | WattchError::Internal(_)
        | WattchError::Io(_)
        | WattchError::Decode(_)
        | WattchError::Encode(_) => CODE_INTERNAL,
    }
}

/// A response that refuses request `request_id` with `code`.
pub fn error_response(request_id: u64, code: u32, message: String) -> (r: Response)
    ensures
        r == (Response { request_id, kind: Some(ResponseKind::Error(Error { code, message })) }),
{
    Response { request_id, kind: Some(ResponseKind::Error(Error { code, message })) }
}

/// A response that refuses request `request_id` because of `error`: its
/// code and message.
pub fn wattch_error_response(request_id: u64, error: WattchError) -> (r: Response)
    ensures
        r.request_id == request_id,
        r.kind matches Some(ResponseKind::Error(e)) && e.code == spec_error_code(error) && (
        !error.wraps_outside_error() ==> e.message@ == error.spec_message()),
{
    let code = error_code(&error);
    error_response(request_id, code, error.to_string())
}

/// What the daemon does with a request before it touches the powercap
/// tree or the stream state.
pub enum RequestPlan {
    /// Answer at once with this response.
    Reply(Response),
    /// Discover the sources and list them.
    ListSources { request_id: u64 },
    /// Discover the sources, check and pick the requested ones, and start a
    /// stream of them.
    StartStream { request_id: u64, interval_ns: u64, source_ids: Vec<u32> },
    /// Stop the running stream.
    StopStream { request_id: u64 },
}

/// The plan for `request`, given the interval of the stream that runs, if
/// one does: a hello is answered (or refused for another protocol
/// version); a start is refused as `stream already running` while a stream
/// runs, and for a too small interval; a request without a kind is
/// refused.
pub open spec fn spec_plan(request: Request, active_interval_ns: Option<u64>) -> RequestPlan {
    let id = request.request_id;
    match request.kind {
        Some(RequestKind::Hello(hello)) => if hello.protocol_version != PROTOCOL_VERSION {
            RequestPlan::Reply(
                Response {
                    request_id: id,
                    kind: Some(
                        ResponseKind::Error(
                            Error {
                                code: CODE_UNSUPPORTED_VERSION,
                                message: arbitrary(),
                            },
                        ),
                    ),
                },
            )
        } else {
            RequestPlan::Reply(
                Response {
                    request_id: id,
                    kind: Some(
                        ResponseKind::Hello(
                            HelloResponse {
                                protocol_version: PROTOCOL_VERSION,
                                daemon_version: arbitrary(),
                            },
                        ),
                    ),
                },
            )
        },
        Some(RequestKind::ListSources(_)) => RequestPlan::ListSources { request_id: id },
        Some(RequestKind::StartStream(start)) => match active_interval_ns {
            Some(_) => RequestPlan::Reply(
                Response {
                    request_id: id,
                    kind: Some(
                        ResponseKind::Error(
                            Error { code: CODE_STREAM_ALREADY_RUNNING, message: arbitrary() },
                        ),
                    ),
                },
            ),
            None => if start.interval_ns < MIN_INTERVAL_NS {
                RequestPlan::Reply(
                    Response {
                        request_id: id,
                        kind: Some(
                            ResponseKind::Error(
                                Error { code: CODE_INTERVAL_TOO_LOW, message: arbitrary() },
                            ),
                        ),
                    },
                )
            } else {
                RequestPlan::StartStream {
                    request_id: id,
                    interval_ns: start.interval_ns,
                    source_ids: start.source_ids,
                }
            },
        },
        Some(RequestKind::StopStream(_)) => RequestPlan::StopStream { request_id: id },
        None => RequestPlan::Reply(
            Response {
                request_id: id,
                kind: Some(ResponseKind::Error(Error { code: CODE_BAD_REQUEST, message: arbitrary() })),
            },
        ),
    }
}

/// A start request that comes while a stream runs is answered at once with
/// the `stream already running` error, whatever interval it asks for.
pub proof fn lemma_start_while_running_refused(request: Request, active_interval_ns: u64)
    requires
        request.kind matches Some(RequestKind::StartStream(_)),
    ensures
        spec_plan(request, Some(active_interval_ns)) matches RequestPlan::Reply(resp) && resp.request_id
            == request.request_id && (resp.kind matches Some(ResponseKind::Error(x)) && x.code
            == CODE_STREAM_ALREADY_RUNNING),
        spec_plan_message(request, Some(active_interval_ns)) == Some("stream already running"@),
{
}

/// The message a planned reply carries, where it carries one.
pub open spec fn spec_plan_message(request: Request, active_interval_ns: Option<u64>) -> Option<
    Seq<char>,
> {
    match request.kind {
        Some(RequestKind::Hello(hello)) => if hello.protocol_version != PROTOCOL_VERSION {
            Some("unsupported protocol version"@)
        } else {
            Some(DAEMON_VERSION@)
        },
        Some(RequestKind::StartStream(start)) => if active_interval_ns is Some {
            Some("stream already running"@)
        } else if start.interval_ns < MIN_INTERVAL_NS {
            Some(
                WattchError::IntervalTooLow {
                    interval_ns: start.interval_ns,
                    min_interval_ns: MIN_INTERVAL_NS,
                }.spec_message(),
            )
        } else {
            None
        },
        None => Some("missing request kind"@),
        _ => None,
    }
}

/// A reply with the text it carries (error message or daemon version)
/// taken out, for comparison with a plan.
pub open spec fn reply_shape(r: Response) -> Response {
    match r.kind {
        Some(ResponseKind::Error(e)) => Response {
            request_id: r.request_id,
            kind: Some(ResponseKind::Error(Error { code: e.code, message: arbitrary() })),
        },
        Some(ResponseKind::Hello(h)) => Response {
            request_id: r.request_id,
            kind: Some(
                ResponseKind::Hello(
                    HelloResponse { protocol_version: h.protocol_version, daemon_version: arbitrary() },
                ),
            ),
        },
        _ => r,
    }
}

/// The text a reply carries: its error message or daemon version.
pub open spec fn reply_text(r: Response) -> Option<Seq<char>> {
    match r.kind {
        Some(ResponseKind::Error(e)) => Some(e.message@),
        Some(ResponseKind::Hello(h)) => Some(h.daemon_version@),
        _ => None,
    }
}

/// Plans the handling of `request`.
pub fn plan_request(request: Request, active_interval_ns: Option<u64>) -> (r: RequestPlan)
    ensures
        match (r, spec_plan(request, active_interval_ns)) {
            (RequestPlan::Reply(resp), RequestPlan::Reply(planned)) => reply_shape(resp)
                == reply_shape(planned) && (spec_plan_message(request, active_interval_ns) matches Some(m)
                ==> reply_text(resp) == Some(m)),
            (
                RequestPlan::ListSources { request_id: a },
                RequestPlan::ListSources { request_id: b },
            ) => a == b,
            (
                RequestPlan::StartStream { request_id: a, interval_ns: ia, source_ids: sa },
                RequestPlan::StartStream { request_id: b, interval_ns: ib, source_ids: sb },
            ) => a == b && ia == ib && sa@ == sb@,
            (RequestPlan::StopStream { request_id: a }, RequestPlan::StopStream { request_id: b }) =>
                a == b,
            _ => false,
        },
{
    let request_id = request.request_id;
    match request.kind {
        Some(RequestKind::Hello(hello)) => {
            if hello.protocol_version != PROTOCOL_VERSION {
                return RequestPlan::Reply(
                    error_response(
                        request_id,
                        CODE_UNSUPPORTED_VERSION,
                        "unsupported protocol version".to_string(),
                    ),
                );
            }
            RequestPlan::Reply(
                Response {
                    request_id,
                    kind: Some(
                        ResponseKind::Hello(
                            HelloResponse {
                                protocol_version: PROTOCOL_VERSION,
                                daemon_version: DAEMON_VERSION.to_string(),
                            },
                        ),
                    ),
                },
            )
        },
        Some(RequestKind::ListSources(_)) => RequestPlan::ListSources { request_id },
        Some(RequestKind::StartStream(start)) => {
            if active_interval_ns.is_some() {
                return RequestPlan::Reply(
                    wattch_error_response(request_id, WattchError::StreamAlreadyRunning),
                );
            }
            if let Err(error) = validate_interval_ns(start.interval_ns) {
                return RequestPlan::Reply(wattch_error_response(request_id, error));
            }
            RequestPlan::StartStream {
                request_id,
                interval_ns: start.interval_ns,
                source_ids: start.source_ids,
            }
        },
        Some(RequestKind::StopStream(_)) => RequestPlan::StopStream { request_id },
        None => RequestPlan::Reply(
            error_response(request_id, CODE_BAD_REQUEST, "missing request kind".to_string()),
        ),
    }
}

/// The response to a list request: the discovered sources, or the
/// discovery's error.
pub fn list_sources_response(
    request_id: u64,
    discovered: Result<Vec<PowercapSource>, WattchError>,
) -> (r: Response)
    ensures
        r.request_id == request_id,
        discovered matches Ok(sources) ==> (r.kind matches Some(ResponseKind::ListSources(list))
            && list.sources@ == sources@.map_values(|p: PowercapSource| powercap_to_proto(p))),
        discovered matches Err(e) ==> (r.kind matches Some(ResponseKind::Error(x)) && x.code
            == spec_error_code(e) && (!e.wraps_outside_error() ==> x.message@ == e.spec_message())),
{
    let sources = match discovered {
        Ok(sources) => sources,
        Err(error) => return wattch_error_response(request_id, error),
    };
    let mut listed: Vec<Source> = Vec::new();
    let mut i: usize = 0;
    while i < sources.len()
        invariant
            i <= sources@.len(),
            listed@ == sources@.take(i as int).map_values(|p: PowercapSource| powercap_to_proto(p)),
        decreases sources@.len() - i,
    {
        listed.push(sources[i].to_proto());
        i += 1;
        assert(listed@ =~= sources@.take(i as int).map_values(
            |p: PowercapSource| powercap_to_proto(p),
        ));
    }
    assert(sources@.take(i as int) =~= sources@);
    Response { request_id, kind: Some(ResponseKind::ListSources(ListSourcesResponse { sources: listed })) }
}

/// The sources a planned stream samples, once the powercap tree has been
/// read: a failed discovery or a request for a missing or unavailable
/// source is refused with the matching error response.
pub fn stream_sources(
    request_id: u64,
    source_ids: &[u32],
    discovered: Result<Vec<PowercapSource>, WattchError>,
) -> (r: Result<Vec<PowercapSource>, Response>)
    ensures
        discovered matches Err(e) ==> (r matches Err(resp) && resp.request_id == request_id && (
        resp.kind matches Some(ResponseKind::Error(x)) && x.code == spec_error_code(e) && (
        !e.wraps_outside_error() ==> x.message@ == e.spec_message()))),
        discovered matches Ok(sources) ==> match first_problem(powercap_keys(sources@), source_ids@) {
            Some(e) => r matches Err(resp) && resp.request_id == request_id && (resp.kind matches Some(
                ResponseKind::Error(x),
            ) && x.code == spec_error_code(e) && x.message@ == e.spec_message()),
            None => r matches Ok(picked) && (source_ids@.len() == 0 ==> picked@ == sources@.filter(
                |p: PowercapSource| p.available,
            )) && (source_ids@.len() > 0 ==> picked@ == spec_select_powercap(
                source_ids@,
                sources@,
            )),
        },
{
    let sources = match discovered {
        Ok(sources) => sources,
        Err(error) => return Err(wattch_error_response(request_id, error)),
    };
    proof {
        lemma_first_problem_kind(powercap_keys(sources@), source_ids@);
    }
    if let Err(error) = validate_source_ids(source_ids, sources.as_slice()) {
        return Err(wattch_error_response(request_id, error));
    }
    Ok(select_sources(source_ids, sources.as_slice()))
}

} // verus!

verus! {

/// The stream that runs: its id, its interval and the handle that stops
/// it.
pub struct ActiveStream<T> {
    pub id: u64,
    pub interval_ns: u64,
    pub stop: T,
}

/// The stream bookkeeping as plain values: the running stream's id and
/// interval, and the id the next start request takes.
pub struct StreamState {
    pub active: Option<(u64, u64)>,
    pub next_stream_id: u64,
}

/// The bookkeeping of a daemon that has not started any stream.
pub open spec fn initial_stream_state() -> StreamState {
    StreamState { active: None, next_stream_id: 1 }
}

/// The id after `id` (ids wrap around).
pub open spec fn next_id(id: u64) -> u64 {
    if id == u64::MAX {
        0
    } else {
        (id + 1) as u64
    }
}

/// A start request for `interval_ns`: it takes the next id whether or not
/// it succeeds, and is refused while a stream runs.
pub open spec fn spec_begin(s: StreamState, interval_ns: u64) -> (StreamState, Result<u64, WattchError>) {
    let id = s.next_stream_id;
    if s.active is Some {
        (StreamState { active: s.active, next_stream_id: next_id(id) }, Err(WattchError::StreamAlreadyRunning))
    } else {
        (StreamState { active: Some((id, interval_ns)), next_stream_id: next_id(id) }, Ok(id))
    }
}

/// A stream that ends on its own: the bookkeeping forgets it only if it is
/// still the one that runs.
pub open spec fn spec_finish(s: StreamState, stream_id: u64) -> StreamState {
    match s.active {
        Some((id, _)) => if id == stream_id {
            StreamState { active: None, ..s }
        } else {
            s
        },
        None => s,
    }
}

/// A stop request: the running stream, if any, is taken out.
pub open spec fn spec_stop(s: StreamState) -> (StreamState, Option<(u64, u64)>) {
    (StreamState { active: None, ..s }, s.active)
}

/// The daemon's state: its configuration and the one stream that may run.
pub struct DaemonState<T> {
    config: DaemonConfig,
    active_stream: Option<ActiveStream<T>>,
    next_stream_id: u64,
}

impl<T> DaemonState<T> {
    /// The stream bookkeeping.
    pub closed spec fn streams(&self) -> StreamState {
        StreamState {
            active: match self.active_stream {
                Some(a) => Some((a.id, a.interval_ns)),
                None => None,
            },
            next_stream_id: self.next_stream_id,
        }
    }

    /// The stream that runs, with the handle it was started with.
    pub closed spec fn active(&self) -> Option<ActiveStream<T>> {
        self.active_stream
    }

    /// The configuration the daemon runs with.
    pub closed spec fn daemon_config(&self) -> DaemonConfig {
        self.config
    }

    /// The configuration the daemon runs with.
    pub fn config(&self) -> (r: &DaemonConfig)
        ensures
            *r == self.daemon_config(),
    {
        &self.config
    }

    /// A daemon with no stream; the first stream gets id 1.
    pub fn new(config: DaemonConfig) -> (r: Self)
        ensures
            r.streams() == initial_stream_state(),
            r.active() is None,
            r.daemon_config() == config,
    {
        DaemonState { config, active_stream: None, next_stream_id: 1 }
    }

    /// The interval of the running stream, if one runs.
    pub fn active_stream_interval_ns(&self) -> (r: Option<u64>)
        ensures
            r == match self.streams().active {
                Some((_, interval_ns)) => Some(interval_ns),
                None => None,
            },
    {
        match &self.active_stream {
            Some(active) => Some(active.interval_ns),
            None => None,
        }
    }

    /// Registers a stream of `interval_ns` stopped through `stop`, unless
    /// one runs; gives its id.
    pub fn begin_stream(&mut self, interval_ns: u64, stop: T) -> (r: Result<u64, WattchError>)
        ensures
            (final(self).streams(), r) == spec_begin(old(self).streams(), interval_ns),
            r matches Ok(id) ==> final(self).active() == Some(
                (ActiveStream { id, interval_ns, stop }),
            ),
            r is Err ==> final(self).active() == old(self).active(),
            final(self).daemon_config() == old(self).daemon_config(),
    {
        let stream_id = self.next_stream_id;
        self.next_stream_id = self.next_stream_id.wrapping_add(1);
        if self.active_stream.is_some() {
            return Err(WattchError::StreamAlreadyRunning);
        }
        self.active_stream = Some(ActiveStream { id: stream_id, interval_ns, stop });
        Ok(stream_id)
    }

    /// Forgets the stream `stream_id` if it is the one that runs.
    pub fn finish_stream(&mut self, stream_id: u64)
        ensures
            final(self).streams() == spec_finish(old(self).streams(), stream_id),
            final(self).active() == match old(self).active() {
                Some(a) => if a.id == stream_id {
                    None
                } else {
                    Some(a)
                },
                None => None,
            },
            final(self).daemon_config() == old(self).daemon_config(),
    {
        let is_current = match &self.active_stream {
            Some(active) => active.id == stream_id,
            None => false,
        };
        if is_current {
            self.active_stream = None;
        }
    }

    /// Takes out the running stream, if any.
    pub fn stop_stream(&mut self) -> (r: Option<ActiveStream<T>>)
        ensures
            (final(self).streams(), match r {
                Some(a) => Some((a.id, a.interval_ns)),
                None => None,
            }) == spec_stop(old(self).streams()),
            r == old(self).active(),
            final(self).active() is None,
            final(self).daemon_config() == old(self).daemon_config(),
    {
        self.active_stream.take()
    }
}

/// Whether `r` is the answer to start request `request_id` of
/// `interval_ns`, given what registering the stream gave: the interval in
/// effect once it started, or the refusal's code and message.
pub open spec fn is_start_reply(
    r: Response,
    request_id: u64,
    interval_ns: u64,
    started: Result<u64, WattchError>,
) -> bool {
    &&& r.request_id == request_id
    &&& match started {
        Ok(_) => r.kind == Some(
            ResponseKind::StartStream(
                StartStreamResponse { started: true, effective_interval_ns: interval_ns },
            ),
        ),
        Err(e) => r.kind matches Some(ResponseKind::Error(x)) && x.code == spec_error_code(e) && (
        !e.wraps_outside_error() ==> x.message@ == e.spec_message()),
    }
}

/// The answer to start request `request_id` of `interval_ns` once the
/// stream was registered, or refused.
pub fn start_response(request_id: u64, interval_ns: u64, started: Result<u64, WattchError>) -> (r:
    Response)
    ensures
        is_start_reply(r, request_id, interval_ns, started),
{
    match started {
        Ok(_) => Response {
            request_id,
            kind: Some(
                ResponseKind::StartStream(
                    StartStreamResponse { started: true, effective_interval_ns: interval_ns },
                ),
            ),
        },
        Err(error) => wattch_error_response(request_id, error),
    }
}

/// Whether `r` is the answer to stop request `request_id`: it stopped the
/// running stream, or is refused as `stream not running`.
pub open spec fn is_stop_reply(r: Response, request_id: u64, stopped: bool) -> bool {
    &&& r.request_id == request_id
    &&& if stopped {
        r.kind == Some(ResponseKind::StopStream(StopStreamResponse { stopped: true }))
    } else {
        r.kind matches Some(ResponseKind::Error(x)) && x.code == CODE_STREAM_NOT_RUNNING
            && x.message@ == "stream not running"@
    }
}

/// The answer to stop request `request_id`, given whether a stream was
/// stopped.
pub fn stop_response(request_id: u64, stopped: bool) -> (r: Response)
    ensures
        is_stop_reply(r, request_id, stopped),
{
    if stopped {
        Response {
            request_id,
            kind: Some(ResponseKind::StopStream(StopStreamResponse { stopped: true })),
        }
    } else {
        wattch_error_response(request_id, WattchError::StreamNotRunning)
    }
}

/// A stop request while no stream runs is refused with the
/// `stream not running` code, and changes nothing.
pub proof fn lemma_stop_without_stream_refused(s: StreamState, request_id: u64, r: Response)
    requires
        s.active is None,
        is_stop_reply(r, request_id, spec_stop(s).1 is Some),
    ensures
        r.kind matches Some(ResponseKind::Error(x)) && x.code == CODE_STREAM_NOT_RUNNING,
        spec_stop(s).0 == s,
{
}

/// A second start request while a stream runs is answered with the
/// `stream already running` error, and the first stream keeps running.
pub proof fn lemma_second_start_refused(
    s: StreamState,
    first_ns: u64,
    second_ns: u64,
    request_id: u64,
    r: Response,
)
    requires
        spec_begin(s, first_ns).1 is Ok,
        is_start_reply(r, request_id, second_ns, spec_begin(spec_begin(s, first_ns).0, second_ns).1),
    ensures
        r.kind matches Some(ResponseKind::Error(x)) && x.code == CODE_STREAM_ALREADY_RUNNING
            && x.message@ == "stream already running"@,
        spec_begin(spec_begin(s, first_ns).0, second_ns).0.active == spec_begin(s, first_ns).0.active,
{
}

/// While a stream runs, every further start request is refused and leaves
/// it running.
pub proof fn lemma_one_stream_at_a_time(s: StreamState, first_ns: u64, second_ns: u64)
    requires
        spec_begin(s, first_ns).1 is Ok,
    ensures
        ({
            let s1 = spec_begin(s, first_ns).0;
            &&& spec_begin(s1, second_ns).1 == Err::<u64, WattchError>(
                WattchError::StreamAlreadyRunning,
            )
            &&& spec_begin(s1, second_ns).0.active == s1.active
            &&& s1.active == Some((spec_begin(s, first_ns).1->Ok_0, first_ns))
        }),
{
}

/// A stream that ends on its own leaves the daemon free for the next.
pub proof fn lemma_finish_frees_daemon(s: StreamState, interval_ns: u64, next_ns: u64)
    requires
        spec_begin(s, interval_ns).1 is Ok,
    ensures
        ({
            let (s1, r) = spec_begin(s, interval_ns);
            let s2 = spec_finish(s1, r->Ok_0);
            &&& s2.active is None
            &&& spec_begin(s2, next_ns).1 is Ok
        }),
{
}

/// A stop request stops the running stream and leaves the daemon free.
pub proof fn lemma_stop_frees_daemon(s: StreamState, interval_ns: u64, next_ns: u64)
    requires
        spec_begin(s, interval_ns).1 is Ok,
    ensures
        ({
            let (s1, r) = spec_begin(s, interval_ns);
            let (s2, stopped) = spec_stop(s1);
            &&& stopped == Some((r->Ok_0, interval_ns))
            &&& spec_begin(s2, next_ns).1 is Ok
        }),
{
}

/// With nothing running, a stop request stops nothing.
pub proof fn lemma_stop_without_stream(s: StreamState)
    requires
        s.active is None,
    ensures
        spec_stop(s).1 is None,
        spec_stop(s).0 == s,
{
}

/// A stream that was stopped and replaced cannot, by ending late, take
/// the new stream down with it (ids do not wrap within two starts).
pub proof fn lemma_stale_finish_keeps_new_stream(s: StreamState, first_ns: u64, second_ns: u64)
    requires
        s.active is None,
        s.next_stream_id < u64::MAX,
    ensures
        ({
            let (s1, r1) = spec_begin(s, first_ns);
            let s2 = spec_stop(s1).0;
            let (s3, r2) = spec_begin(s2, second_ns);
            &&& r1 is Ok && r2 is Ok
            &&& r1->Ok_0 != r2->Ok_0
            &&& spec_finish(s3, r1->Ok_0).active == Some((r2->Ok_0, second_ns))
        }),
{
}

} // verus!

verus! {

/// The owner ids to hand the socket to, if any is configured: an id left
/// out is passed as `u32::MAX` (`!0`), which `chown` reads as "unchanged".
pub fn socket_owner_ids(socket_uid: Option<u32>, socket_gid: Option<u32>) -> (r: Option<(u32, u32)>)
    ensures
        socket_uid is None && socket_gid is None ==> r is None,
        socket_uid is Some || socket_gid is Some ==> r == Some((
            match socket_uid {
                Some(u) => u,
                None => u32::MAX,
            },
            match socket_gid {
                Some(g) => g,
                None => u32::MAX,
            },
        )),
{
    if socket_uid.is_none() && socket_gid.is_none() {
        return None;
    }
    let uid = match socket_uid {
        Some(u) => u,
        None => u32::MAX,
    };
    let gid = match socket_gid {
        Some(g) => g,
        None => u32::MAX,
    };
    Some((uid, gid))
}

} // verus!

verus! {

/// Where the daemon's energy readings come from.
#[derive(Clone, Copy, Debug, PartialEq, Eq, Structural)]
pub enum SourceBackend {
    /// The RAPL zones of the Linux powercap tree.
    Powercap,
    /// One deterministic in-memory source, for tests and machines without
    /// RAPL.
    Fake,
}

/// The backend a `WATTCH_SOURCE_BACKEND` value selects: none when unset,
/// `powercap` or `rapl` select the powercap tree, `fake` the in-memory
/// source; any other value selects none.
pub open spec fn spec_source_backend(value: Option<Seq<char>>) -> Option<SourceBackend> {
    match value {
        None => Some(SourceBackend::Powercap),
        Some(v) => if v == "powercap"@ || v == "rapl"@ {
            Some(SourceBackend::Powercap)
        } else if v == "fake"@ {
            Some(SourceBackend::Fake)
        } else {
            None
        },
    }
}

/// Reads the `WATTCH_SOURCE_BACKEND` value (`None` when unset); a value
/// that names no backend is refused.
pub fn source_backend(value: Option<&str>) -> (r: Result<SourceBackend, WattchError>)
    ensures
        match spec_source_backend(opt_chars(value)) {
            Some(b) => r == Ok::<SourceBackend, WattchError>(b),
            None => r matches Err(WattchError::BadRequest(m)) && m@
                == "invalid WATTCH_SOURCE_BACKEND value "@ + debug_str(value->0@)
                + ": expected powercap, rapl, or fake"@,
        },
{
    let text = match value {
        None => return Ok(SourceBackend::Powercap),
        Some(text) => text,
    };
    let chars = chars_of(text);
    let powercap = chars_of("powercap");
    let rapl = chars_of("rapl");
    let fake = chars_of("fake");
    if chars_eq(chars.as_slice(), powercap.as_slice()) || chars_eq(chars.as_slice(), rapl.as_slice()) {
        return Ok(SourceBackend::Powercap);
    }
    if chars_eq(chars.as_slice(), fake.as_slice()) {
        return Ok(SourceBackend::Fake);
    }
    let mut message = "invalid WATTCH_SOURCE_BACKEND value ".to_string();
    let shown = str_debug(text);
    push_str(&mut message, shown.as_str());
    push_str(&mut message, ": expected powercap, rapl, or fake");
    Err(WattchError::BadRequest(message))
}

} // verus!
