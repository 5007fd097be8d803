//! What a running driver reports, and what the application makes of it: the
//! handshake that starts a runtime, its metrics, and the events shown to the
//! user. Reading the driver's output, waiting and emitting are the caller's;
//! each report comes here and the answer says what to do.
use vstd::prelude::*;
use crate::error::{AppError, AppResult, ErrorView, concat2};
use crate::json::{JsonValue, JsonView, as_f64, as_object, as_str, member, member_of, value_f64, value_object, value_str};
use crate::models::Plant;

verus! {

/// Where a runtime is in its life.
#[derive(Clone, Copy, PartialEq, Eq, Structural, Debug)]
pub enum RuntimeLifecycleState {
    Created,
    Bootstrapping,
    Ready,
    Connecting,
    Running,
    Stopping,
    Stopped,
    Faulted,
}

/// Where a runtime is in its cycle.
#[derive(Clone, Copy, PartialEq, Eq, Structural, Debug)]
pub enum RuntimeCyclePhase {
    CycleStarted,
    ReadInputs,
    ComputeControllers,
    WriteOutputs,
    PublishTelemetry,
    SleepUntilDeadline,
}

/// What is known of a running runtime; the durations are bit patterns of
/// floating-point numbers of milliseconds, the uptime of seconds.
#[derive(Clone, Copy, PartialEq, Eq, Structural, Debug)]
pub struct RuntimeMetrics {
    pub lifecycle_state: RuntimeLifecycleState,
    pub cycle_phase: RuntimeCyclePhase,
    pub effective_dt_ms: u64,
    pub cycle_duration_ms: u64,
    pub read_duration_ms: u64,
    pub uptime_s: u64,
    pub cycle_late: bool,
    pub late_cycle_count: u64,
    pub last_telemetry_at: Option<u64>,
}

impl RuntimeMetrics {
    /// The metrics of a runtime being started: bootstrapping, at the start of a
    /// cycle, every number zero.
    pub fn starting() -> (r: RuntimeMetrics)
        ensures
            r == (RuntimeMetrics {
                lifecycle_state: RuntimeLifecycleState::Bootstrapping,
                cycle_phase: RuntimeCyclePhase::CycleStarted,
                effective_dt_ms: 0,
                cycle_duration_ms: 0,
                read_duration_ms: 0,
                uptime_s: 0,
                cycle_late: false,
                late_cycle_count: 0,
                last_telemetry_at: None,
            }),
    {
        RuntimeMetrics {
            lifecycle_state: RuntimeLifecycleState::Bootstrapping,
            cycle_phase: RuntimeCyclePhase::CycleStarted,
            effective_dt_ms: 0,
            cycle_duration_ms: 0,
            read_duration_ms: 0,
            uptime_s: 0,
            cycle_late: false,
            late_cycle_count: 0,
            last_telemetry_at: None,
        }
    }
}

/// How far the start of a runtime has come: whether the driver is ready, is
/// connected, or reported an error.
#[derive(Debug)]
pub struct HandshakeState {
    pub ready: bool,
    pub connected: bool,
    pub error: Option<String>,
}

impl HandshakeState {
    /// Nothing reported yet.
    pub fn new() -> (r: HandshakeState)
        ensures
            !r.ready,
            !r.connected,
            r.error is None,
    {
        HandshakeState { ready: false, connected: false, error: None }
    }
}

/// The runtime whose reports are read: the plant, the runtime's id, its sample
/// time, and the bit pattern of the sample time as a floating-point number of
/// milliseconds.
#[derive(Debug)]
pub struct RuntimeSession {
    pub plant_id: String,
    pub runtime_id: String,
    pub configured_sample_time_ms: u64,
    pub configured_dt_ms: u64,
}

/// A change of a runtime's state, as shown to the user.
#[derive(Debug)]
pub struct RuntimeStatusEvent {
    pub plant_id: String,
    pub runtime_id: String,
    pub lifecycle_state: RuntimeLifecycleState,
    pub cycle_phase: RuntimeCyclePhase,
    pub configured_sample_time_ms: u64,
    pub effective_dt_ms: u64,
    pub cycle_late: bool,
}

/// A cycle's report, as shown to the user, with the report itself.
#[derive(Debug)]
pub struct RuntimeTelemetryEvent {
    pub plant_id: String,
    pub runtime_id: String,
    pub lifecycle_state: RuntimeLifecycleState,
    pub cycle_phase: RuntimeCyclePhase,
    pub configured_sample_time_ms: u64,
    pub effective_dt_ms: u64,
    pub cycle_late: bool,
    pub payload: JsonValue,
}

/// A message of the driver: its type and what it carries.
#[derive(Debug)]
pub struct RuntimeEnvelope {
    pub msg_type: String,
    pub payload: JsonValue,
}

/// What reading the driver's output gave.
#[derive(Debug)]
pub enum StdoutEvent {
    /// The output could not be read; the detail says why.
    ReadFailed(String),
    /// A line was read: the message it holds, or why it holds none.
    Line(Result<RuntimeEnvelope, String>),
}

/// What to do after a report: the status to show, the error to show, the
/// cycle's report to show with the plant's new statistics (the step and uptime
/// as bit patterns of floating-point numbers of milliseconds and seconds),
/// whether waiters on the handshake must be woken, and whether to stop reading.
#[derive(Debug)]
pub struct StdoutOutcome {
    pub status: Option<RuntimeStatusEvent>,
    pub error_message: Option<String>,
    pub telemetry: Option<RuntimeTelemetryEvent>,
    pub stats_dt_ms: Option<u64>,
    pub stats_uptime_s: Option<u64>,
    pub handshake_changed: bool,
    pub stop: bool,
}

/// The member `key` of a message's payload, when the payload is an object.
pub open spec fn payload_member(payload: JsonView, key: Seq<char>) -> Option<JsonView> {
    match as_object(payload) {
        Some(ms) => member_of(ms, key),
        None => None,
    }
}

/// The member `key` of a message's payload, when the payload is an object.
pub fn payload_get<'a>(payload: &'a JsonValue, key: &str) -> (r: Option<&'a JsonValue>)
    ensures
        match r {
            Some(v) => payload_member(payload.deep_view(), key@) == Some(v.deep_view()),
            None => payload_member(payload.deep_view(), key@) is None,
        },
{
    match value_object(payload) {
        Some(ms) => member(ms, key),
        None => None,
    }
}

/// The bit pattern of member `key` of the payload read as a number, else `default`.
pub open spec fn payload_f64_or(payload: JsonView, key: Seq<char>, default: u64) -> u64 {
    match payload_member(payload, key) {
        Some(v) => match as_f64(v) {
            Some(b) => b,
            None => default,
        },
        None => default,
    }
}

fn payload_f64(payload: &JsonValue, key: &str, default: u64) -> (r: u64)
    ensures
        r == payload_f64_or(payload.deep_view(), key@, default),
{
    match payload_get(payload, key) {
        Some(v) => match value_f64(v) {
            Some(b) => b,
            None => default,
        },
        None => default,
    }
}

/// Member `key` of the payload read as a boolean, else false.
pub open spec fn payload_flag(payload: JsonView, key: Seq<char>) -> bool {
    match payload_member(payload, key) {
        Some(JsonView::Bool(b)) => b,
        _ => false,
    }
}

fn payload_bool(payload: &JsonValue, key: &str) -> (r: bool)
    ensures
        r == payload_flag(payload.deep_view(), key@),
{
    match payload_get(payload, key) {
        Some(JsonValue::Bool(b)) => *b,
        _ => false,
    }
}

/// The message of an error report: member `message` when it is text, else a
/// default.
pub open spec fn error_report_message(payload: JsonView) -> Seq<char> {
    match payload_member(payload, "message"@) {
        Some(v) => match as_str(v) {
            Some(s) => s,
            None => "Erro na runtime Python"@,
        },
        None => "Erro na runtime Python"@,
    }
}

/// A value of a kind of outcome, with nothing else to do.
pub open spec fn quiet(o: StdoutOutcome) -> bool {
    o.status is None && o.error_message is None && o.telemetry is None && o.stats_dt_ms is None
        && o.stats_uptime_s is None && !o.handshake_changed && !o.stop
}

/// Whether `e` is the status of the session's runtime with these values.
pub open spec fn status_is(
    e: RuntimeStatusEvent,
    s: RuntimeSession,
    state: RuntimeLifecycleState,
    phase: RuntimeCyclePhase,
    dt: u64,
    late: bool,
) -> bool {
    &&& e.plant_id@ == s.plant_id@
    &&& e.runtime_id@ == s.runtime_id@
    &&& e.lifecycle_state == state
    &&& e.cycle_phase == phase
    &&& e.configured_sample_time_ms == s.configured_sample_time_ms
    &&& e.effective_dt_ms == dt
    &&& e.cycle_late == late
}

fn status_event(
    s: &RuntimeSession,
    state: RuntimeLifecycleState,
    phase: RuntimeCyclePhase,
    dt: u64,
    late: bool,
) -> (r: RuntimeStatusEvent)
    ensures
        status_is(r, *s, state, phase, dt, late),
{
    RuntimeStatusEvent {
        plant_id: s.plant_id.clone(),
        runtime_id: s.runtime_id.clone(),
        lifecycle_state: state,
        cycle_phase: phase,
        configured_sample_time_ms: s.configured_sample_time_ms,
        effective_dt_ms: dt,
        cycle_late: late,
    }
}

/// The late-cycle count after one more late cycle; it stays at its maximum.
pub open spec fn one_more(n: u64) -> u64 {
    if n == u64::MAX { n } else { (n + 1) as u64 }
}

/// The metrics after a cycle's report `p` received at `now`.
pub open spec fn metrics_after_telemetry(m: RuntimeMetrics, p: JsonView, configured_dt: u64, now: u64) -> RuntimeMetrics {
    let late = payload_flag(p, "cycle_late"@);
    RuntimeMetrics {
        lifecycle_state: RuntimeLifecycleState::Running,
        cycle_phase: RuntimeCyclePhase::PublishTelemetry,
        effective_dt_ms: payload_f64_or(p, "effective_dt_ms"@, configured_dt),
        cycle_duration_ms: payload_f64_or(p, "cycle_duration_ms"@, 0),
        read_duration_ms: payload_f64_or(p, "read_duration_ms"@, 0),
        cycle_late: late,
        late_cycle_count: if late { one_more(m.late_cycle_count) } else { m.late_cycle_count },
        last_telemetry_at: Some(now),
        ..m
    }
}

/// What a report of the driver does to the metrics and the handshake, and what
/// follows from it:
/// - output that cannot be read is shown as an error and ends the reading;
/// - a line that holds no message is shown as an error;
/// - `ready` and `connected` mark the handshake, move the runtime on and show it;
/// - `error` records the message in the handshake, faults the runtime and shows both;
/// - `telemetry` records the cycle's numbers, updates the plant and shows the report;
/// - `cycle_overrun` marks the cycle late and counts it;
/// - `stopped` stops the runtime, shows it and ends the reading;
/// - any other message is ignored.
pub open spec fn report_effect(
    m0: RuntimeMetrics,
    h0: HandshakeState,
    s: RuntimeSession,
    event: StdoutEvent,
    now: u64,
    m: RuntimeMetrics,
    h: HandshakeState,
    o: StdoutOutcome,
) -> bool {
    match event {
        StdoutEvent::ReadFailed(detail) => {
            &&& m == m0 && h == h0
            &&& o.error_message matches Some(msg) && msg@ == "Falha ao ler stdout do driver: "@ + detail@
            &&& o.stop && o.status is None && o.telemetry is None && o.stats_dt_ms is None && o.stats_uptime_s is None
            &&& !o.handshake_changed
        },
        StdoutEvent::Line(Err(detail)) => {
            &&& m == m0 && h == h0
            &&& o.error_message matches Some(msg) && msg@ == "Mensagem inválida recebida do driver: "@ + detail@
            &&& !o.stop && o.status is None && o.telemetry is None && o.stats_dt_ms is None && o.stats_uptime_s is None
            &&& !o.handshake_changed
        },
        StdoutEvent::Line(Ok(env)) => {
            let t = env.msg_type@;
            let p = env.payload.deep_view();
            if t == "ready"@ {
                &&& h == HandshakeState { ready: true, ..h0 }
                &&& m == RuntimeMetrics { lifecycle_state: RuntimeLifecycleState::Ready, ..m0 }
                &&& o.status matches Some(e) && status_is(e, s, RuntimeLifecycleState::Ready, RuntimeCyclePhase::CycleStarted,
                    s.configured_dt_ms, false)
                &&& o.handshake_changed && !o.stop && o.error_message is None && o.telemetry is None
                &&& o.stats_dt_ms is None && o.stats_uptime_s is None
            } else if t == "connected"@ {
                &&& h == HandshakeState { connected: true, ..h0 }
                &&& m == RuntimeMetrics { lifecycle_state: RuntimeLifecycleState::Running, cycle_phase: RuntimeCyclePhase::ReadInputs, ..m0 }
                &&& o.status matches Some(e) && status_is(e, s, RuntimeLifecycleState::Running, RuntimeCyclePhase::ReadInputs,
                    s.configured_dt_ms, false)
                &&& o.handshake_changed && !o.stop && o.error_message is None && o.telemetry is None
                &&& o.stats_dt_ms is None && o.stats_uptime_s is None
            } else if t == "error"@ {
                let msg = error_report_message(p);
                &&& h.ready == h0.ready && h.connected == h0.connected
                &&& h.error matches Some(x) && x@ == msg
                &&& m == RuntimeMetrics { lifecycle_state: RuntimeLifecycleState::Faulted, ..m0 }
                &&& o.status matches Some(e) && status_is(e, s, RuntimeLifecycleState::Faulted, m0.cycle_phase,
                    m0.effective_dt_ms, m0.cycle_late)
                &&& o.error_message matches Some(x) && x@ == msg
                &&& o.handshake_changed && !o.stop && o.telemetry is None
                &&& o.stats_dt_ms is None && o.stats_uptime_s is None
            } else if t == "telemetry"@ {
                let m1 = metrics_after_telemetry(m0, p, s.configured_dt_ms, now);
                &&& h == h0
                &&& m == m1
                &&& o.telemetry matches Some(e) && e.plant_id@ == s.plant_id@ && e.runtime_id@ == s.runtime_id@
                    && e.lifecycle_state == RuntimeLifecycleState::Running && e.cycle_phase == RuntimeCyclePhase::PublishTelemetry
                    && e.configured_sample_time_ms == s.configured_sample_time_ms
                    && e.effective_dt_ms == m1.effective_dt_ms && e.cycle_late == m1.cycle_late
                    && e.payload.deep_view() == p
                &&& o.stats_dt_ms == Some(m1.effective_dt_ms)
                &&& o.stats_uptime_s == Some(payload_f64_or(p, "uptime_s"@, 0))
                &&& o.status is None && o.error_message is None && !o.handshake_changed && !o.stop
            } else if t == "cycle_overrun"@ {
                &&& h == h0
                &&& m == RuntimeMetrics { cycle_late: true, late_cycle_count: one_more(m0.late_cycle_count), ..m0 }
                &&& quiet(o)
            } else if t == "stopped"@ {
                &&& h == h0
                &&& m == RuntimeMetrics { lifecycle_state: RuntimeLifecycleState::Stopped, ..m0 }
                &&& o.status matches Some(e) && status_is(e, s, RuntimeLifecycleState::Stopped, RuntimeCyclePhase::SleepUntilDeadline,
                    m0.effective_dt_ms, false)
                &&& o.stop && o.error_message is None && o.telemetry is None && !o.handshake_changed
                &&& o.stats_dt_ms is None && o.stats_uptime_s is None
            } else {
                &&& h == h0 && m == m0
                &&& quiet(o)
            }
        },
    }
}

fn nothing() -> (o: StdoutOutcome)
    ensures
        quiet(o),
{
    StdoutOutcome {
        status: None,
        error_message: None,
        telemetry: None,
        stats_dt_ms: None,
        stats_uptime_s: None,
        handshake_changed: false,
        stop: false,
    }
}

fn same_text(a: &String, b: &str) -> (r: bool)
    ensures
        r == (a@ == b@),
{
    let t = String::from_str(b);
    *a == t
}

/// Takes in a report of the driver of the session's runtime, received at `now`
/// (seconds since the epoch): updates the metrics and the handshake, and says
/// what to show and whether to go on reading.
pub fn handle_stdout_event(
    metrics: &mut RuntimeMetrics,
    handshake: &mut HandshakeState,
    session: &RuntimeSession,
    event: StdoutEvent,
    now: u64,
) -> (o: StdoutOutcome)
    ensures
        report_effect(*old(metrics), *old(handshake), *session, event, now, *final(metrics), *final(handshake), o),
{
    match event {
        StdoutEvent::ReadFailed(detail) => {
            let mut o = nothing();
            o.error_message = Some(concat2("Falha ao ler stdout do driver: ", detail.as_str()));
            o.stop = true;
            o
        },
        StdoutEvent::Line(Err(detail)) => {
            let mut o = nothing();
            o.error_message = Some(concat2("Mensagem inválida recebida do driver: ", detail.as_str()));
            o
        },
        StdoutEvent::Line(Ok(env)) => {
            let mut o = nothing();
            proof {
                reveal_strlit("ready");
                reveal_strlit("connected");
                reveal_strlit("error");
                reveal_strlit("telemetry");
                reveal_strlit("cycle_overrun");
                reveal_strlit("stopped");
            }
            if same_text(&env.msg_type, "ready") {
                handshake.ready = true;
                metrics.lifecycle_state = RuntimeLifecycleState::Ready;
                o.status = Some(status_event(session, RuntimeLifecycleState::Ready, RuntimeCyclePhase::CycleStarted,
                    session.configured_dt_ms, false));
                o.handshake_changed = true;
            } else if same_text(&env.msg_type, "connected") {
                handshake.connected = true;
                metrics.lifecycle_state = RuntimeLifecycleState::Running;
                metrics.cycle_phase = RuntimeCyclePhase::ReadInputs;
                o.status = Some(status_event(session, RuntimeLifecycleState::Running, RuntimeCyclePhase::ReadInputs,
                    session.configured_dt_ms, false));
                o.handshake_changed = true;
            } else if same_text(&env.msg_type, "error") {
                let message = match payload_get(&env.payload, "message") {
                    Some(v) => match value_str(v) {
                        Some(s) => s.clone(),
                        None => String::from_str("Erro na runtime Python"),
                    },
                    None => String::from_str("Erro na runtime Python"),
                };
                handshake.error = Some(message.clone());
                metrics.lifecycle_state = RuntimeLifecycleState::Faulted;
                o.status = Some(status_event(session, RuntimeLifecycleState::Faulted, metrics.cycle_phase,
                    metrics.effective_dt_ms, metrics.cycle_late));
                o.error_message = Some(message);
                o.handshake_changed = true;
            } else if same_text(&env.msg_type, "telemetry") {
                let effective_dt_ms = payload_f64(&env.payload, "effective_dt_ms", session.configured_dt_ms);
                let cycle_duration_ms = payload_f64(&env.payload, "cycle_duration_ms", 0);
                let read_duration_ms = payload_f64(&env.payload, "read_duration_ms", 0);
                let cycle_late = payload_bool(&env.payload, "cycle_late");
                let uptime = payload_f64(&env.payload, "uptime_s", 0);
                metrics.lifecycle_state = RuntimeLifecycleState::Running;
                metrics.cycle_phase = RuntimeCyclePhase::PublishTelemetry;
                metrics.effective_dt_ms = effective_dt_ms;
                metrics.cycle_duration_ms = cycle_duration_ms;
                metrics.read_duration_ms = read_duration_ms;
                metrics.cycle_late = cycle_late;
                if cycle_late {
                    metrics.late_cycle_count = metrics.late_cycle_count.saturating_add(1);
                }
                metrics.last_telemetry_at = Some(now);
                o.stats_dt_ms = Some(effective_dt_ms);
                o.stats_uptime_s = Some(uptime);
                o.telemetry = Some(RuntimeTelemetryEvent {
                    plant_id: session.plant_id.clone(),
                    runtime_id: session.runtime_id.clone(),
                    lifecycle_state: RuntimeLifecycleState::Running,
                    cycle_phase: RuntimeCyclePhase::PublishTelemetry,
                    configured_sample_time_ms: session.configured_sample_time_ms,
                    effective_dt_ms,
                    cycle_late,
                    payload: env.payload,
                });
            } else if same_text(&env.msg_type, "cycle_overrun") {
                metrics.cycle_late = true;
                metrics.late_cycle_count = metrics.late_cycle_count.saturating_add(1);
            } else if same_text(&env.msg_type, "stopped") {
                metrics.lifecycle_state = RuntimeLifecycleState::Stopped;
                o.status = Some(status_event(session, RuntimeLifecycleState::Stopped, RuntimeCyclePhase::SleepUntilDeadline,
                    metrics.effective_dt_ms, false));
                o.stop = true;
            }
            o
        },
    }
}

/// Where waiting for the handshake stands.
pub open spec fn handshake_check(h: HandshakeState, deadline_reached: bool) -> Option<Result<(), ErrorView>> {
    if h.connected {
        Some(Ok(()))
    } else if h.error is Some {
        Some(Err(ErrorView::IoError("Falha durante handshake da runtime: "@ + h.error->Some_0@)))
    } else if deadline_reached {
        Some(Err(handshake_timeout_error()))
    } else {
        None
    }
}

pub open spec fn handshake_timeout_error() -> ErrorView {
    ErrorView::IoError("Timeout aguardando handshake da runtime Python"@)
}

/// Where waiting for the handshake stands: done when the driver connected;
/// failed when it reported an error or the deadline passed; else wait on.
pub fn check_handshake(handshake: &HandshakeState, deadline_reached: bool) -> (r: Option<AppResult<()>>)
    ensures
        match handshake_check(*handshake, deadline_reached) {
            Some(Ok(())) => r matches Some(Ok(())),
            Some(Err(e)) => r matches Some(Err(x)) && x@ == e,
            None => r is None,
        },
{
    if handshake.connected {
        return Some(Ok(()));
    }
    if let Some(message) = &handshake.error {
        return Some(Err(AppError::IoError(concat2("Falha durante handshake da runtime: ", message.as_str()))));
    }
    if deadline_reached {
        return Some(Err(handshake_timeout()));
    }
    None
}

/// The error when the driver does not connect in time.
pub fn handshake_timeout() -> (r: AppError)
    ensures
        r@ == handshake_timeout_error(),
{
    AppError::IoError(String::from_str("Timeout aguardando handshake da runtime Python"))
}

/// The status shown when a runtime has been stopped: stopped, sleeping until
/// the next deadline, with the last step it measured, not late.
pub fn stopped_status(session: &RuntimeSession, metrics: &RuntimeMetrics) -> (r: RuntimeStatusEvent)
    ensures
        status_is(r, *session, RuntimeLifecycleState::Stopped, RuntimeCyclePhase::SleepUntilDeadline,
            metrics.effective_dt_ms, false),
{
    status_event(session, RuntimeLifecycleState::Stopped, RuntimeCyclePhase::SleepUntilDeadline, metrics.effective_dt_ms, false)
}

} // verus!
