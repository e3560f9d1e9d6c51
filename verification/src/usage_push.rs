//! Pushing usage logs to a remote server: when the worker runs, what each
//! round of its loop does, how costs are filled in, and how far the pushed
//! log ids have advanced.

use vstd::prelude::*;
use crate::clock::utc_now_millis;
use crate::text::{chars_of, copy_range, string_from_chars};

verus! {

/// Seconds between rounds are never fewer than this.
pub const MIN_INTERVAL_SECS: u64 = 5;

/// Logs fetched and pushed per round at most.
pub const PUSH_BATCH_LIMIT: usize = 200;

/// Timeout of one push request, in seconds.
pub const HTTP_TIMEOUT_SECS: u64 = 30;

/// The path the logs are posted to, below the server URL.
pub const PUSH_PATH: &'static str = "/api/v1/push";

/// The part of the application settings that the push service reads.
pub struct PushSettings {
    pub usage_push_enabled: bool,
    pub usage_push_server_url: Option<String>,
    pub usage_push_interval_secs: u64,
}

/// Pushing is switched on and a non-empty server URL is set.
pub open spec fn push_configured(s: PushSettings) -> bool {
    s.usage_push_enabled && (s.usage_push_server_url matches Some(u) && u@.len() > 0)
}

/// Whether pushing is switched on and has a server to push to.
pub fn should_push(settings: &PushSettings) -> (b: bool)
    ensures
        b == push_configured(*settings),
{
    settings.usage_push_enabled && match &settings.usage_push_server_url {
        Some(u) => !u.as_str().is_empty(),
        None => false,
    }
}

/// The server URL to start the push worker with: none when pushing is off
/// or no URL is set, so that the worker is not started.
pub fn worker_server_url(settings: &PushSettings) -> (r: Option<String>)
    ensures
        push_configured(*settings) ==> r == settings.usage_push_server_url,
        !push_configured(*settings) ==> r is None,
{
    if !settings.usage_push_enabled {
        return None;
    }
    match &settings.usage_push_server_url {
        Some(u) => if !u.as_str().is_empty() {
            Some(u.clone())
        } else {
            None
        },
        None => None,
    }
}

/// Whether pushing is active, and whether a push worker is alive.
#[derive(Clone, Copy, Debug, PartialEq, Eq, Structural)]
pub struct PushState {
    pub enabled: bool,
    pub worker_running: bool,
}

/// Why a worker that was asked for could not be started.
#[derive(Clone, Copy, Debug, PartialEq, Eq, Structural)]
pub enum StartFailure {
    /// The settings no longer ask for pushing when the worker was to start.
    NotConfigured,
    /// The usage database could not be opened.
    DatabaseUnavailable,
    /// The HTTP client could not be built.
    ClientUnavailable,
}

impl PushState {
    /// Pushing is only ever active while a worker is alive to do it.
    pub open spec fn wf(self) -> bool {
        self.enabled ==> self.worker_running
    }

    /// Pushing inactive, no worker.
    pub fn new() -> (s: Self)
        ensures
            !s.enabled,
            !s.worker_running,
            s.wf(),
    {
        PushState { enabled: false, worker_running: false }
    }

    /// Records that the worker has gone: pushing is inactive until the
    /// settings are applied again.
    pub fn worker_stopped(&mut self)
        ensures
            !final(self).enabled,
            !final(self).worker_running,
            final(self).wf(),
    {
        self.enabled = false;
        self.worker_running = false;
    }

    /// Records that a worker that was asked for could not start, for
    /// whatever reason: no worker lives and pushing is inactive, so that
    /// applying the settings again asks for a new worker.
    pub fn start_failed(&mut self, why: StartFailure)
        ensures
            !final(self).enabled,
            !final(self).worker_running,
            final(self).wf(),
    {
        self.worker_stopped();
    }

    /// Right before a worker that was asked for starts, the settings are
    /// read once more: it starts (true) only when they still ask for
    /// pushing; otherwise the start is recorded as failed.
    pub fn confirm_start(&mut self, settings: &PushSettings) -> (go: bool)
        ensures
            go == push_configured(*settings),
            go ==> *final(self) == *old(self),
            !go ==> !final(self).enabled && !final(self).worker_running,
    {
        if should_push(settings) {
            true
        } else {
            self.start_failed(StartFailure::NotConfigured);
            false
        }
    }
}

/// What a change of the settings asks of the push worker.
#[derive(Clone, Copy, Debug, PartialEq, Eq, Structural)]
pub enum RestartAction {
    /// The worker's state is already right.
    Unchanged,
    /// Pushing is active and no worker is alive: one must be started.
    StartWorker,
    /// Pushing became inactive: the running worker leaves at its next round.
    AwaitWorkerExit,
}

/// The state after the settings were applied, `configured` telling whether
/// they ask for pushing: a worker asked to start counts as alive.
pub open spec fn restart_state(s: PushState, configured: bool) -> PushState {
    PushState { enabled: configured, worker_running: s.worker_running || configured }
}

/// What applying settings that do (`configured`) or do not ask for pushing
/// asks of the worker in state `s`: a start only when no worker is alive,
/// a wait for the exit only when one is.
pub open spec fn restart_action(s: PushState, configured: bool) -> RestartAction {
    if configured && !s.worker_running {
        RestartAction::StartWorker
    } else if !configured && s.worker_running {
        RestartAction::AwaitWorkerExit
    } else {
        RestartAction::Unchanged
    }
}

/// Brings the push state in line with the settings and says what the worker
/// has to do about it. A worker that is still alive (asleep between rounds)
/// keeps the job when pushing is switched off and on again, as it reads the
/// settings afresh each round: no second worker is asked for.
pub fn restart_if_needed(state: &mut PushState, settings: &PushSettings) -> (a: RestartAction)
    ensures
        final(state).wf(),
        *final(state) == restart_state(*old(state), push_configured(*settings)),
        a == restart_action(*old(state), push_configured(*settings)),
{
    let should = should_push(settings);
    let running = state.worker_running;
    state.enabled = should;
    if should && !running {
        state.worker_running = true;
        RestartAction::StartWorker
    } else if !should && running {
        RestartAction::AwaitWorkerExit
    } else {
        RestartAction::Unchanged
    }
}

/// The state after the push service was started with settings that do
/// (`configured`) or do not ask for pushing.
pub open spec fn claim_state(s: PushState, configured: bool) -> PushState {
    if configured && !s.worker_running {
        PushState { enabled: true, worker_running: true }
    } else {
        s
    }
}

/// Starts the push service: the server URL for a new worker when pushing is
/// switched on, a non-empty URL is set and no worker is alive yet (the state
/// then records the worker); none otherwise, leaving the state as it was.
pub fn claim_worker(state: &mut PushState, settings: &PushSettings) -> (r: Option<String>)
    ensures
        old(state).wf() ==> final(state).wf(),
        *final(state) == claim_state(*old(state), push_configured(*settings)),
        push_configured(*settings) && !old(state).worker_running ==> r == settings.usage_push_server_url,
        !(push_configured(*settings) && !old(state).worker_running) ==> r is None,
{
    if state.worker_running {
        return None;
    }
    let url = worker_server_url(settings);
    if url.is_some() {
        state.enabled = true;
        state.worker_running = true;
    }
    url
}

/// The state after a worker that was told to stop looked at the settings
/// once more: it stays when they ask for pushing again.
pub open spec fn exit_state(s: PushState, configured: bool) -> PushState {
    if configured {
        s
    } else {
        PushState { enabled: false, worker_running: false }
    }
}

/// A worker about to leave its loop checks the settings, with the state
/// held: it keeps running (true) when they ask for pushing again, else it
/// leaves and the state records that pushing is inactive and no worker lives.
pub fn worker_may_exit(state: &mut PushState, settings: &PushSettings) -> (keep_running: bool)
    ensures
        old(state).wf() ==> final(state).wf(),
        keep_running == push_configured(*settings),
        *final(state) == exit_state(*old(state), push_configured(*settings)),
{
    let keep = should_push(settings);
    if !keep {
        state.worker_stopped();
    }
    keep
}

/// The number of live workers is what the state records: one when a worker
/// runs, none otherwise.
pub open spec fn live_matches(s: PushState, live: nat) -> bool {
    live == if s.worker_running {
        1nat
    } else {
        0nat
    }
}

/// At most one push worker ever runs: when the state records the live
/// workers exactly, applying settings (which starts a worker only on
/// `StartWorker`), starting the service (which starts one only when it hands
/// out a URL) and a worker leaving all keep the record exact, so the count
/// never exceeds one.
pub proof fn lemma_at_most_one_worker(s: PushState, live: nat, configured: bool)
    requires
        live_matches(s, live),
    ensures
        live <= 1,
        live_matches(
            restart_state(s, configured),
            live + if restart_action(s, configured) == RestartAction::StartWorker {
                1nat
            } else {
                0nat
            },
        ),
        live_matches(
            claim_state(s, configured),
            live + if configured && !s.worker_running {
                1nat
            } else {
                0nat
            },
        ),
        s.worker_running && !configured ==> live_matches(exit_state(s, configured), (live - 1) as nat),
        s.worker_running && configured ==> live_matches(exit_state(s, configured), live),
{
}

/// Applying settings to a well-formed state whose push flag already says
/// what they ask changes nothing and starts no worker, so applying the same
/// settings a second time has no effect; a worker is only asked to start
/// when pushing is configured, which is exactly when it gets a server URL.
pub proof fn lemma_restart_settles(s: PushState, settings: PushSettings)
    ensures
        s.wf() && s.enabled == push_configured(settings) ==> restart_state(s, push_configured(settings)) == s
            && restart_action(s, push_configured(settings)) != RestartAction::StartWorker,
        restart_state(restart_state(s, push_configured(settings)), push_configured(settings))
            == restart_state(s, push_configured(settings)),
        restart_action(restart_state(s, push_configured(settings)), push_configured(settings))
            != RestartAction::StartWorker,
        restart_action(s, push_configured(settings)) == RestartAction::StartWorker ==> push_configured(settings),
        restart_action(s, push_configured(settings)) == RestartAction::AwaitWorkerExit ==> !push_configured(settings) && s.worker_running,
{
}

/// `s` without trailing `c` characters (`str::trim_end_matches` with a character).
pub open spec fn trim_end_char(s: Seq<char>, c: char) -> Seq<char>
    decreases s.len(),
{
    if s.len() > 0 && s.last() == c {
        trim_end_char(s.drop_last(), c)
    } else {
        s
    }
}

/// The URL the logs are posted to: the server URL without trailing slashes,
/// then `/api/v1/push`.
pub open spec fn push_endpoint(server_url: Seq<char>) -> Seq<char> {
    trim_end_char(server_url, '/') + PUSH_PATH@
}

/// Seconds to wait before a round: the configured interval, at least 5.
pub open spec fn push_interval(s: PushSettings) -> u64 {
    if s.usage_push_interval_secs < MIN_INTERVAL_SECS {
        MIN_INTERVAL_SECS
    } else {
        s.usage_push_interval_secs
    }
}

/// One round of the push loop, decided from the settings read at its start.
pub enum IterationPlan {
    /// Pushing was switched off: leave the loop now.
    Stop,
    /// Wait, then leave the loop: the server URL was removed.
    SleepThenStop { secs: u64 },
    /// Wait, then push the new logs to `push_url`.
    SleepThenPush { secs: u64, push_url: String },
}

/// The URL the logs are posted to, for a server URL.
pub fn push_url_for(server_url: &str) -> (r: String)
    ensures
        r@ == push_endpoint(server_url@),
{
    let cs = chars_of(server_url);
    let mut j = cs.len();
    assert(cs@.take(cs@.len() as int) =~= cs@);
    while j > 0 && cs[j - 1] == '/'
        invariant
            j <= cs@.len(),
            trim_end_char(cs@, '/') == trim_end_char(cs@.take(j as int), '/'),
        decreases j,
    {
        assert(cs@.take(j as int).drop_last() =~= cs@.take(j - 1));
        j = j - 1;
    }
    let kept = copy_range(cs.as_slice(), 0, j);
    assert(kept@ =~= cs@.take(j as int));
    let mut r = string_from_chars(kept.as_slice());
    r.append(PUSH_PATH);
    r
}

/// What one round of the push loop does under `settings`.
pub fn plan_iteration(settings: &PushSettings) -> (p: IterationPlan)
    ensures
        !settings.usage_push_enabled ==> p is Stop,
        settings.usage_push_enabled && !push_configured(*settings) ==> (p matches IterationPlan::SleepThenStop { secs } && secs == push_interval(*settings)),
        push_configured(*settings) ==> (p matches IterationPlan::SleepThenPush { secs, push_url } && secs == push_interval(*settings) && push_url@ == push_endpoint(settings.usage_push_server_url->0@)),
{
    if !settings.usage_push_enabled {
        return IterationPlan::Stop;
    }
    let secs = if settings.usage_push_interval_secs < MIN_INTERVAL_SECS {
        MIN_INTERVAL_SECS
    } else {
        settings.usage_push_interval_secs
    };
    match &settings.usage_push_server_url {
        Some(u) => if !u.as_str().is_empty() {
            IterationPlan::SleepThenPush { secs, push_url: push_url_for(u.as_str()) }
        } else {
            IterationPlan::SleepThenStop { secs }
        },
        None => IterationPlan::SleepThenStop { secs },
    }
}

/// A round never waits less than five seconds.
pub proof fn lemma_interval_at_least_minimum(s: PushSettings)
    ensures
        push_interval(s) >= MIN_INTERVAL_SECS,
        s.usage_push_interval_secs >= MIN_INTERVAL_SECS ==> push_interval(s) == s.usage_push_interval_secs,
{
}

/// A log's cost is computed afresh from the pricing table when the stored
/// cost is exactly `0` although the request used input or output tokens.
pub open spec fn needs_recompute(total_cost_usd: Seq<char>, input_tokens: i64, output_tokens: i64) -> bool {
    total_cost_usd == seq!['0'] && (input_tokens > 0 || output_tokens > 0)
}

/// Whether a log's cost has to be computed afresh.
pub fn needs_cost_recompute(total_cost_usd: &str, input_tokens: i64, output_tokens: i64) -> (b: bool)
    ensures
        b == needs_recompute(total_cost_usd@, input_tokens, output_tokens),
{
    let cs = chars_of(total_cost_usd);
    let zero = cs.len() == 1 && cs[0] == '0';
    assert(zero <==> cs@ =~= seq!['0']);
    zero && (input_tokens > 0 || output_tokens > 0)
}

/// The model whose price applies to a log: the requested model when the
/// log records one, else the model that answered.
pub fn pricing_model_id<'a>(model: &'a str, request_model: Option<&'a str>) -> (r: &'a str)
    ensures
        r == match request_model {
            Some(m) => m,
            None => model,
        },
{
    match request_model {
        Some(m) => m,
        None => model,
    }
}

/// One row of the request log, as read from the database.
pub struct UsageLogRow {
    pub id: i64,
    pub request_id: String,
    pub app_type: String,
    pub provider_id: String,
    pub model: String,
    pub request_model: Option<String>,
    pub pricing_model: Option<String>,
    pub input_tokens: i64,
    pub output_tokens: i64,
    pub cache_read_tokens: i64,
    pub cache_creation_tokens: i64,
    pub input_cost_usd: String,
    pub output_cost_usd: String,
    pub cache_read_cost_usd: String,
    pub cache_creation_cost_usd: String,
    pub total_cost_usd: String,
    pub latency_ms: i64,
    pub first_token_ms: Option<i64>,
    pub duration_ms: Option<i64>,
    pub status_code: i64,
    pub error_message: Option<String>,
    pub is_streaming: bool,
    pub data_source: String,
    pub created_at: i64,
}

/// One log as pushed to the server.
pub struct PushLogEntry {
    pub request_id: String,
    pub app_type: String,
    pub provider_id: String,
    pub model: String,
    pub request_model: Option<String>,
    pub pricing_model: Option<String>,
    pub input_tokens: i64,
    pub output_tokens: i64,
    pub cache_read_tokens: i64,
    pub cache_creation_tokens: i64,
    pub input_cost_usd: String,
    pub output_cost_usd: String,
    pub cache_read_cost_usd: String,
    pub cache_creation_cost_usd: String,
    pub total_cost_usd: String,
    pub latency_ms: i64,
    pub first_token_ms: Option<i64>,
    pub duration_ms: Option<i64>,
    pub status_code: i64,
    pub error_message: Option<String>,
    pub is_streaming: bool,
    pub data_source: String,
    pub created_at: i64,
}

/// The total cost pushed for `row`, given the freshly computed cost if any:
/// the fresh cost when the row needs one and one could be computed, the
/// stored cost otherwise.
pub open spec fn pushed_total_cost(row: UsageLogRow, recomputed: Option<String>) -> String {
    if needs_recompute(row.total_cost_usd@, row.input_tokens, row.output_tokens) && recomputed is Some {
        recomputed->0
    } else {
        row.total_cost_usd
    }
}

fn clone_opt_string(o: &Option<String>) -> (r: Option<String>)
    ensures
        r == *o,
{
    match o {
        Some(s) => Some(s.clone()),
        None => None,
    }
}

/// The entry pushed for `row`: every field copied, the total cost replaced
/// by `recomputed` when the row needs a fresh cost and one was computed.
pub fn build_push_entry(row: &UsageLogRow, recomputed: Option<String>) -> (e: PushLogEntry)
    ensures
        e.request_id == row.request_id,
        e.app_type == row.app_type,
        e.provider_id == row.provider_id,
        e.model == row.model,
        e.request_model == row.request_model,
        e.pricing_model == row.pricing_model,
        e.input_tokens == row.input_tokens,
        e.output_tokens == row.output_tokens,
        e.cache_read_tokens == row.cache_read_tokens,
        e.cache_creation_tokens == row.cache_creation_tokens,
        e.input_cost_usd == row.input_cost_usd,
        e.output_cost_usd == row.output_cost_usd,
        e.cache_read_cost_usd == row.cache_read_cost_usd,
        e.cache_creation_cost_usd == row.cache_creation_cost_usd,
        e.total_cost_usd == pushed_total_cost(*row, recomputed),
        e.latency_ms == row.latency_ms,
        e.first_token_ms == row.first_token_ms,
        e.duration_ms == row.duration_ms,
        e.status_code == row.status_code,
        e.error_message == row.error_message,
        e.is_streaming == row.is_streaming,
        e.data_source == row.data_source,
        e.created_at == row.created_at,
{
    let total_cost_usd = if needs_cost_recompute(
        row.total_cost_usd.as_str(),
        row.input_tokens,
        row.output_tokens,
    ) {
        match recomputed {
            Some(c) => c,
            None => row.total_cost_usd.clone(),
        }
    } else {
        row.total_cost_usd.clone()
    };
    PushLogEntry {
        request_id: row.request_id.clone(),
        app_type: row.app_type.clone(),
        provider_id: row.provider_id.clone(),
        model: row.model.clone(),
        request_model: clone_opt_string(&row.request_model),
        pricing_model: clone_opt_string(&row.pricing_model),
        input_tokens: row.input_tokens,
        output_tokens: row.output_tokens,
        cache_read_tokens: row.cache_read_tokens,
        cache_creation_tokens: row.cache_creation_tokens,
        input_cost_usd: row.input_cost_usd.clone(),
        output_cost_usd: row.output_cost_usd.clone(),
        cache_read_cost_usd: row.cache_read_cost_usd.clone(),
        cache_creation_cost_usd: row.cache_creation_cost_usd.clone(),
        total_cost_usd,
        latency_ms: row.latency_ms,
        first_token_ms: row.first_token_ms,
        duration_ms: row.duration_ms,
        status_code: row.status_code,
        error_message: clone_opt_string(&row.error_message),
        is_streaming: row.is_streaming,
        data_source: row.data_source.clone(),
        created_at: row.created_at,
    }
}

/// The body of one push request.
pub struct PushRequestBody {
    pub logs: Vec<PushLogEntry>,
    pub device_id: String,
    pub device_name: String,
    pub timestamp: i64,
}

/// The push request body for the entries, stamped with `timestamp`.
pub fn assemble_push_body(logs: Vec<PushLogEntry>, device_id: String, device_name: String, timestamp: i64) -> (b: PushRequestBody)
    ensures
        b.logs == logs,
        b.device_id == device_id,
        b.device_name == device_name,
        b.timestamp == timestamp,
{
    PushRequestBody { logs, device_id, device_name, timestamp }
}

/// The push request body for the entries, stamped with the current time in
/// Unix milliseconds.
pub fn build_push_body(logs: Vec<PushLogEntry>, device_id: String, device_name: String) -> (b: PushRequestBody)
    ensures
        b.logs == logs,
        b.device_id == device_id,
        b.device_name == device_name,
{
    assemble_push_body(logs, device_id, device_name, utc_now_millis())
}

/// How a push request ended: with a response of this HTTP status, or
/// without a response.
#[derive(Clone, Copy, Debug, PartialEq, Eq, Structural)]
pub enum SendOutcome {
    Responded(u16),
    Failed,
}

/// A 2xx status (`http::StatusCode::is_success`).
pub open spec fn spec_is_success(status: u16) -> bool {
    200 <= status <= 299
}

/// A 4xx status (`http::StatusCode::is_client_error`).
pub open spec fn spec_is_client_error(status: u16) -> bool {
    400 <= status <= 499
}

/// Whether `status` is a 2xx status.
pub fn is_success(status: u16) -> (b: bool)
    ensures
        b == spec_is_success(status),
{
    200 <= status && status <= 299
}

/// Whether `status` is a 4xx status.
pub fn is_client_error(status: u16) -> (b: bool)
    ensures
        b == spec_is_client_error(status),
{
    400 <= status && status <= 499
}

/// A batch is settled when the server took it (2xx) or refused its data
/// (4xx, not retried); otherwise it is sent again next round.
pub open spec fn batch_settled(outcome: SendOutcome) -> bool {
    outcome matches SendOutcome::Responded(s) && (spec_is_success(s) || spec_is_client_error(s))
}

/// The largest id of a non-empty batch.
pub open spec fn seq_max(ids: Seq<i64>) -> i64
    decreases ids.len(),
{
    if ids.len() <= 1 {
        ids[0]
    } else {
        let m = seq_max(ids.drop_last());
        if ids.last() > m {
            ids.last()
        } else {
            m
        }
    }
}

/// The last pushed id after a round that sent the batch `ids` with `outcome`.
pub open spec fn next_last_id(last_id: i64, ids: Seq<i64>, outcome: SendOutcome) -> i64 {
    if batch_settled(outcome) && ids.len() > 0 {
        seq_max(ids)
    } else {
        last_id
    }
}

/// How far the pushed logs have advanced: logs up to `last_id` are done.
pub struct PushProgress {
    pub last_id: i64,
}

/// The largest id of a non-empty batch.
pub fn batch_max_id(ids: &[i64]) -> (m: Option<i64>)
    ensures
        ids@.len() == 0 ==> m is None,
        ids@.len() > 0 ==> m == Some(seq_max(ids@)),
{
    if ids.len() == 0 {
        return None;
    }
    let mut m = ids[0];
    let mut i: usize = 1;
    assert(ids@.take(1).len() == 1);
    while i < ids.len()
        invariant
            1 <= i <= ids@.len(),
            m == seq_max(ids@.take(i as int)),
        decreases ids@.len() - i,
    {
        assert(ids@.take(i + 1).drop_last() =~= ids@.take(i as int));
        if ids[i] > m {
            m = ids[i];
        }
        i = i + 1;
    }
    assert(ids@.take(ids@.len() as int) =~= ids@);
    Some(m)
}

/// What one round asks the database for: the logs after `since_id`, at most
/// `limit` of them.
#[derive(Clone, Copy, Debug, PartialEq, Eq, Structural)]
pub struct BatchQuery {
    pub since_id: i64,
    pub limit: usize,
}

impl PushProgress {
    /// The query of the next round: the logs after the last pushed id, at
    /// most 200.
    pub fn batch_query(&self) -> (q: BatchQuery)
        ensures
            q.since_id == self.last_id,
            q.limit == PUSH_BATCH_LIMIT,
    {
        BatchQuery { since_id: self.last_id, limit: PUSH_BATCH_LIMIT }
    }

    /// The logs a round sends, from what its query gave (`None` when the
    /// query failed): nothing when the query failed or found no log, so no
    /// request is made and the last pushed id stays; else every log found.
    pub fn take_batch(&self, fetched: Option<Vec<UsageLogRow>>) -> (b: Option<Vec<UsageLogRow>>)
        ensures
            fetched is None ==> b is None,
            fetched matches Some(v) ==> (if v@.len() == 0 {
                b is None
            } else {
                b == Some(v)
            }),
    {
        match fetched {
            Some(v) => if v.len() == 0 {
                None
            } else {
                Some(v)
            },
            None => None,
        }
    }

    /// Nothing pushed yet: every log is sent, from the earliest on.
    pub fn new() -> (p: Self)
        ensures
            p.last_id == 0,
    {
        PushProgress { last_id: 0 }
    }

    /// Records how sending the batch with ids `batch_ids` ended: a settled
    /// batch moves `last_id` to its largest id, any other leaves it for a retry.
    pub fn record_outcome(&mut self, batch_ids: &[i64], outcome: SendOutcome)
        ensures
            final(self).last_id == next_last_id(old(self).last_id, batch_ids@, outcome),
    {
        let settled = match outcome {
            SendOutcome::Responded(s) => is_success(s) || is_client_error(s),
            SendOutcome::Failed => false,
        };
        if settled {
            match batch_max_id(batch_ids) {
                Some(m) => {
                    self.last_id = m;
                },
                None => {},
            }
        }
    }
}

/// The largest id of a batch is one of its ids and no id exceeds it.
pub proof fn lemma_seq_max(ids: Seq<i64>)
    requires
        ids.len() > 0,
    ensures
        forall|i: int| 0 <= i < ids.len() ==> ids[i] <= seq_max(ids),
        exists|i: int| 0 <= i < ids.len() && ids[i] == seq_max(ids),
    decreases ids.len(),
{
    if ids.len() > 1 {
        lemma_seq_max(ids.drop_last());
        let m = seq_max(ids.drop_last());
        let k = choose|i: int| 0 <= i < ids.drop_last().len() && ids.drop_last()[i] == m;
        assert forall|i: int| 0 <= i < ids.len() implies ids[i] <= seq_max(ids) by {
            if i < ids.len() - 1 {
                assert(ids[i] == ids.drop_last()[i]);
            }
        }
        if ids.last() > m {
            assert(ids[ids.len() - 1] == seq_max(ids));
        } else {
            assert(ids[k] == seq_max(ids));
        }
    } else {
        assert(ids[0] == seq_max(ids));
    }
}

/// Once a batch is settled, the next round asks only for logs after every
/// log of that batch, so none of them is pushed again; when the batch held
/// only logs after the last pushed id, the last pushed id grows.
pub proof fn lemma_settled_batch_not_resent(last_id: i64, ids: Seq<i64>, outcome: SendOutcome)
    requires
        batch_settled(outcome),
        ids.len() > 0,
    ensures
        forall|i: int| 0 <= i < ids.len() ==> ids[i] <= next_last_id(last_id, ids, outcome),
        (forall|i: int| 0 <= i < ids.len() ==> ids[i] > last_id) ==> next_last_id(last_id, ids, outcome) > last_id,
{
    lemma_seq_max(ids);
}

/// A batch that got no response, or a response other than 2xx or 4xx, is
/// sent again: the last pushed id stays.
pub proof fn lemma_unsettled_batch_retried(last_id: i64, ids: Seq<i64>, outcome: SendOutcome)
    requires
        outcome is Failed || (outcome matches SendOutcome::Responded(s) && !(200 <= s <= 299) && !(400 <= s <= 499)),
    ensures
        next_last_id(last_id, ids, outcome) == last_id,
{
}

} // verus!
