//! The LAN broadcast service: its on/off state, the UDP announcement and
//! where it is sent, and the request handling that does not touch the
//! database (date ranges, query parameters, the zero-cost log query).

use vstd::prelude::*;
use crate::clock::{local_instant, local_now};
use crate::ipv4::{
    format_ipv4, ipv4_text, lemma_subnet_broadcast_law, spec_subnet_broadcast, subnet_broadcast, Ipv4,
};
use crate::number::{decimal, push_decimal, spec_parse_i64, spec_parse_usize, parse_i64, parse_usize};
use crate::text::{chars_of, push_char, trim, trimmed_string};

verus! {

/// UDP port the announcements are sent to.
pub const BROADCAST_PORT: u16 = 3445;

/// TCP port of the HTTP service.
pub const HTTP_PORT: u16 = 3345;

/// Seconds between two rounds of announcements.
pub const ANNOUNCE_INTERVAL_SECS: u64 = 3;

/// Milliseconds between two looks at the stop flag while the HTTP service runs.
pub const STOP_POLL_MILLIS: u64 = 500;

/// How many log entries `/api/v1/logs` returns when `limit` is absent or unreadable.
pub const DEFAULT_LOG_LIMIT: usize = 6;

/// The `days` of `/api/v1/trends` when absent or unreadable.
pub const DEFAULT_TREND_DAYS: i64 = 8;

/// Whether the broadcast runs, and the LAN address it announces.
pub struct BroadcastState {
    pub running: bool,
    pub local_ip: String,
}

/// What the broadcast status command reports.
pub struct BroadcastInfo {
    pub running: bool,
    pub local_ip: String,
    pub port: u16,
}

/// A start request on a broadcast in state `running`: the state after it,
/// and whether it was accepted.
pub open spec fn start_outcome(running: bool) -> (bool, bool) {
    (true, !running)
}

/// A stop request on a broadcast in state `running`: the state after it,
/// and whether it was accepted.
pub open spec fn stop_outcome(running: bool) -> (bool, bool) {
    (false, running)
}

impl BroadcastState {
    /// A broadcast that does not run and knows no address yet.
    pub fn new() -> (s: Self)
        ensures
            !s.running,
            s.local_ip@ == Seq::<char>::empty(),
    {
        BroadcastState { running: false, local_ip: String::new() }
    }

    /// Marks the broadcast as running; refused when it already runs.
    pub fn start(&mut self) -> (r: Result<String, String>)
        ensures
            final(self).running == start_outcome(old(self).running).0,
            final(self).local_ip == old(self).local_ip,
            start_outcome(old(self).running).1 ==> (r matches Ok(m) && m@
                == "LAN broadcast started"@),
            !start_outcome(old(self).running).1 ==> (r matches Err(e) && e@
                == "LAN broadcast is already running"@),
    {
        if self.running {
            return Err(String::from_str("LAN broadcast is already running"));
        }
        self.running = true;
        Ok(String::from_str("LAN broadcast started"))
    }

    /// Marks the broadcast as stopped; refused when it does not run.
    pub fn stop(&mut self) -> (r: Result<String, String>)
        ensures
            final(self).running == stop_outcome(old(self).running).0,
            final(self).local_ip == old(self).local_ip,
            stop_outcome(old(self).running).1 ==> (r matches Ok(m) && m@
                == "LAN broadcast stopped"@),
            !stop_outcome(old(self).running).1 ==> (r matches Err(e) && e@
                == "LAN broadcast is not running"@),
    {
        if !self.running {
            return Err(String::from_str("LAN broadcast is not running"));
        }
        self.running = false;
        Ok(String::from_str("LAN broadcast stopped"))
    }

    /// Whether the broadcast runs.
    pub fn is_running(&self) -> (b: bool)
        ensures
            b == self.running,
    {
        self.running
    }

    /// Records the LAN address that the broadcast announces.
    pub fn record_local_ip(&mut self, ip: String)
        ensures
            final(self).running == old(self).running,
            final(self).local_ip == ip,
    {
        self.local_ip = ip;
    }

    /// Running flag, announced address and HTTP port.
    pub fn info(&self) -> (i: BroadcastInfo)
        ensures
            i.running == self.running,
            i.local_ip == self.local_ip,
            i.port == HTTP_PORT,
    {
        BroadcastInfo { running: self.running, local_ip: self.local_ip.clone(), port: HTTP_PORT }
    }
}

/// A broadcast that was started can always be stopped, which leaves it
/// stopped; a second start without a stop in between is refused; a stop on
/// a stopped broadcast is refused and changes nothing.
pub proof fn lemma_start_stop_cycle(running: bool)
    ensures
        stop_outcome(start_outcome(running).0) == (false, true),
        start_outcome(start_outcome(running).0).1 == false,
        start_outcome(start_outcome(running).0).0 == true,
        stop_outcome(stop_outcome(running).0) == (false, false),
        start_outcome(stop_outcome(running).0) == (true, true),
{
}

/// A request to the broadcast: start it or stop it.
#[derive(Clone, Copy, Debug, PartialEq, Eq, Structural)]
pub enum BroadcastRequest {
    Start,
    Stop,
}

/// One request on a broadcast in state `running`: the state after it, and
/// whether it was accepted.
pub open spec fn request_outcome(running: bool, req: BroadcastRequest) -> (bool, bool) {
    match req {
        BroadcastRequest::Start => start_outcome(running),
        BroadcastRequest::Stop => stop_outcome(running),
    }
}

/// Running the requests in order from state `running`: the state at the
/// end, and whether the last accepted request was a start (`None` when
/// none was accepted).
pub open spec fn run_requests(running: bool, reqs: Seq<BroadcastRequest>) -> (bool, Option<bool>)
    decreases reqs.len(),
{
    if reqs.len() == 0 {
        (running, None)
    } else {
        let (next, accepted) = request_outcome(running, reqs[0]);
        let (end, last) = run_requests(next, reqs.drop_first());
        (
            end,
            if last is Some {
                last
            } else if accepted {
                Some(reqs[0] == BroadcastRequest::Start)
            } else {
                None
            },
        )
    }
}

/// After any sequence of start and stop requests the broadcast runs exactly
/// when the last accepted request was a start; with none accepted it is as
/// it was. From a new broadcast: it runs exactly when the last accepted
/// request was a start.
pub proof fn lemma_status_follows_last_accepted(running: bool, reqs: Seq<BroadcastRequest>)
    ensures
        run_requests(running, reqs).0 == match run_requests(running, reqs).1 {
            Some(was_start) => was_start,
            None => running,
        },
    decreases reqs.len(),
{
    if reqs.len() > 0 {
        let (next, accepted) = request_outcome(running, reqs[0]);
        lemma_status_follows_last_accepted(next, reqs.drop_first());
    }
}

/// The announcement sent over UDP: version, host name and HTTP port.
pub struct BroadcastAnnounce {
    pub v: u8,
    pub name: String,
    pub port: u16,
}

/// `host:port`.
pub open spec fn socket_text(host: Seq<char>, port: u16) -> Seq<char> {
    host + seq![':'] + decimal(port as nat)
}

/// Where the announcements go: the limited broadcast address first, then
/// the /24 subnet broadcast address of `local_ip` when there is one.
pub open spec fn broadcast_target_texts(local_ip: Seq<char>) -> Seq<Seq<char>> {
    let all = seq![socket_text(ipv4_text(Ipv4(255, 255, 255, 255)), BROADCAST_PORT)];
    match spec_subnet_broadcast(local_ip) {
        Some(b) => all.push(socket_text(b, BROADCAST_PORT)),
        None => all,
    }
}

/// `host:port` as text.
fn socket_string(host: String, port: u16) -> (r: String)
    ensures
        r@ == socket_text(host@, port),
{
    let mut r = host;
    push_char(&mut r, ':');
    push_decimal(&mut r, port as u64);
    r
}

/// The LAN broadcast service.
pub struct LanBroadcast;

impl LanBroadcast {
    /// The addresses the announcement is sent to.
    pub fn broadcast_targets(local_ip: &str) -> (r: Vec<String>)
        ensures
            r@.len() == broadcast_target_texts(local_ip@).len(),
            forall|i: int| 0 <= i < r@.len() ==> #[trigger] r@[i]@ == broadcast_target_texts(
                local_ip@,
            )[i],
    {
        let mut r: Vec<String> = Vec::new();
        r.push(socket_string(format_ipv4(Ipv4(255, 255, 255, 255)), BROADCAST_PORT));
        match subnet_broadcast(local_ip) {
            Some(b) => r.push(socket_string(b, BROADCAST_PORT)),
            None => {},
        }
        r
    }

    /// The address the HTTP service listens on: every interface, port 3345.
    pub fn http_bind_addr() -> (r: String)
        ensures
            r@ == socket_text(ipv4_text(Ipv4(0, 0, 0, 0)), HTTP_PORT),
    {
        socket_string(format_ipv4(Ipv4(0, 0, 0, 0)), HTTP_PORT)
    }

    /// The announcement for host `name`: version 1 and the HTTP port.
    pub fn announce(name: String) -> (a: BroadcastAnnounce)
        ensures
            a.v == 1,
            a.name == name,
            a.port == HTTP_PORT,
    {
        BroadcastAnnounce { v: 1, name, port: HTTP_PORT }
    }

    /// The announced host name on macOS: what `scutil --get ComputerName`
    /// printed, trimmed, or `CC-Switch` when the command failed.
    pub fn hostname_from_scutil(out: Option<&str>) -> (r: String)
        ensures
            out matches Some(o) ==> r@ == trim(o@),
            out is None ==> r@ == "CC-Switch"@,
    {
        match out {
            Some(o) => trimmed_string(o),
            None => String::from_str("CC-Switch"),
        }
    }

    /// The announced host name elsewhere: `HOSTNAME`, else `COMPUTERNAME`,
    /// else `CC-Switch`.
    pub fn hostname_from_env(hostname: Option<&str>, computername: Option<&str>) -> (r: String)
        ensures
            hostname matches Some(h) ==> r@ == h@,
            hostname is None ==> (computername matches Some(c) ==> r@ == c@),
            hostname is None && computername is None ==> r@ == "CC-Switch"@,
    {
        match hostname {
            Some(h) => String::from_str(h),
            None => match computername {
                Some(c) => String::from_str(c),
                None => String::from_str("CC-Switch"),
            },
        }
    }
}

/// An optional date range, in Unix seconds, as the HTTP endpoints take it.
#[derive(Clone, Copy, Debug, PartialEq, Eq, Structural)]
pub struct DateRangeQuery {
    pub start_date: Option<i64>,
    pub end_date: Option<i64>,
}

/// The range from local midnight to now, given as (midnight, now).
pub open spec fn day_range(bounds: Option<(i64, i64)>) -> Option<DateRangeQuery> {
    match bounds {
        Some((midnight, now)) => Some(DateRangeQuery { start_date: Some(midnight), end_date: Some(now) }),
        None => None,
    }
}

/// The range a query stands for: its own bounds when it gives either of
/// them, else the bounds of `today`.
pub open spec fn spec_resolve(q: DateRangeQuery, today: Option<DateRangeQuery>) -> Option<
    (Option<i64>, Option<i64>),
> {
    if q.start_date is Some || q.end_date is Some {
        Some((q.start_date, q.end_date))
    } else {
        match today {
            Some(d) => Some((d.start_date, d.end_date)),
            None => None,
        }
    }
}

/// The value of an optional integer query parameter; absent when missing or unreadable.
pub open spec fn param_i64(p: Option<&str>) -> Option<i64> {
    match p {
        Some(s) => spec_parse_i64(s@),
        None => None,
    }
}

/// The value of an optional unsigned query parameter; absent when missing or unreadable.
pub open spec fn param_usize(p: Option<&str>) -> Option<usize> {
    match p {
        Some(s) => spec_parse_usize(s@),
        None => None,
    }
}

/// Reads an optional integer query parameter.
pub fn parse_param_i64(p: Option<&str>) -> (r: Option<i64>)
    ensures
        r == param_i64(p),
{
    match p {
        Some(s) => {
            let cs = chars_of(s);
            parse_i64(cs.as_slice())
        },
        None => None,
    }
}

/// Reads an optional unsigned query parameter.
pub fn parse_param_usize(p: Option<&str>) -> (r: Option<usize>)
    ensures
        r == param_usize(p),
{
    match p {
        Some(s) => {
            let cs = chars_of(s);
            parse_usize(cs.as_slice())
        },
        None => None,
    }
}

/// The bounds of the current day: from the instant of its local midnight,
/// when there is a single one, to `now`.
pub fn day_bounds(midnight: Option<i64>, now: i64) -> (r: Option<(i64, i64)>)
    ensures
        r == match midnight {
            Some(m) => Some((m, now)),
            None => None::<(i64, i64)>,
        },
{
    match midnight {
        Some(m) => Some((m, now)),
        None => None,
    }
}

/// The wall time at which a local day starts: 00:00:00 of that date.
pub fn midnight_wall_time(year: i32, month: u32, day: u32) -> (w: (i32, u32, u32, u32, u32, u32))
    ensures
        w == (year, month, day, 0u32, 0u32, 0u32),
{
    (year, month, day, 0, 0, 0)
}

impl DateRangeQuery {
    /// The range from local midnight to now, from the two instants.
    pub fn from_day_bounds(bounds: Option<(i64, i64)>) -> (r: Option<Self>)
        ensures
            r == day_range(bounds),
    {
        match bounds {
            Some((midnight, now)) => Some(DateRangeQuery { start_date: Some(midnight), end_date: Some(now) }),
            None => None,
        }
    }

    /// Today in local time: from local midnight (00:00:00 of the current
    /// local date) to now, as the desktop's default `today` preset. `None`
    /// when local midnight of today is not a single instant.
    pub fn today() -> (r: Option<Self>)
        ensures
            r matches Some(d) ==> d.start_date is Some && d.end_date is Some,
    {
        let (now, year, month, day) = local_now();
        let (y, m, d, h, mi, sec) = midnight_wall_time(year, month, day);
        Self::from_day_bounds(day_bounds(local_instant(y, m, d, h, mi, sec), now))
    }

    /// The range a query stands for, given what `today` gave.
    pub fn resolve_with(&self, today: Option<Self>) -> (r: Option<(Option<i64>, Option<i64>)>)
        ensures
            r == spec_resolve(*self, today),
    {
        if self.start_date.is_some() || self.end_date.is_some() {
            Some((self.start_date, self.end_date))
        } else {
            match today {
                Some(d) => Some((d.start_date, d.end_date)),
                None => None,
            }
        }
    }

    /// The range a query stands for: its own bounds when it gives either of
    /// them, else today (local midnight to now). `None` only when the query
    /// gives no bound and today cannot be determined.
    pub fn resolve(&self) -> (r: Option<(Option<i64>, Option<i64>)>)
        ensures
            self.start_date is Some || self.end_date is Some ==> r == Some((self.start_date, self.end_date)),
            self.start_date is None && self.end_date is None ==> (r matches Some(b) ==> b.0 is Some
                && b.1 is Some),
    {
        if self.start_date.is_some() || self.end_date.is_some() {
            self.resolve_with(None)
        } else {
            self.resolve_with(Self::today())
        }
    }

    /// The range given by the raw `start_date` and `end_date` query
    /// parameters; a parameter that is not an integer counts as absent.
    pub fn from_params(start_date: Option<&str>, end_date: Option<&str>) -> (q: Self)
        ensures
            q.start_date == param_i64(start_date),
            q.end_date == param_i64(end_date),
    {
        DateRangeQuery { start_date: parse_param_i64(start_date), end_date: parse_param_i64(end_date) }
    }
}

/// The parameters of `/api/v1/logs`.
pub struct LogsQuery {
    pub range: DateRangeQuery,
    pub limit: usize,
}

/// The parameters of `/api/v1/trends`.
#[derive(Clone, Copy, Debug, PartialEq, Eq, Structural)]
pub struct TrendsQuery {
    pub range: DateRangeQuery,
    pub days: i64,
}

/// Reads the parameters of `/api/v1/logs`; `limit` is 6 unless given as an
/// unsigned integer.
pub fn parse_logs_query(start_date: Option<&str>, end_date: Option<&str>, limit: Option<&str>) -> (q:
    LogsQuery)
    ensures
        q.range.start_date == param_i64(start_date),
        q.range.end_date == param_i64(end_date),
        q.limit == match param_usize(limit) {
            Some(n) => n,
            None => DEFAULT_LOG_LIMIT,
        },
{
    let range = DateRangeQuery::from_params(start_date, end_date);
    let limit = match parse_param_usize(limit) {
        Some(n) => n,
        None => DEFAULT_LOG_LIMIT,
    };
    LogsQuery { range, limit }
}

impl LogsQuery {
    /// The page size handed to the log query: the limit cut to 32 bits.
    pub fn page_size(&self) -> (n: u32)
        ensures
            n == self.limit as u32,
    {
        self.limit as u32
    }
}

/// Reads the parameters of `/api/v1/trends`; `days` is 8 unless given as an
/// integer.
pub fn parse_trends_query(start_date: Option<&str>, end_date: Option<&str>, days: Option<&str>) -> (q:
    TrendsQuery)
    ensures
        q.range.start_date == param_i64(start_date),
        q.range.end_date == param_i64(end_date),
        q.days == match param_i64(days) {
            Some(n) => n,
            None => DEFAULT_TREND_DAYS,
        },
{
    let range = DateRangeQuery::from_params(start_date, end_date);
    let days = match parse_param_i64(days) {
        Some(n) => n,
        None => DEFAULT_TREND_DAYS,
    };
    TrendsQuery { range, days }
}

/// Seconds in a day.
pub const SECONDS_PER_DAY: i64 = 86_400;

/// Where a window of `days` local days ending today starts, given today's
/// local midnight: `days - 1` whole days of 24 hours before that midnight
/// (at the earliest `i64::MIN`); a window of one day or fewer is today.
pub open spec fn trend_window_start(midnight: i64, days: i64) -> i64 {
    let s = midnight - (days - 1) * SECONDS_PER_DAY;
    if days <= 1 {
        midnight
    } else if s < i64::MIN {
        i64::MIN
    } else {
        s as i64
    }
}

/// The range of a trends request: its own bounds when it gives either of
/// them, else the `days` local days ending now, from what `today` gave.
pub open spec fn spec_trend_range(q: TrendsQuery, today: Option<DateRangeQuery>) -> Option<
    (Option<i64>, Option<i64>),
> {
    if q.range.start_date is Some || q.range.end_date is Some {
        Some((q.range.start_date, q.range.end_date))
    } else {
        match today {
            Some(d) => Some(
                (
                    match d.start_date {
                        Some(m) => Some(trend_window_start(m, q.days)),
                        None => None,
                    },
                    d.end_date,
                ),
            ),
            None => None,
        }
    }
}

impl TrendsQuery {
    /// The range of the trends, given what `DateRangeQuery::today` gave.
    pub fn resolve_with(&self, today: Option<DateRangeQuery>) -> (r: Option<(Option<i64>, Option<i64>)>)
        ensures
            r == spec_trend_range(*self, today),
    {
        if self.range.start_date.is_some() || self.range.end_date.is_some() {
            return Some((self.range.start_date, self.range.end_date));
        }
        match today {
            Some(d) => {
                let start = match d.start_date {
                    Some(m) => {
                        if self.days <= 1 {
                            Some(m)
                        } else {
                            let s: i128 = (m as i128) - ((self.days as i128) - 1) * 86_400i128;
                            if s < i64::MIN as i128 {
                                Some(i64::MIN)
                            } else {
                                Some(s as i64)
                            }
                        }
                    },
                    None => None,
                };
                Some((start, d.end_date))
            },
            None => None,
        }
    }

    /// The range of the trends: the given bounds when either is given, else
    /// the last `days` local days up to now (today alone for one day or
    /// fewer). `None` only when no bound is given and today cannot be
    /// determined.
    pub fn resolve(&self) -> (r: Option<(Option<i64>, Option<i64>)>)
        ensures
            self.range.start_date is Some || self.range.end_date is Some ==> r == Some(
                (self.range.start_date, self.range.end_date),
            ),
            self.range.start_date is None && self.range.end_date is None ==> (r matches Some(b)
                ==> b.0 is Some && b.1 is Some),
    {
        if self.range.start_date.is_some() || self.range.end_date.is_some() {
            self.resolve_with(None)
        } else {
            self.resolve_with(DateRangeQuery::today())
        }
    }
}

/// A trends request without dates covers a window that ends now and starts
/// `days - 1` whole days before today's midnight (today alone for one day or
/// fewer), never later than that midnight; a request with a date keeps its
/// own bounds and does not depend on today.
pub proof fn lemma_trend_window(q: TrendsQuery, midnight: i64, now: i64)
    ensures
        q.range.start_date is None && q.range.end_date is None ==> ({
            let today = DateRangeQuery { start_date: Some(midnight), end_date: Some(now) };
            let r = spec_trend_range(q, Some(today));
            let (start, end) = r->0;
            &&& r is Some
            &&& end == Some(now)
            &&& start matches Some(st) && st <= midnight
            &&& q.days <= 1 ==> start == Some(midnight)
            &&& q.days > 1 && midnight - (q.days - 1) * 86_400 >= i64::MIN ==> start == Some(
                (midnight - (q.days - 1) * 86_400) as i64,
            )
        }),
        q.range.start_date is Some || q.range.end_date is Some ==> forall|t: Option<DateRangeQuery>|
            #[trigger] spec_trend_range(q, t) == Some((q.range.start_date, q.range.end_date)),
{
}

/// The announcement targets of a LAN address whose first octet is neither
/// 127 nor 169: the limited broadcast address, then the same address with
/// the last octet 255, both on port 3445; for 127.x.x.x and 169.x.x.x only
/// the limited broadcast address.
pub proof fn lemma_targets_of_address(a: Ipv4)
    ensures
        a.0 != 127 && a.0 != 169 ==> broadcast_target_texts(ipv4_text(a)) == seq![
            socket_text(ipv4_text(Ipv4(255, 255, 255, 255)), BROADCAST_PORT),
            socket_text(ipv4_text(Ipv4(a.0, a.1, a.2, 255)), BROADCAST_PORT),
        ],
        a.0 == 127 || a.0 == 169 ==> broadcast_target_texts(ipv4_text(a)) == seq![
            socket_text(ipv4_text(Ipv4(255, 255, 255, 255)), BROADCAST_PORT),
        ],
{
    lemma_subnet_broadcast_law(a, ipv4_text(a));
    assert(broadcast_target_texts(ipv4_text(a)) =~= if a.0 != 127 && a.0 != 169 {
        seq![
            socket_text(ipv4_text(Ipv4(255, 255, 255, 255)), BROADCAST_PORT),
            socket_text(ipv4_text(Ipv4(a.0, a.1, a.2, 255)), BROADCAST_PORT),
        ]
    } else {
        seq![socket_text(ipv4_text(Ipv4(255, 255, 255, 255)), BROADCAST_PORT)]
    });
}

/// The logs whose stored cost is zero although they used tokens.
pub const ZERO_COST_LOGS_SELECT: &'static str = "SELECT request_id, app_type, model, request_model, input_tokens, output_tokens,
                    cache_read_tokens, cache_creation_tokens
             FROM proxy_request_logs
             WHERE total_cost_usd IN ('0', '0.0')
               AND (input_tokens > 0 OR output_tokens > 0)";

/// The lower date bound of the zero-cost log query.
pub const CREATED_AT_FROM: &'static str = " AND created_at >= ?";

/// The upper date bound of the zero-cost log query.
pub const CREATED_AT_TO: &'static str = " AND created_at <= ?";

/// The order of the zero-cost log query.
pub const ORDER_BY_ROWID: &'static str = " ORDER BY rowid";

/// `Some(x)` as a one-element sequence, `None` as the empty one.
pub open spec fn opt_seq(x: Option<i64>) -> Seq<i64> {
    match x {
        Some(v) => seq![v],
        None => Seq::<i64>::empty(),
    }
}

/// The text of the zero-cost log query for the date bounds.
pub open spec fn zero_cost_logs_sql_text(start_date: Option<i64>, end_date: Option<i64>) -> Seq<char> {
    ZERO_COST_LOGS_SELECT@ + (if start_date is Some {
        CREATED_AT_FROM@
    } else {
        Seq::<char>::empty()
    }) + (if end_date is Some {
        CREATED_AT_TO@
    } else {
        Seq::<char>::empty()
    }) + ORDER_BY_ROWID@
}

/// The query for the logs whose stored cost is zero although they used
/// tokens, within the date bounds, in row order, with its parameters (the
/// bounds that are given, start first).
pub fn zero_cost_logs_query(start_date: Option<i64>, end_date: Option<i64>) -> (r: (String, Vec<i64>))
    ensures
        r.0@ == zero_cost_logs_sql_text(start_date, end_date),
        r.1@ == opt_seq(start_date) + opt_seq(end_date),
{
    let mut sql = String::from_str(ZERO_COST_LOGS_SELECT);
    let mut params: Vec<i64> = Vec::new();
    let ghost sql0 = sql@;
    match start_date {
        Some(s) => {
            sql.append(CREATED_AT_FROM);
            params.push(s);
        },
        None => {},
    }
    let ghost sql1 = sql@;
    match end_date {
        Some(e) => {
            sql.append(CREATED_AT_TO);
            params.push(e);
        },
        None => {},
    }
    sql.append(ORDER_BY_ROWID);
    assert(sql@ =~= zero_cost_logs_sql_text(start_date, end_date));
    assert(params@ =~= opt_seq(start_date) + opt_seq(end_date));
    (sql, params)
}

} // verus!
