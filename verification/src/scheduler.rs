//! The presence scheduler: what one tick decides, from what was observed to
//! what is published and how long to wait.
//!
//! A tick has two halves, with the outside work between them. `observe`
//! takes the outcome of the process scan and says whether the session source
//! is to be asked. `conclude` takes what the session source gave and says
//! what to publish and how long to sleep. All times are in milliseconds.

use crate::cache::{ProcessCache, Snapshot};
use crate::enrichment::{enrichment_due, enrichment_due_spec, FileInfo};
use crate::lookup::{get_running_apps_optimized, lookup_spec};
use crate::order::{lemma_primary_index, primary_of, select_primary};
use crate::render::{
    is_enrichable, is_enrichable_spec, render_status, status_text_spec, OutputData,
};
use crate::watch::{apps_view, names_view, watch_view, RunningApp, TieredApp};
use vstd::prelude::*;

verus! {

/// The delay between ticks while something changes.
pub const FAST_UPDATE_INTERVAL_MS: u64 = 1000;

/// The delay between ticks while nothing changes.
pub const SLOW_UPDATE_INTERVAL_MS: u64 = 3000;

/// The least time between two answers of the session source.
pub const VSCODE_CHECK_INTERVAL_MS: u64 = 2000;

/// How long the session source is given to answer.
pub const VSCODE_FETCH_TIMEOUT_MS: u64 = 1000;

/// The number of ticks without change after which the scheduler slows down.
pub const IDLE_THRESHOLD_COUNT: u32 = 3;

/// How many processes are inspected at one time during a scan.
pub const MAX_CONCURRENT_TASKS: usize = 50;

/// The cadence of the scheduler.
#[derive(Clone, Copy, Debug, PartialEq, Eq, Structural)]
pub enum Mode {
    Active,
    Idle,
}

/// The tunable parameters of the scheduler.
#[derive(Clone, Copy, Debug)]
pub struct SchedulerConfig {
    pub fast_interval_ms: u64,
    pub slow_interval_ms: u64,
    pub cache_ttl_ms: u64,
    pub enrichment_interval_ms: u64,
    pub enrichment_timeout_ms: u64,
    pub idle_threshold: u32,
    pub concurrency_cap: usize,
}

impl SchedulerConfig {
    /// The standard parameters.
    pub open spec fn standard() -> SchedulerConfig {
        SchedulerConfig {
            fast_interval_ms: FAST_UPDATE_INTERVAL_MS,
            slow_interval_ms: SLOW_UPDATE_INTERVAL_MS,
            cache_ttl_ms: crate::cache::PROCESS_CACHE_TTL_MS,
            enrichment_interval_ms: VSCODE_CHECK_INTERVAL_MS,
            enrichment_timeout_ms: VSCODE_FETCH_TIMEOUT_MS,
            idle_threshold: IDLE_THRESHOLD_COUNT,
            concurrency_cap: MAX_CONCURRENT_TASKS,
        }
    }
}

impl Default for SchedulerConfig {
    fn default() -> (config: Self)
        ensures
            config == SchedulerConfig::standard(),
    {
        SchedulerConfig {
            fast_interval_ms: FAST_UPDATE_INTERVAL_MS,
            slow_interval_ms: SLOW_UPDATE_INTERVAL_MS,
            cache_ttl_ms: crate::cache::PROCESS_CACHE_TTL_MS,
            enrichment_interval_ms: VSCODE_CHECK_INTERVAL_MS,
            enrichment_timeout_ms: VSCODE_FETCH_TIMEOUT_MS,
            idle_threshold: IDLE_THRESHOLD_COUNT,
            concurrency_cap: MAX_CONCURRENT_TASKS,
        }
    }
}

/// The state of the scheduler between two ticks.
pub struct SchedulerState {
    pub config: SchedulerConfig,
    pub cache: Snapshot,
    /// When the session source last answered.
    pub last_check: Option<u64>,
    /// The last record that the session source gave, while the editor is primary.
    pub record: Option<FileInfo>,
    /// The number of ticks in a row in which nothing changed.
    pub idle_count: u32,
    /// The text that was published last.
    pub last_text: Seq<char>,
    pub mode: Mode,
}

/// What the first half of a tick found.
pub struct PlanView {
    pub primary: Option<(Seq<char>, u32)>,
    pub scan_changed: bool,
    pub fetch: bool,
    /// How long the session source is given to answer, if it is asked.
    pub timeout_ms: u64,
}

/// What a tick ends with.
pub struct OutcomeView {
    /// The text to publish, where it differs from the one published last.
    pub publish: Option<Seq<char>>,
    pub delay_ms: u64,
    pub mode: Mode,
}

/// The primary application is the editor that reports its open file.
pub open spec fn primary_is_enrichable(primary: Option<(Seq<char>, u32)>) -> bool {
    primary matches Some(app) && is_enrichable_spec(app.0)
}

/// The file name that a record gives, if there is a record.
pub open spec fn record_file_name(record: Option<FileInfo>) -> Option<Seq<char>> {
    match record {
        Some(info) => Some(info.file_name@),
        None => None,
    }
}

/// The counter after one more tick without change.
pub open spec fn next_idle_count(count: u32) -> u32 {
    if count < u32::MAX {
        (count + 1) as u32
    } else {
        count
    }
}

/// The cadence that goes with a counter value.
pub open spec fn mode_for(config: SchedulerConfig, idle_count: u32) -> Mode {
    if idle_count >= config.idle_threshold {
        Mode::Idle
    } else {
        Mode::Active
    }
}

/// The shorter of the two delays between ticks.
pub open spec fn shortest_interval(config: SchedulerConfig) -> u64 {
    if config.fast_interval_ms <= config.slow_interval_ms {
        config.fast_interval_ms
    } else {
        config.slow_interval_ms
    }
}

/// How long the session source is given to answer: the configured time,
/// cut down to stay below the shortest delay between ticks.
pub open spec fn fetch_timeout(config: SchedulerConfig) -> u64 {
    let limit = shortest_interval(config);
    if config.enrichment_timeout_ms < limit {
        config.enrichment_timeout_ms
    } else if limit > 0 {
        (limit - 1) as u64
    } else {
        0
    }
}

/// The delay that goes with a cadence.
pub open spec fn delay_for(config: SchedulerConfig, mode: Mode) -> u64 {
    match mode {
        Mode::Idle => config.slow_interval_ms,
        Mode::Active => config.fast_interval_ms,
    }
}

impl SchedulerState {
    /// The state before the first tick.
    pub open spec fn initial(config: SchedulerConfig) -> SchedulerState {
        SchedulerState {
            config,
            cache: Snapshot::initial(config.cache_ttl_ms),
            last_check: None,
            record: None,
            idle_count: 0,
            last_text: Seq::empty(),
            mode: Mode::Active,
        }
    }

    /// The cadence agrees with the counter.
    pub open spec fn consistent(self) -> bool {
        self.mode == mode_for(self.config, self.idle_count)
    }

    /// The first half of a tick at time `now`: look the running applications
    /// up, choose the primary one, and decide whether to ask the session
    /// source. It is asked when the primary application is the editor and the
    /// source has not answered within the check interval. Where the primary
    /// application is not the editor, the record is dropped.
    pub open spec fn observe(
        self,
        watch: Seq<(Seq<char>, u32)>,
        candidates: Seq<Option<Seq<char>>>,
        now: u64,
    ) -> (SchedulerState, PlanView) {
        let look = lookup_spec(self.cache, watch, candidates, now);
        let primary = primary_of(look.matches);
        let enrichable = primary_is_enrichable(primary);
        (
            SchedulerState {
                cache: look.cache,
                record: if enrichable {
                    self.record
                } else {
                    None
                },
                ..self
            },
            PlanView {
                primary,
                scan_changed: look.changed,
                fetch: enrichable && enrichment_due_spec(
                    self.last_check,
                    now,
                    self.config.enrichment_interval_ms,
                ),
                timeout_ms: fetch_timeout(self.config),
            },
        )
    }

    /// The second half of a tick at time `now`, given what the session source
    /// answered. An answer that was asked for replaces the record and sets the
    /// time of the last answer; without one both stay. The text is rendered
    /// from the primary application and the record. A new text is published
    /// and resets the counter; an old text with a changed process set resets
    /// the counter without publishing; otherwise the counter goes up by one.
    /// The cadence is idle once the counter has reached the threshold.
    pub open spec fn conclude(self, plan: PlanView, fetched: Option<FileInfo>, now: u64) -> (
        SchedulerState,
        OutcomeView,
    ) {
        let received = plan.fetch && fetched is Some;
        let record = if received {
            fetched
        } else {
            self.record
        };
        let text = status_text_spec(plan.primary, record_file_name(record));
        let text_changed = text != self.last_text;
        let idle_count = if text_changed || plan.scan_changed {
            0
        } else {
            next_idle_count(self.idle_count)
        };
        let mode = mode_for(self.config, idle_count);
        (
            SchedulerState {
                record,
                last_check: if received {
                    Some(now)
                } else {
                    self.last_check
                },
                idle_count,
                last_text: text,
                mode,
                ..self
            },
            OutcomeView {
                publish: if text_changed {
                    Some(text)
                } else {
                    None
                },
                delay_ms: delay_for(self.config, mode),
                mode,
            },
        )
    }
}

/// What the first half of a tick hands to the second: the primary
/// application, whether the process set changed, and whether the session
/// source is to be asked before the tick is concluded.
#[derive(Debug)]
pub struct TickPlan {
    primary: Option<RunningApp>,
    scan_changed: bool,
    fetch: bool,
    timeout_ms: u64,
}

impl View for TickPlan {
    type V = PlanView;

    closed spec fn view(&self) -> PlanView {
        PlanView {
            primary: match self.primary {
                Some(app) => Some(app@),
                None => None,
            },
            scan_changed: self.scan_changed,
            fetch: self.fetch,
            timeout_ms: self.timeout_ms,
        }
    }
}

impl TickPlan {
    /// The primary application, if any application is running.
    pub fn primary(&self) -> (primary: Option<&RunningApp>)
        ensures
            match primary {
                Some(app) => self@.primary == Some(app@),
                None => self@.primary is None,
            },
    {
        self.primary.as_ref()
    }

    /// Whether the set of detected processes changed with this tick's scan.
    pub fn scan_changed(&self) -> (changed: bool)
        ensures
            changed == self@.scan_changed,
    {
        self.scan_changed
    }

    /// Whether the session source is to be asked before the tick is concluded.
    pub fn fetch(&self) -> (fetch: bool)
        ensures
            fetch == self@.fetch,
    {
        self.fetch
    }

    /// How long the session source is given to answer, in milliseconds.
    pub fn fetch_timeout_ms(&self) -> (timeout: u64)
        ensures
            timeout == self@.timeout_ms,
    {
        self.timeout_ms
    }
}

/// What a tick ends with: the status to publish, if it is new, and the delay
/// before the next tick.
#[derive(Debug)]
pub struct TickOutcome {
    pub publish: Option<OutputData>,
    pub delay_ms: u64,
    pub mode: Mode,
}

impl View for TickOutcome {
    type V = OutcomeView;

    open spec fn view(&self) -> OutcomeView {
        OutcomeView {
            publish: match self.publish {
                Some(data) => Some(data@),
                None => None,
            },
            delay_ms: self.delay_ms,
            mode: self.mode,
        }
    }
}

/// The scheduler.
#[derive(Debug)]
pub struct PresenceScheduler {
    config: SchedulerConfig,
    cache: ProcessCache,
    last_check: Option<u64>,
    cached_info: Option<FileInfo>,
    idle_count: u32,
    last_text: String,
    mode: Mode,
}

impl View for PresenceScheduler {
    type V = SchedulerState;

    closed spec fn view(&self) -> SchedulerState {
        SchedulerState {
            config: self.config,
            cache: self.cache@,
            last_check: self.last_check,
            record: self.cached_info,
            idle_count: self.idle_count,
            last_text: self.last_text@,
            mode: self.mode,
        }
    }
}

impl PresenceScheduler {
    /// A scheduler before its first tick: active, nothing cached, nothing published.
    pub fn new(config: SchedulerConfig) -> (scheduler: Self)
        ensures
            scheduler@ == SchedulerState::initial(config),
    {
        PresenceScheduler {
            config,
            cache: ProcessCache::with_ttl(config.cache_ttl_ms),
            last_check: None,
            cached_info: None,
            idle_count: 0,
            last_text: String::new(),
            mode: Mode::Active,
        }
    }

    /// Tells whether a tick at time `now` needs the process table scanned.
    pub fn scan_due(&self, now: u64) -> (due: bool)
        ensures
            due == self@.cache.is_expired(now),
    {
        self.cache.is_expired(now)
    }

    /// The first half of a tick at time `now`. `resolved` is the outcome of
    /// the process scan, as `get_running_apps_optimized` takes it.
    pub fn observe(&mut self, watch: &[TieredApp], resolved: &[Option<String>], now: u64) -> (plan:
        TickPlan)
        ensures
            (final(self)@, plan@) == old(self)@.observe(
                watch_view(watch@),
                names_view(resolved@),
                now,
            ),
    {
        let (matches, scan_changed) = get_running_apps_optimized(
            watch,
            &mut self.cache,
            resolved,
            now,
        );
        let primary = match select_primary(matches.as_slice()) {
            Some(k) => {
                assert(apps_view(matches@)[k as int] == matches@[k as int]@);
                Some(matches[k].clone())
            },
            None => None,
        };
        let enrichable = match &primary {
            Some(app) => is_enrichable(app),
            None => false,
        };
        let fetch = enrichable && enrichment_due(
            self.last_check,
            now,
            self.config.enrichment_interval_ms,
        );
        if !enrichable {
            self.cached_info = None;
        }
        let limit = if self.config.fast_interval_ms <= self.config.slow_interval_ms {
            self.config.fast_interval_ms
        } else {
            self.config.slow_interval_ms
        };
        let timeout_ms = if self.config.enrichment_timeout_ms < limit {
            self.config.enrichment_timeout_ms
        } else if limit > 0 {
            limit - 1
        } else {
            0
        };
        TickPlan { primary, scan_changed, fetch, timeout_ms }
    }

    /// The second half of a tick at time `now`. `fetched` is what the session
    /// source answered: a record, or nothing where it was not asked or was
    /// unavailable for any reason.
    pub fn conclude(&mut self, plan: &TickPlan, fetched: Option<FileInfo>, now: u64) -> (outcome:
        TickOutcome)
        ensures
            (final(self)@, outcome@) == old(self)@.conclude(plan@, fetched, now),
    {
        if plan.fetch {
            if let Some(info) = fetched {
                self.cached_info = Some(info);
                self.last_check = Some(now);
            }
        }
        let text = render_status(plan.primary.as_ref(), self.cached_info.as_ref());
        let text_changed = text != self.last_text;
        let publish = if text_changed {
            Some(OutputData { text: text.clone() })
        } else {
            None
        };
        if text_changed || plan.scan_changed {
            self.idle_count = 0;
        } else if self.idle_count < u32::MAX {
            self.idle_count = self.idle_count + 1;
        }
        self.last_text = text;
        let mode = if self.idle_count >= self.config.idle_threshold {
            Mode::Idle
        } else {
            Mode::Active
        };
        self.mode = mode;
        let delay_ms = match mode {
            Mode::Idle => self.config.slow_interval_ms,
            Mode::Active => self.config.fast_interval_ms,
        };
        TickOutcome { publish, delay_ms, mode }
    }

    /// The parameters that the scheduler was made with.
    pub fn config(&self) -> (config: SchedulerConfig)
        ensures
            config == self@.config,
    {
        self.config
    }

    /// The current cadence.
    pub fn mode(&self) -> (mode: Mode)
        ensures
            mode == self@.mode,
    {
        self.mode
    }

    /// The number of ticks in a row in which nothing changed.
    pub fn idle_count(&self) -> (count: u32)
        ensures
            count == self@.idle_count,
    {
        self.idle_count
    }
}

/// After any tick the cadence agrees with the counter, the delay is the slow
/// interval exactly when the cadence is idle, and the text published last is
/// the text that the tick rendered.
pub proof fn lemma_tick_sets_cadence(
    state: SchedulerState,
    plan: PlanView,
    fetched: Option<FileInfo>,
    now: u64,
)
    ensures
        ({
            let (next, outcome) = state.conclude(plan, fetched, now);
            &&& next.consistent()
            &&& outcome.mode == next.mode
            &&& outcome.delay_ms == delay_for(state.config, next.mode)
            &&& (next.mode == Mode::Idle <==> next.idle_count >= state.config.idle_threshold)
            &&& (outcome.publish matches Some(text) ==> text == next.last_text && text
                != state.last_text)
            &&& (outcome.publish is None ==> next.last_text == state.last_text)
        }),
{
}

/// An active scheduler turns idle exactly on the tick on which the counter
/// reaches the threshold, and that tick neither publishes nor saw the process
/// set change.
pub proof fn lemma_idle_exactly_at_threshold(
    state: SchedulerState,
    plan: PlanView,
    fetched: Option<FileInfo>,
    now: u64,
)
    requires
        state.consistent(),
        state.mode == Mode::Active,
    ensures
        ({
            let (next, outcome) = state.conclude(plan, fetched, now);
            &&& (next.mode == Mode::Idle <==> next.idle_count == state.config.idle_threshold)
            &&& (next.mode == Mode::Idle ==> outcome.publish is None && !plan.scan_changed
                && next.idle_count == state.idle_count + 1)
        }),
{
}

/// A tick on which the rendered text changes publishes it, sets the counter
/// to zero and leaves the scheduler active, whatever its cadence was. This
/// needs a threshold of at least one: with a threshold of zero every counter
/// value is idle.
pub proof fn lemma_text_change_reactivates(
    state: SchedulerState,
    plan: PlanView,
    fetched: Option<FileInfo>,
    now: u64,
)
    requires
        state.config.idle_threshold >= 1,
        state.conclude(plan, fetched, now).1.publish is Some,
    ensures
        ({
            let (next, outcome) = state.conclude(plan, fetched, now);
            &&& next.idle_count == 0
            &&& next.mode == Mode::Active
            &&& outcome.delay_ms == state.config.fast_interval_ms
        }),
{
}

/// The primary application of a tick has the lowest tier of all matches of
/// the tick's lookup, and is the first match of that tier.
pub proof fn lemma_primary_is_lowest_tier(
    state: SchedulerState,
    watch: Seq<(Seq<char>, u32)>,
    candidates: Seq<Option<Seq<char>>>,
    now: u64,
)
    ensures
        ({
            let matches = lookup_spec(state.cache, watch, candidates, now).matches;
            let plan = state.observe(watch, candidates, now).1;
            &&& plan.primary is None <==> matches.len() == 0
            &&& plan.primary matches Some(app) ==> matches.contains(app) && (forall|j: int|
                0 <= j < matches.len() ==> app.1 <= (#[trigger] matches[j]).1)
        }),
{
    let matches = lookup_spec(state.cache, watch, candidates, now).matches;
    if matches.len() > 0 {
        lemma_primary_index(matches);
    }
}

/// A record is only kept while the editor is the primary application, and
/// the session source is only asked then, and only when it has not answered
/// within the check interval.
pub proof fn lemma_enrichment_follows_primary(
    state: SchedulerState,
    watch: Seq<(Seq<char>, u32)>,
    candidates: Seq<Option<Seq<char>>>,
    now: u64,
)
    ensures
        ({
            let (next, plan) = state.observe(watch, candidates, now);
            &&& !primary_is_enrichable(plan.primary) ==> next.record is None && !plan.fetch
            &&& primary_is_enrichable(plan.primary) ==> next.record == state.record
            &&& plan.fetch ==> enrichment_due_spec(
                state.last_check,
                now,
                state.config.enrichment_interval_ms,
            )
            &&& next.last_check == state.last_check
        }),
{
}

/// The session source never gets as long as a tick takes: where both delays
/// are at least a millisecond, the time it is given is below the delay that
/// any tick ends with.
pub proof fn lemma_fetch_ends_within_a_tick(
    state: SchedulerState,
    watch: Seq<(Seq<char>, u32)>,
    candidates: Seq<Option<Seq<char>>>,
    fetched: Option<FileInfo>,
    observed_at: u64,
    concluded_at: u64,
)
    requires
        state.config.fast_interval_ms >= 1,
        state.config.slow_interval_ms >= 1,
    ensures
        ({
            let (seen, plan) = state.observe(watch, candidates, observed_at);
            let (next, outcome) = seen.conclude(plan, fetched, concluded_at);
            &&& plan.timeout_ms <= state.config.enrichment_timeout_ms
            &&& plan.timeout_ms < outcome.delay_ms
        }),
{
}

} // verus!
