//! The five-phase execution pipeline.
//!
//! Plugins run in strict phase order:
//!   SEQUENTIAL → TRANSFORM → AUDIT → CONCURRENT → FIRE_AND_FORGET
//!
//! | Phase           | Runs                  | Can block | Can modify |
//! |-----------------|-----------------------|-----------|------------|
//! | Sequential      | one at a time         | yes       | yes        |
//! | Transform       | one at a time         | no        | yes        |
//! | Audit           | one at a time         | no        | no         |
//! | Concurrent      | all at once           | yes       | no         |
//! | FireAndForget   | in the background     | no        | no         |
//!
//! This module holds every decision of the pipeline as a state machine:
//! [`PipelineRun::next_step`] says which plugins to invoke, with which
//! filtered extensions and context, and the `*_result` methods take what
//! the invocation produced. The caller performs the invocations (with
//! their timeouts) and hands the outcomes back.

use vstd::prelude::*;
use vstd::string::*;

use crate::context::{PluginContext, PluginContextTable, local_or_empty};
use crate::error::{PluginError, PluginErrorRecord, PluginViolation, RecordView, record_of, error_text};
use crate::extensions::container::{Extensions, OwnedExtensions, same_immutable, guarded_http, immutable_all_absent,
    immutable_presence_differs};
use crate::extensions::filter::{filter_extensions, is_filtered_view};
use crate::extensions::guarded::WriteToken;
use crate::extensions::monotonic::superset_spec;
use crate::hooks::PluginResult;
use crate::json::JsonValue;
use crate::plugin::{OnError, PluginMode};
use crate::registry::{HookEntry, EntryView, entry_view, entry_views, of_mode, group_by_mode};
use crate::text::{strs_view, strings_contain};

verus! {

// ---------------------------------------------------------------------------
// Configuration and results
// ---------------------------------------------------------------------------

/// The executor: stateless apart from its configuration; one executor
/// serves any number of pipelines.
#[derive(Debug, Clone, Copy)]
pub struct Executor {
    pub config: ExecutorConfig,
}

impl Executor {
    /// An executor with the given configuration.
    pub fn new(config: ExecutorConfig) -> (e: Executor)
        ensures
            e.config == config,
    {
        Executor { config }
    }
}

impl Default for Executor {
    fn default() -> (e: Self)
        ensures
            e.config.timeout_seconds == 30,
            e.config.short_circuit_on_deny,
    {
        Executor::new(ExecutorConfig::default())
    }
}

/// Configuration of the executor.
#[derive(Debug, Clone, Copy)]
pub struct ExecutorConfig {
    /// Longest a plugin may run, in seconds.
    pub timeout_seconds: u64,
    /// Halt on the first deny in the concurrent phase.
    pub short_circuit_on_deny: bool,
}

impl Default for ExecutorConfig {
    fn default() -> (c: Self)
        ensures
            c.timeout_seconds == 30,
            c.short_circuit_on_deny,
    {
        ExecutorConfig { timeout_seconds: 30, short_circuit_on_deny: true }
    }
}

/// Aggregate result of one hook invocation across all phases.
#[derive(Debug)]
pub struct PipelineResult<P> {
    /// `false`: a plugin denied and the pipeline halted.
    pub continue_processing: bool,
    /// The final payload; `None` when denied.
    pub modified_payload: Option<P>,
    /// The final extensions; `None` when no plugin modified them.
    pub modified_extensions: Option<Extensions>,
    /// The violation behind a deny.
    pub violation: Option<PluginViolation>,
    /// Errors of plugins that failed without halting the pipeline.
    pub errors: Vec<PluginErrorRecord>,
    /// Telemetry aggregated from plugins.
    pub metadata: Option<JsonValue>,
    /// Per-plugin context to thread into the next hook invocation.
    pub context_table: PluginContextTable,
}

impl<P> PipelineResult<P> {
    /// All plugins allowed.
    pub fn allowed_with(payload: P, extensions: Extensions, context_table: PluginContextTable) -> (r: Self)
        ensures
            r.continue_processing,
            r.modified_payload == Some(payload),
            r.modified_extensions == Some(extensions),
            r.violation is None,
            r.errors@.len() == 0,
            r.metadata is None,
            r.context_table == context_table,
    {
        PipelineResult {
            continue_processing: true,
            modified_payload: Some(payload),
            modified_extensions: Some(extensions),
            violation: None,
            errors: Vec::new(),
            metadata: None,
            context_table,
        }
    }

    /// A plugin denied.
    pub fn denied(violation: PluginViolation, extensions: Extensions, context_table: PluginContextTable) -> (r: Self)
        ensures
            !r.continue_processing,
            r.modified_payload is None,
            r.modified_extensions == Some(extensions),
            r.violation == Some(violation),
            r.errors@.len() == 0,
            r.metadata is None,
            r.context_table == context_table,
    {
        PipelineResult {
            continue_processing: false,
            modified_payload: None,
            modified_extensions: Some(extensions),
            violation: Some(violation),
            errors: Vec::new(),
            metadata: None,
            context_table,
        }
    }

    /// Replace the recorded errors.
    pub fn with_errors(self, errors: Vec<PluginErrorRecord>) -> (r: Self)
        ensures
            r.errors == errors,
            r.continue_processing == self.continue_processing,
            r.modified_payload == self.modified_payload,
            r.modified_extensions == self.modified_extensions,
            r.violation == self.violation,
            r.metadata == self.metadata,
            r.context_table == self.context_table,
    {
        PipelineResult { errors, ..self }
    }

    /// Whether the pipeline was denied.
    pub fn is_denied(&self) -> (r: bool)
        ensures
            r == !self.continue_processing,
    {
        !self.continue_processing
    }
}

// ---------------------------------------------------------------------------
// Handler outcomes
// ---------------------------------------------------------------------------

/// The control fields of a handler's result, the payload type erased.
#[derive(Debug)]
pub struct ErasedResultFields<P> {
    pub continue_processing: bool,
    pub modified_payload: Option<P>,
    pub modified_extensions: Option<OwnedExtensions>,
    pub violation: Option<PluginViolation>,
}

/// What a handler handed back: its result fields, or a value of another
/// type (a framework bug, not a plugin error).
#[derive(Debug)]
pub enum ErasedResult<P> {
    Fields(ErasedResultFields<P>),
    Unexpected,
}

/// The erased form of a typed result.
pub fn erase_result<P>(result: PluginResult<P>) -> (r: ErasedResult<P>)
    ensures
        r == ErasedResult::Fields(ErasedResultFields {
            continue_processing: result.continue_processing,
            modified_payload: result.modified_payload,
            modified_extensions: result.modified_extensions,
            violation: result.violation,
        }),
{
    ErasedResult::Fields(ErasedResultFields {
        continue_processing: result.continue_processing,
        modified_payload: result.modified_payload,
        modified_extensions: result.modified_extensions,
        violation: result.violation,
    })
}

/// The result fields, if the handler handed back result fields.
pub fn extract_erased<P>(result: ErasedResult<P>) -> (r: Option<ErasedResultFields<P>>)
    ensures
        match result {
            ErasedResult::Fields(f) => r == Some(f),
            ErasedResult::Unexpected => r is None,
        },
{
    match result {
        ErasedResult::Fields(f) => Some(f),
        ErasedResult::Unexpected => None,
    }
}

/// How one plugin invocation ended.
#[derive(Debug)]
pub enum InvokeOutcome<P> {
    /// The handler returned.
    Returned(ErasedResult<P>),
    /// The handler returned an error.
    Failed(PluginError),
    /// The handler exceeded the timeout.
    TimedOut,
    /// The task running the handler panicked (concurrent phase).
    Panicked(String),
}

// ---------------------------------------------------------------------------
// Violations and records
// ---------------------------------------------------------------------------

/// Whether `v` is a framework violation with this code and reason,
/// attributed to plugin `name`.
pub open spec fn framework_violation(v: PluginViolation, code: Seq<char>, reason: Seq<char>, name: Seq<char>) -> bool {
    &&& v.code@ == code
    &&& v.reason@ == reason
    &&& v.description is None
    &&& v.details@.len() == 0
    &&& v.proto_error_code is None
    &&& v.plugin_name matches Some(n) && n@ == name
}

/// Whether `w` is `v` attributed to plugin `name`.
pub open spec fn attributed(w: PluginViolation, v: PluginViolation, name: Seq<char>) -> bool {
    &&& w.code == v.code
    &&& w.reason == v.reason
    &&& w.description == v.description
    &&& w.details == v.details
    &&& w.proto_error_code == v.proto_error_code
    &&& w.plugin_name matches Some(n) && n@ == name
}

pub open spec fn failed_reason(name: Seq<char>, e: PluginError) -> Seq<char> {
    "Plugin '"@ + name + "' failed: "@ + error_text(e)
}

pub open spec fn timed_out_reason(name: Seq<char>) -> Seq<char> {
    "Plugin '"@ + name + "' timed out"@
}

pub open spec fn panicked_reason(name: Seq<char>, msg: Seq<char>) -> Seq<char> {
    "Plugin '"@ + name + "' task panicked: "@ + msg
}

pub open spec fn denied_reason(name: Seq<char>) -> Seq<char> {
    "Plugin '"@ + name + "' denied"@
}

/// The record of a timeout.
pub open spec fn timeout_record(name: Seq<char>, timeout_ms: u64) -> RecordView {
    RecordView {
        plugin_name: name,
        message: "plugin timed out after "@ + crate::text::decimal(timeout_ms as nat) + "ms"@,
        code: Some("timeout"@),
        details: Seq::empty(),
        proto_error_code: None,
    }
}

/// The record of a panic.
pub open spec fn panic_record(name: Seq<char>, msg: Seq<char>) -> RecordView {
    RecordView {
        plugin_name: name,
        message: "task panicked: "@ + msg,
        code: Some("panic"@),
        details: Seq::empty(),
        proto_error_code: None,
    }
}

pub open spec fn records_view(s: Seq<PluginErrorRecord>) -> Seq<RecordView> {
    s.map_values(|r: PluginErrorRecord| r@)
}

fn reason_with(name: &str, middle: &str, tail: &str) -> (s: String)
    ensures
        s@ == "Plugin '"@ + name@ + middle@ + tail@,
{
    let mut s = String::from_str("Plugin '");
    s.append(name);
    s.append(middle);
    s.append(tail);
    s
}

fn framework_deny(code: &str, reason: String, name: &str) -> (v: PluginViolation)
    ensures
        framework_violation(v, code@, reason@, name@),
{
    let mut v = PluginViolation::new(code, reason.as_str());
    v.plugin_name = Some(String::from_str(name));
    v
}

fn attribute(v: PluginViolation, name: &str) -> (w: PluginViolation)
    ensures
        attributed(w, v, name@),
{
    PluginViolation { plugin_name: Some(String::from_str(name)), ..v }
}

/// The timeout in milliseconds (`Duration::as_millis` truncated to 64
/// bits, as the timeout error carries it).
pub open spec fn timeout_ms_of(seconds: u64) -> u64 {
    ((seconds as u128) * 1000) as u64
}

fn timeout_ms(seconds: u64) -> (ms: u64)
    ensures
        ms == timeout_ms_of(seconds),
{
    let wide: u128 = (seconds as u128) * 1000;
    wide as u64
}

fn timeout_error(name: &str, ms: u64) -> (e: PluginError)
    ensures
        record_of(e) == timeout_record(name@, ms),
{
    PluginError::Timeout { plugin_name: String::from_str(name), timeout_ms: ms, proto_error_code: None }
}

fn panic_error(name: &str, msg: &str) -> (e: PluginError)
    ensures
        record_of(e) == panic_record(name@, msg@),
{
    let mut m = String::from_str("task panicked: ");
    m.append(msg);
    PluginError::Execution {
        plugin_name: String::from_str(name),
        message: m,
        code: Some(String::from_str("panic")),
        details: Vec::new(),
        proto_error_code: None,
    }
}

// ---------------------------------------------------------------------------
// The pipeline state machine
// ---------------------------------------------------------------------------

/// The phase a pipeline is in.
#[derive(Debug, Clone, Copy, PartialEq, Eq, Structural)]
pub enum Phase {
    Sequential,
    Transform,
    Audit,
    Concurrent,
    FireAndForget,
    Done,
}

/// The position of a phase in the pipeline order.
pub open spec fn phase_rank(p: Phase) -> nat {
    match p {
        Phase::Sequential => 0,
        Phase::Transform => 1,
        Phase::Audit => 2,
        Phase::Concurrent => 3,
        Phase::FireAndForget => 4,
        Phase::Done => 5,
    }
}

/// One plugin invocation for the caller to perform: which plugin, with
/// what view of the extensions and what context.
#[derive(Debug)]
pub struct Dispatch {
    /// Position of the plugin within its phase.
    pub index: usize,
    pub plugin_name: String,
    pub plugin_id: u128,
    pub extensions: Extensions,
    pub context: PluginContext,
    pub timeout_seconds: u64,
}

/// What the caller must do next.
#[derive(Debug)]
pub enum Step {
    /// Invoke one sequential or transform plugin, then call
    /// `serial_result`.
    Serial(Dispatch),
    /// Invoke one audit plugin, then call `audit_result`.
    Audit(Dispatch),
    /// Invoke all concurrent plugins in parallel, calling
    /// `concurrent_result` for each as it completes; abort the rest when
    /// it returns `true`.
    Concurrent(Vec<Dispatch>),
    /// Spawn these plugins in the background; their outcomes are not
    /// reported back.
    Background(Vec<Dispatch>),
    /// The pipeline is over: call `finish`.
    Finished,
}

/// A running pipeline.
#[derive(Debug)]
pub struct PipelineRun<P> {
    pub config: ExecutorConfig,
    pub sequential: Vec<HookEntry>,
    pub transform: Vec<HookEntry>,
    pub audit: Vec<HookEntry>,
    pub concurrent: Vec<HookEntry>,
    pub fire_and_forget: Vec<HookEntry>,
    pub phase: Phase,
    /// Next plugin of a serial or audit phase.
    pub cursor: usize,
    /// Whether the current parallel phase has been dispatched.
    pub dispatched: bool,
    pub payload: P,
    pub extensions: Extensions,
    /// Whether a plugin's returned extensions have been accepted.
    pub extensions_modified: bool,
    pub table: PluginContextTable,
    pub errors: Vec<PluginErrorRecord>,
    /// Plugins to disable after this run.
    pub disabled: Vec<String>,
    /// Concurrent denials collected without short-circuit.
    pub denials: Vec<PluginViolation>,
    /// The violation that halted the pipeline.
    pub halted: Option<PluginViolation>,
    /// Names of the plugins spawned in the background.
    pub background: Vec<String>,
}

/// The outcome of a finished run.
#[derive(Debug)]
pub struct FinishedRun<P> {
    pub result: PipelineResult<P>,
    /// Names of the plugins spawned in the background.
    pub background: Vec<String>,
    /// Names of the plugins to disable (their `on_error` is `disable`).
    pub disabled: Vec<String>,
}

impl<P> PipelineRun<P> {
    /// The plugins of a phase.
    pub open spec fn group(&self, p: Phase) -> Seq<HookEntry> {
        match p {
            Phase::Sequential => self.sequential@,
            Phase::Transform => self.transform@,
            Phase::Audit => self.audit@,
            Phase::Concurrent => self.concurrent@,
            Phase::FireAndForget => self.fire_and_forget@,
            Phase::Done => Seq::empty(),
        }
    }

    /// The plugin a serial or audit phase runs next.
    pub open spec fn current(&self) -> HookEntry {
        self.group(self.phase)[self.cursor as int]
    }

    /// Whether the pipeline may still halt in its current phase.
    pub open spec fn can_block(&self) -> bool {
        self.phase == Phase::Sequential || self.phase == Phase::Concurrent
    }

    /// The parts of the state a step leaves alone.
    pub open spec fn same_groups(&self, other: &Self) -> bool {
        &&& self.config == other.config
        &&& self.sequential == other.sequential
        &&& self.transform == other.transform
        &&& self.audit == other.audit
        &&& self.concurrent == other.concurrent
        &&& self.fire_and_forget == other.fire_and_forget
    }
}

/// Whether accepting `o` keeps the labels monotonic, when the plugin
/// could see them.
pub open spec fn labels_ok(e: Extensions, o: OwnedExtensions, caps: Seq<Seq<char>>) -> bool {
    (caps.contains("read_labels"@) && e.security is Some && o.security is Some)
        ==> superset_spec(o.security.unwrap().labels@, e.security.unwrap().labels@)
}

/// The extensions with a workspace merged in.
pub open spec fn merged(e: Extensions, o: OwnedExtensions) -> Extensions {
    Extensions {
        http: match guarded_http(o.http) {
            Some(h) => Some(std::sync::Arc::new(h)),
            None => None,
        },
        security: match o.security {
            Some(x) => Some(std::sync::Arc::new(x)),
            None => None,
        },
        delegation: match o.delegation {
            Some(x) => Some(std::sync::Arc::new(x)),
            None => None,
        },
        custom: match o.custom {
            Some(x) => Some(std::sync::Arc::new(x)),
            None => None,
        },
        ..e
    }
}

/// How extensions may change when a modifying plugin returns a
/// workspace: either it is rejected and nothing changes, or it is
/// accepted, merged in, and the extensions count as modified. A
/// workspace that drops a label the plugin could see, or that adds or
/// removes an immutable slot, is rejected; an accepted one holds the
/// same immutable values. With no immutable slot on either side, a
/// workspace that keeps the visible labels is accepted. (Otherwise
/// acceptance asks that each immutable slot still be the very shared
/// value, an identity of allocations.)
pub open spec fn extension_update(before: Extensions, after: Extensions, was_modified: bool, now_modified: bool,
    o: OwnedExtensions, caps: Seq<Seq<char>>) -> bool
{
    let rejected = after == before && now_modified == was_modified;
    let accepted = after == merged(before, o) && now_modified;
    &&& rejected || (accepted && same_immutable(before, o) && labels_ok(before, o, caps))
    &&& (!labels_ok(before, o, caps) || immutable_presence_differs(before, o)) ==> rejected
    &&& (immutable_all_absent(before, o) && labels_ok(before, o, caps)) ==> accepted
}

/// The filtered view with write tokens for the write capabilities the
/// plugin declared.
pub open spec fn serial_view(f: Extensions, e: Extensions, caps: Seq<Seq<char>>) -> bool {
    &&& is_filtered_view(Extensions { http_write_token: None, labels_write_token: None,
        delegation_write_token: None, ..f }, e, caps)
    &&& (f.http_write_token is Some <==> caps.contains("write_headers"@))
    &&& (f.labels_write_token is Some <==> caps.contains("append_labels"@))
    &&& (f.delegation_write_token is Some <==> caps.contains("append_delegation"@))
}

impl Executor {
    /// Start a pipeline for the given entries (already in priority
    /// order), payload and extensions, threading `context_table` from a
    /// previous invocation (a fresh one if `None`).
    pub fn start<P>(&self, entries: &Vec<HookEntry>, payload: P, extensions: Extensions,
        context_table: Option<PluginContextTable>) -> (r: PipelineRun<P>)
        ensures
            r.config == self.config,
            entry_views(r.sequential@) == of_mode(entry_views(entries@), PluginMode::Sequential),
            entry_views(r.transform@) == of_mode(entry_views(entries@), PluginMode::Transform),
            entry_views(r.audit@) == of_mode(entry_views(entries@), PluginMode::Audit),
            entry_views(r.concurrent@) == of_mode(entry_views(entries@), PluginMode::Concurrent),
            entry_views(r.fire_and_forget@) == of_mode(entry_views(entries@), PluginMode::FireAndForget),
            r.phase == Phase::Sequential,
            r.cursor == 0,
            !r.dispatched,
            r.payload == payload,
            r.extensions == extensions,
            !r.extensions_modified,
            match context_table {
                Some(t) => r.table == t,
                None => r.table.global_state@.len() == 0 && r.table.locals().len() == 0,
            },
            r.errors@.len() == 0,
            r.disabled@.len() == 0,
            r.denials@.len() == 0,
            r.halted is None,
            r.background@.len() == 0,
            coherent(r),
    {
        let (sequential, transform, audit, concurrent, fire_and_forget) = group_by_mode(entries);
        let table = match context_table {
            Some(t) => t,
            None => PluginContextTable::new(),
        };
        PipelineRun {
            config: self.config,
            sequential,
            transform,
            audit,
            concurrent,
            fire_and_forget,
            phase: Phase::Sequential,
            cursor: 0,
            dispatched: false,
            payload,
            extensions,
            extensions_modified: false,
            table,
            errors: Vec::new(),
            disabled: Vec::new(),
            denials: Vec::new(),
            halted: None,
            background: Vec::new(),
        }
    }
}

fn read_only_view(extensions: &Extensions, entry: &HookEntry) -> (f: Extensions)
    ensures
        is_filtered_view(f, *extensions, strs_view(entry.capabilities@)),
{
    filter_extensions(extensions, &entry.capabilities)
}

fn writable_view(extensions: &Extensions, entry: &HookEntry) -> (f: Extensions)
    ensures
        serial_view(f, *extensions, strs_view(entry.capabilities@)),
{
    let mut f = filter_extensions(extensions, &entry.capabilities);
    let ghost base = f;
    if strings_contain(&entry.capabilities, "write_headers") {
        f.http_write_token = Some(WriteToken::new());
    }
    if strings_contain(&entry.capabilities, "append_labels") {
        f.labels_write_token = Some(WriteToken::new());
    }
    if strings_contain(&entry.capabilities, "append_delegation") {
        f.delegation_write_token = Some(WriteToken::new());
    }
    assert(Extensions { http_write_token: None, labels_write_token: None, delegation_write_token: None, ..f }
        == base);
    f
}

/// What storing a plugin's context does to the table.
pub open spec fn stored(before: PluginContextTable, after: PluginContextTable, id: u128, ctx: PluginContext) -> bool {
    &&& after.global_state == ctx.global_state
    &&& after.locals() == crate::assoc::assoc_without(before.locals(), id).push((id, ctx.local_state@))
}

/// Whether violation `w` is attributed to one of the plugins in `g`.
pub open spec fn names_one_of(w: PluginViolation, g: Seq<HookEntry>) -> bool {
    exists|j: int| 0 <= j < g.len() && (w.plugin_name matches Some(n) && n@ == (#[trigger] g[j]).plugin_name@)
}

/// A coherent run: a violation that halted it is attributed to one of its
/// sequential or concurrent plugins, and each collected denial to one of
/// its concurrent plugins; plugins are spawned in the background only by a
/// run that has not halted, once its blocking phases are over.
pub open spec fn coherent<P>(r: PipelineRun<P>) -> bool {
    &&& r.halted matches Some(w) ==> names_one_of(w, r.sequential@) || names_one_of(w, r.concurrent@)
    &&& forall|i: int| 0 <= i < r.denials@.len() ==> names_one_of(#[trigger] r.denials@[i], r.concurrent@)
    &&& r.background@.len() > 0 ==> r.halted is None && phase_rank(r.phase) >= phase_rank(Phase::FireAndForget)
}

/// The state after the pipeline halts with a violation satisfying `ok`:
/// nothing else changes.
pub open spec fn halted_with<P>(before: PipelineRun<P>, after: PipelineRun<P>, w: PluginViolation) -> bool {
    &&& after.phase == Phase::Done
    &&& after.halted == Some(w)
    &&& after.payload == before.payload
    &&& after.extensions == before.extensions
    &&& after.extensions_modified == before.extensions_modified
    &&& after.table == before.table
    &&& after.errors == before.errors
    &&& after.disabled == before.disabled
    &&& after.denials == before.denials
    &&& after.background == before.background
    &&& after.same_groups(&before)
}

/// The state after a plugin of a serial or audit phase is done without
/// halting: the next plugin is due.
pub open spec fn moved_on<P>(before: PipelineRun<P>, after: PipelineRun<P>) -> bool {
    &&& after.phase == before.phase
    &&& after.cursor == before.cursor + 1
    &&& after.dispatched == before.dispatched
    &&& after.halted is None
    &&& after.denials == before.denials
    &&& after.background == before.background
    &&& after.same_groups(&before)
}

/// How a failure is recorded: the error's record is appended, and the
/// plugin is marked for disabling when its policy says so.
pub open spec fn recorded<P>(before: PipelineRun<P>, after: PipelineRun<P>, rec: RecordView, e: EntryView) -> bool {
    &&& records_view(after.errors@) == records_view(before.errors@).push(rec)
    &&& strs_view(after.disabled@) == if e.on_error == OnError::Disable {
        strs_view(before.disabled@).push(e.name)
    } else {
        strs_view(before.disabled@)
    }
}

/// What a serial-phase plugin's outcome does. A deny carrying a
/// violation halts a sequential pipeline, attributed to the plugin; in
/// the transform phase it is ignored. A returned payload replaces the
/// current one; returned extensions are merged if valid (see
/// `extension_update`). An error or timeout halts a sequential pipeline
/// when the plugin's policy is `fail`; otherwise it is recorded (and the
/// plugin marked for disabling under `disable`). Unless the pipeline
/// halts, the plugin's context is stored back.
pub open spec fn serial_spec<P>(before: PipelineRun<P>, after: PipelineRun<P>, outcome: InvokeOutcome<P>,
    ctx: PluginContext) -> bool
{
    let e = entry_view(before.current());
    let block = before.phase == Phase::Sequential;
    let ms = timeout_ms_of(before.config.timeout_seconds);
    let carry_on = moved_on(before, after) && stored(before.table, after.table, e.id, ctx);
    match outcome {
        InvokeOutcome::Returned(ErasedResult::Fields(f)) =>
            if !f.continue_processing && block && f.violation is Some {
                after.halted matches Some(w) && attributed(w, f.violation.unwrap(), e.name)
                    && halted_with(before, after, w)
            } else {
                &&& carry_on
                &&& after.errors == before.errors
                &&& after.disabled == before.disabled
                &&& after.payload == match f.modified_payload { Some(p) => p, None => before.payload }
                &&& match f.modified_extensions {
                    None => after.extensions == before.extensions
                        && after.extensions_modified == before.extensions_modified,
                    Some(o) => extension_update(before.extensions, after.extensions, before.extensions_modified,
                        after.extensions_modified, o, e.capabilities),
                }
            },
        InvokeOutcome::Returned(ErasedResult::Unexpected) => {
            &&& carry_on
            &&& after.errors == before.errors
            &&& after.disabled == before.disabled
            &&& after.payload == before.payload
            &&& after.extensions == before.extensions
            &&& after.extensions_modified == before.extensions_modified
        },
        InvokeOutcome::Failed(err) =>
            if block && e.on_error == OnError::Fail {
                after.halted matches Some(w) && framework_violation(w, "plugin_error"@, failed_reason(e.name, err), e.name)
                    && halted_with(before, after, w)
            } else {
                &&& carry_on
                &&& recorded(before, after, record_of(err), e)
                &&& after.payload == before.payload
                &&& after.extensions == before.extensions
                &&& after.extensions_modified == before.extensions_modified
            },
        InvokeOutcome::TimedOut =>
            if block && e.on_error == OnError::Fail {
                after.halted matches Some(w) && framework_violation(w, "plugin_timeout"@, timed_out_reason(e.name), e.name)
                    && halted_with(before, after, w)
            } else {
                &&& carry_on
                &&& recorded(before, after, timeout_record(e.name, ms), e)
                &&& after.payload == before.payload
                &&& after.extensions == before.extensions
                &&& after.extensions_modified == before.extensions_modified
            },
        InvokeOutcome::Panicked(_) => false,
    }
}

/// What an audit plugin's outcome does: nothing but recording a failure
/// (and marking the plugin for disabling under `disable`). Audit plugins
/// cannot halt or modify, and their context is not stored.
pub open spec fn audit_spec<P>(before: PipelineRun<P>, after: PipelineRun<P>, outcome: InvokeOutcome<P>) -> bool {
    let e = entry_view(before.current());
    let ms = timeout_ms_of(before.config.timeout_seconds);
    &&& moved_on(before, after)
    &&& after.payload == before.payload
    &&& after.extensions == before.extensions
    &&& after.extensions_modified == before.extensions_modified
    &&& after.table == before.table
    &&& match outcome {
        InvokeOutcome::Returned(_) => after.errors == before.errors && after.disabled == before.disabled,
        InvokeOutcome::Failed(err) => recorded(before, after, record_of(err), e),
        InvokeOutcome::TimedOut => recorded(before, after, timeout_record(e.name, ms), e),
        InvokeOutcome::Panicked(_) => false,
    }
}

/// What a concurrent plugin's outcome does. A deny (with the plugin's
/// violation, or a framework one if it gave none) halts when
/// short-circuiting and is collected otherwise. A failure, timeout or
/// panic halts under `fail` and is recorded otherwise. Concurrent
/// plugins never modify, and their context is not stored.
pub open spec fn concurrent_spec<P>(before: PipelineRun<P>, after: PipelineRun<P>, index: int,
    outcome: InvokeOutcome<P>, halt: bool) -> bool
{
    let e = entry_view(before.concurrent@[index]);
    let ms = timeout_ms_of(before.config.timeout_seconds);
    let quiet = after.phase == before.phase && after.cursor == before.cursor && after.dispatched == before.dispatched
        && after.halted is None && after.payload == before.payload && after.extensions == before.extensions
        && after.extensions_modified == before.extensions_modified && after.table == before.table && after.background == before.background && after.same_groups(&before) && !halt;
    match outcome {
        InvokeOutcome::Returned(ErasedResult::Fields(f)) =>
            if f.continue_processing {
                quiet && after.errors == before.errors && after.disabled == before.disabled && after.denials == before.denials
            } else {
                let ok = |w: PluginViolation| match f.violation {
                    Some(v) => attributed(w, v, e.name),
                    None => framework_violation(w, "concurrent_deny"@, denied_reason(e.name), e.name),
                };
                if before.config.short_circuit_on_deny {
                    halt && (after.halted matches Some(w) && ok(w) && halted_with(before, after, w))
                } else {
                    &&& quiet
                    &&& after.errors == before.errors
                    &&& after.disabled == before.disabled
                    &&& after.denials@.len() == before.denials@.len() + 1
                    &&& after.denials@.drop_last() == before.denials@
                    &&& ok(after.denials@.last())
                }
            },
        InvokeOutcome::Returned(ErasedResult::Unexpected) =>
            quiet && after.errors == before.errors && after.disabled == before.disabled && after.denials == before.denials,
        InvokeOutcome::Failed(err) =>
            if e.on_error == OnError::Fail {
                halt && (after.halted matches Some(w)
                    && framework_violation(w, "plugin_error"@, failed_reason(e.name, err), e.name)
                    && halted_with(before, after, w))
            } else {
                quiet && after.denials == before.denials && recorded(before, after, record_of(err), e)
            },
        InvokeOutcome::TimedOut =>
            if e.on_error == OnError::Fail {
                halt && (after.halted matches Some(w)
                    && framework_violation(w, "plugin_timeout"@, timed_out_reason(e.name), e.name)
                    && halted_with(before, after, w))
            } else {
                quiet && after.denials == before.denials && recorded(before, after, timeout_record(e.name, ms), e)
            },
        InvokeOutcome::Panicked(msg) =>
            if e.on_error == OnError::Fail {
                halt && (after.halted matches Some(w)
                    && framework_violation(w, "plugin_panic"@, panicked_reason(e.name, msg@), e.name)
                    && halted_with(before, after, w))
            } else {
                quiet && after.denials == before.denials && recorded(before, after, panic_record(e.name, msg@), e)
            },
    }
}

impl<P> PipelineRun<P> {
    fn halt(&mut self, v: PluginViolation)
        ensures
            halted_with(*old(self), *final(self), v),
    {
        self.halted = Some(v);
        self.phase = Phase::Done;
    }

    fn record(&mut self, err: &PluginError, on_error: OnError, name: &str)
        ensures
            records_view(final(self).errors@) == records_view(old(self).errors@).push(record_of(*err)),
            strs_view(final(self).disabled@) == if on_error == OnError::Disable {
                strs_view(old(self).disabled@).push(name@)
            } else {
                strs_view(old(self).disabled@)
            },
            final(self).phase == old(self).phase,
            final(self).cursor == old(self).cursor,
            final(self).dispatched == old(self).dispatched,
            final(self).halted == old(self).halted,
            final(self).payload == old(self).payload,
            final(self).extensions == old(self).extensions,
            final(self).extensions_modified == old(self).extensions_modified,
            final(self).table == old(self).table,
            final(self).denials == old(self).denials,
            final(self).background == old(self).background,
            final(self).same_groups(&*old(self)),
    {
        let ghost before = self.errors@;
        self.errors.push(PluginErrorRecord::from(err));
        assert(records_view(self.errors@) == records_view(before).push(record_of(*err)));
        if on_error == OnError::Disable {
            let ghost d = self.disabled@;
            self.disabled.push(String::from_str(name));
            assert(strs_view(self.disabled@) == strs_view(d).push(name@));
        }
    }

    /// Merge a workspace returned by the current serial plugin, unless it
    /// tampers with an immutable slot or drops a label the plugin could
    /// see.
    fn accept_extensions(&mut self, owned: OwnedExtensions, capabilities: &Vec<String>)
        ensures
            extension_update(old(self).extensions, final(self).extensions, old(self).extensions_modified,
                final(self).extensions_modified, owned, strs_view(capabilities@)),
            final(self).phase == old(self).phase,
            final(self).cursor == old(self).cursor,
            final(self).dispatched == old(self).dispatched,
            final(self).halted == old(self).halted,
            final(self).payload == old(self).payload,
            final(self).table == old(self).table,
            final(self).errors == old(self).errors,
            final(self).disabled == old(self).disabled,
            final(self).denials == old(self).denials,
            final(self).background == old(self).background,
            final(self).same_groups(&*old(self)),
    {
        let ghost before = self.extensions;
        let ghost o = owned;
        if !self.extensions.validate_immutable(&owned) {
            return;
        }
        let monotonic = if strings_contain(capabilities, "read_labels") {
            match (&self.extensions.security, &owned.security) {
                (Some(a), Some(b)) => b.labels.is_superset(&a.labels),
                _ => true,
            }
        } else {
            true
        };
        if monotonic {
            self.extensions.merge_owned(owned);
            self.extensions_modified = true;
            assert(self.extensions == merged(before, o));
        }
    }

    /// Take the outcome of the current sequential or transform plugin,
    /// with the context it ran with (see `serial_spec`).
    pub fn serial_result(&mut self, outcome: InvokeOutcome<P>, ctx: PluginContext)
        requires
            old(self).phase == Phase::Sequential || old(self).phase == Phase::Transform,
            old(self).cursor < old(self).group(old(self).phase).len(),
            old(self).halted is None,
            !(outcome is Panicked),
        ensures
            serial_spec(*old(self), *final(self), outcome, ctx),
            coherent(*old(self)) ==> coherent(*final(self)),
    {
        let ghost before = *self;
        let ghost o = outcome;
        let ghost c = ctx;
        self.apply_serial(outcome, ctx);
        proof {
            if coherent(before) {
                lemma_serial_keeps_coherent(before, *self, o, c);
            }
        }
    }

    fn apply_serial(&mut self, outcome: InvokeOutcome<P>, ctx: PluginContext)
        requires
            old(self).phase == Phase::Sequential || old(self).phase == Phase::Transform,
            old(self).cursor < old(self).group(old(self).phase).len(),
            old(self).halted is None,
            !(outcome is Panicked),
        ensures
            serial_spec(*old(self), *final(self), outcome, ctx),
    {
        let block = self.phase == Phase::Sequential;
        let n: usize = if block { self.sequential.len() } else { self.transform.len() };
        let entry = if self.phase == Phase::Sequential {
            self.sequential[self.cursor].duplicate()
        } else {
            self.transform[self.cursor].duplicate()
        };
        assert(entry_view(entry) == entry_view(old(self).current()));
        let ghost ctx0 = ctx;
        match outcome {
            InvokeOutcome::Returned(ErasedResult::Fields(f)) => {
                if !f.continue_processing && block && f.violation.is_some() {
                    let v = f.violation.unwrap();
                    let w = attribute(v, entry.plugin_name.as_str());
                    self.halt(w);
                    return;
                }
                match f.modified_payload {
                    Some(p) => {
                        self.payload = p;
                    },
                    None => {},
                }
                match f.modified_extensions {
                    Some(o) => {
                        self.accept_extensions(o, &entry.capabilities);
                    },
                    None => {},
                }
            },
            InvokeOutcome::Returned(ErasedResult::Unexpected) => {},
            InvokeOutcome::Failed(err) => {
                if block && entry.on_error == OnError::Fail {
                    let reason = reason_with(entry.plugin_name.as_str(), "' failed: ",
                        err.to_display_string().as_str());
                    let v = framework_deny("plugin_error", reason, entry.plugin_name.as_str());
                    self.halt(v);
                    return;
                }
                self.record(&err, entry.on_error, entry.plugin_name.as_str());
            },
            InvokeOutcome::TimedOut => {
                if block && entry.on_error == OnError::Fail {
                    let reason = reason_with(entry.plugin_name.as_str(), "' timed out", "");
                    proof {
                        assert(""@ == Seq::<char>::empty()) by {
                            reveal_strlit("");
                        }
                        assert(reason@ == timed_out_reason(entry.plugin_name@));
                    }
                    let v = framework_deny("plugin_timeout", reason, entry.plugin_name.as_str());
                    self.halt(v);
                    return;
                }
                let err = timeout_error(entry.plugin_name.as_str(), timeout_ms(self.config.timeout_seconds));
                self.record(&err, entry.on_error, entry.plugin_name.as_str());
            },
            InvokeOutcome::Panicked(_) => {},
        }
        self.table.store_context(entry.plugin_id, ctx);
        assert(self.cursor < n);
        self.cursor = self.cursor + 1;
    }
}

impl<P> PipelineRun<P> {
    /// Take the outcome of the current audit plugin (see `audit_spec`).
    pub fn audit_result(&mut self, outcome: InvokeOutcome<P>)
        requires
            old(self).phase == Phase::Audit,
            old(self).cursor < old(self).audit@.len(),
            old(self).halted is None,
            !(outcome is Panicked),
        ensures
            audit_spec(*old(self), *final(self), outcome),
            coherent(*old(self)) ==> coherent(*final(self)),
    {
        let ghost before = *self;
        let ghost o = outcome;
        self.apply_audit(outcome);
        proof {
            if coherent(before) {
                lemma_audit_keeps_coherent(before, *self, o);
            }
        }
    }

    fn apply_audit(&mut self, outcome: InvokeOutcome<P>)
        requires
            old(self).phase == Phase::Audit,
            old(self).cursor < old(self).audit@.len(),
            old(self).halted is None,
            !(outcome is Panicked),
        ensures
            audit_spec(*old(self), *final(self), outcome),
    {
        let n: usize = self.audit.len();
        let entry = self.audit[self.cursor].duplicate();
        assert(entry_view(entry) == entry_view(old(self).current()));
        match outcome {
            InvokeOutcome::Returned(_) => {},
            InvokeOutcome::Failed(err) => {
                self.record(&err, entry.on_error, entry.plugin_name.as_str());
            },
            InvokeOutcome::TimedOut => {
                let err = timeout_error(entry.plugin_name.as_str(), timeout_ms(self.config.timeout_seconds));
                self.record(&err, entry.on_error, entry.plugin_name.as_str());
            },
            InvokeOutcome::Panicked(_) => {},
        }
        assert(self.cursor < n);
        self.cursor = self.cursor + 1;
    }

    /// Take the outcome of concurrent plugin `index` (see
    /// `concurrent_spec`). Returns whether the pipeline halted, in which
    /// case the remaining plugins should be aborted.
    pub fn concurrent_result(&mut self, index: usize, outcome: InvokeOutcome<P>) -> (halt: bool)
        requires
            old(self).phase == Phase::Concurrent,
            index < old(self).concurrent@.len(),
            old(self).halted is None,
        ensures
            concurrent_spec(*old(self), *final(self), index as int, outcome, halt),
            coherent(*old(self)) ==> coherent(*final(self)),
    {
        let ghost before = *self;
        let ghost o = outcome;
        let halt = self.apply_concurrent(index, outcome);
        proof {
            if coherent(before) {
                lemma_concurrent_keeps_coherent(before, *self, index as int, o, halt);
            }
        }
        halt
    }

    fn apply_concurrent(&mut self, index: usize, outcome: InvokeOutcome<P>) -> (halt: bool)
        requires
            old(self).phase == Phase::Concurrent,
            index < old(self).concurrent@.len(),
            old(self).halted is None,
        ensures
            concurrent_spec(*old(self), *final(self), index as int, outcome, halt),
    {
        let entry = self.concurrent[index].duplicate();
        assert(entry_view(entry) == entry_view(old(self).concurrent@[index as int]));
        let name = entry.plugin_name.as_str();
        match outcome {
            InvokeOutcome::Returned(ErasedResult::Fields(f)) => {
                if f.continue_processing {
                    return false;
                }
                let v = match f.violation {
                    Some(v) => attribute(v, name),
                    None => {
                        let reason = reason_with(name, "' denied", "");
                        proof {
                            assert(""@ == Seq::<char>::empty()) by {
                                reveal_strlit("");
                            }
                            assert(reason@ == denied_reason(name@));
                        }
                        framework_deny("concurrent_deny", reason, name)
                    },
                };
                if self.config.short_circuit_on_deny {
                    self.halt(v);
                    return true;
                }
                let ghost d = self.denials@;
                self.denials.push(v);
                assert(self.denials@.drop_last() == d);
                false
            },
            InvokeOutcome::Returned(ErasedResult::Unexpected) => false,
            InvokeOutcome::Failed(err) => {
                if entry.on_error == OnError::Fail {
                    let reason = reason_with(name, "' failed: ", err.to_display_string().as_str());
                    self.halt(framework_deny("plugin_error", reason, name));
                    return true;
                }
                self.record(&err, entry.on_error, name);
                false
            },
            InvokeOutcome::TimedOut => {
                if entry.on_error == OnError::Fail {
                    let reason = reason_with(name, "' timed out", "");
                    proof {
                        assert(""@ == Seq::<char>::empty()) by {
                            reveal_strlit("");
                        }
                        assert(reason@ == timed_out_reason(name@));
                    }
                    self.halt(framework_deny("plugin_timeout", reason, name));
                    return true;
                }
                let err = timeout_error(name, timeout_ms(self.config.timeout_seconds));
                self.record(&err, entry.on_error, name);
                false
            },
            InvokeOutcome::Panicked(msg) => {
                if entry.on_error == OnError::Fail {
                    let reason = reason_with(name, "' task panicked: ", msg.as_str());
                    self.halt(framework_deny("plugin_panic", reason, name));
                    return true;
                }
                let err = panic_error(name, msg.as_str());
                self.record(&err, entry.on_error, name);
                false
            },
        }
    }
}

/// Whether a dispatch is for entry `e`.
pub open spec fn dispatch_for(d: Dispatch, e: HookEntry, config: ExecutorConfig) -> bool {
    &&& d.plugin_name@ == e.plugin_name@
    &&& d.plugin_id == e.plugin_id
    &&& d.timeout_seconds == config.timeout_seconds
}

/// Whether dispatches cover a read-only phase: one per entry, in order,
/// each with the entry's filtered view and a snapshot of its context.
pub open spec fn read_only_dispatches(ds: Seq<Dispatch>, es: Seq<HookEntry>, e: Extensions,
    t: PluginContextTable, config: ExecutorConfig) -> bool
{
    &&& ds.len() == es.len()
    &&& forall|i: int| 0 <= i < ds.len() ==> {
        let d = #[trigger] ds[i];
        &&& d.index == i
        &&& dispatch_for(d, es[i], config)
        &&& is_filtered_view(d.extensions, e, strs_view(es[i].capabilities@))
        &&& d.context.local_state@ == local_or_empty(t.locals(), es[i].plugin_id)
        &&& d.context.global_state@ == t.global_state@
    }
}

impl<P> PipelineRun<P> {
    fn dispatch_read_only(&self, entry: &HookEntry, index: usize) -> (d: Dispatch)
        ensures
            d.index == index,
            dispatch_for(d, *entry, self.config),
            is_filtered_view(d.extensions, self.extensions, strs_view(entry.capabilities@)),
            d.context.local_state@ == local_or_empty(self.table.locals(), entry.plugin_id),
            d.context.global_state@ == self.table.global_state@,
    {
        Dispatch {
            index,
            plugin_name: entry.plugin_name.clone(),
            plugin_id: entry.plugin_id,
            extensions: read_only_view(&self.extensions, entry),
            context: self.table.snapshot_context(entry.plugin_id),
            timeout_seconds: self.config.timeout_seconds,
        }
    }

    fn dispatch_all(&self, entries: &Vec<HookEntry>) -> (ds: Vec<Dispatch>)
        ensures
            read_only_dispatches(ds@, entries@, self.extensions, self.table, self.config),
    {
        let mut ds: Vec<Dispatch> = Vec::new();
        let mut i: usize = 0;
        while i < entries.len()
            invariant
                i <= entries.len(),
                ds@.len() == i,
                forall|j: int| 0 <= j < i ==> {
                    let d = #[trigger] ds@[j];
                    &&& d.index == j
                    &&& dispatch_for(d, entries@[j], self.config)
                    &&& is_filtered_view(d.extensions, self.extensions, strs_view(entries@[j].capabilities@))
                    &&& d.context.local_state@ == local_or_empty(self.table.locals(), entries@[j].plugin_id)
                    &&& d.context.global_state@ == self.table.global_state@
                },
            decreases entries.len() - i,
        {
            let d = self.dispatch_read_only(&entries[i], i);
            ds.push(d);
            i += 1;
        }
        ds
    }
}

/// What a pipeline that has not halted must do next.
pub enum Due {
    /// Dispatch plugin `index` of a sequential or transform phase.
    Serial(Phase, int),
    /// Dispatch audit plugin `index`.
    Audit(int),
    /// Dispatch every concurrent plugin.
    Concurrent,
    /// Halt with the first collected concurrent deny.
    Halt,
    /// Spawn every fire-and-forget plugin.
    Background,
    /// Nothing is left to run.
    Finish,
}

/// The next thing due from a position in the pipeline: the plugin at the
/// cursor of a serial or audit phase, else the first later phase with
/// plugins; a concurrent or fire-and-forget group is dispatched once;
/// collected concurrent denies halt before fire-and-forget.
pub open spec fn due_from(phase: Phase, cursor: int, dispatched: bool, n_seq: int, n_tr: int, n_au: int,
    n_co: int, n_ff: int, n_denials: int) -> Due
    decreases 5 - phase_rank(phase),
{
    match phase {
        Phase::Sequential => if cursor < n_seq {
            Due::Serial(Phase::Sequential, cursor)
        } else {
            due_from(Phase::Transform, 0, false, n_seq, n_tr, n_au, n_co, n_ff, n_denials)
        },
        Phase::Transform => if cursor < n_tr {
            Due::Serial(Phase::Transform, cursor)
        } else {
            due_from(Phase::Audit, 0, false, n_seq, n_tr, n_au, n_co, n_ff, n_denials)
        },
        Phase::Audit => if cursor < n_au {
            Due::Audit(cursor)
        } else {
            due_from(Phase::Concurrent, 0, false, n_seq, n_tr, n_au, n_co, n_ff, n_denials)
        },
        Phase::Concurrent => if !dispatched && n_co > 0 {
            Due::Concurrent
        } else if n_denials > 0 {
            Due::Halt
        } else {
            due_from(Phase::FireAndForget, 0, false, n_seq, n_tr, n_au, n_co, n_ff, n_denials)
        },
        Phase::FireAndForget => if !dispatched && n_ff > 0 { Due::Background } else { Due::Finish },
        Phase::Done => Due::Finish,
    }
}

/// What is due next in a run.
pub open spec fn due<P>(r: PipelineRun<P>) -> Due {
    due_from(r.phase, r.cursor as int, r.dispatched, r.sequential@.len() as int, r.transform@.len() as int,
        r.audit@.len() as int, r.concurrent@.len() as int, r.fire_and_forget@.len() as int, r.denials@.len() as int)
}

/// Whether step `s`, leaving the run in state `after`, is what was due.
pub open spec fn step_is_due<P>(s: Step, d: Due, after: PipelineRun<P>) -> bool {
    match d {
        Due::Serial(p, i) => s is Serial && after.phase == p && after.cursor == i,
        Due::Audit(i) => s is Audit && after.phase == Phase::Audit && after.cursor == i,
        Due::Concurrent => s is Concurrent && after.dispatched,
        Due::Halt => s is Finished && after.halted is Some,
        Due::Background => s is Background && after.dispatched,
        Due::Finish => s is Finished && after.halted is None,
    }
}

impl<P> PipelineRun<P> {
    /// Say what to do next, advancing through the phases in order:
    /// sequential, transform, audit, concurrent, fire-and-forget. A
    /// serial dispatch takes the plugin's context out of the table; the
    /// others snapshot it. Once the concurrent plugins have all reported,
    /// a collected deny halts the pipeline with the first one.
    pub fn next_step(&mut self) -> (s: Step)
        ensures
            final(self).same_groups(&*old(self)),
            phase_rank(final(self).phase) >= phase_rank(old(self).phase),
            final(self).payload == old(self).payload,
            final(self).extensions == old(self).extensions,
            final(self).extensions_modified == old(self).extensions_modified,
            final(self).errors == old(self).errors,
            final(self).disabled == old(self).disabled,
            old(self).halted is Some ==> final(self).halted == old(self).halted && s is Finished
                && final(self).denials == old(self).denials,
            old(self).halted is None ==> if final(self).halted is Some {
                &&& old(self).phase == Phase::Concurrent
                    || (phase_rank(old(self).phase) < phase_rank(Phase::Concurrent) && old(self).concurrent@.len() == 0)
                &&& old(self).denials@.len() > 0
                &&& final(self).halted == Some(old(self).denials@[0])
                &&& final(self).denials@ == old(self).denials@.drop_first()
                &&& s is Finished
            } else {
                final(self).denials == old(self).denials
            },
            match s {
                Step::Serial(d) => {
                    let e = final(self).current();
                    &&& final(self).phase == Phase::Sequential || final(self).phase == Phase::Transform
                    &&& final(self).halted is None
                    &&& final(self).cursor < final(self).group(final(self).phase).len()
                    &&& d.index == final(self).cursor
                    &&& dispatch_for(d, e, final(self).config)
                    &&& serial_view(d.extensions, final(self).extensions, strs_view(e.capabilities@))
                    &&& d.context.local_state@ == local_or_empty(old(self).table.locals(), e.plugin_id)
                    &&& d.context.global_state@ == old(self).table.global_state@
                    &&& final(self).table.locals() == crate::assoc::assoc_without(old(self).table.locals(), e.plugin_id)
                    &&& final(self).table.global_state == old(self).table.global_state
                },
                Step::Audit(d) => {
                    let e = final(self).current();
                    &&& final(self).phase == Phase::Audit
                    &&& final(self).halted is None
                    &&& final(self).cursor < final(self).audit@.len()
                    &&& d.index == final(self).cursor
                    &&& dispatch_for(d, e, final(self).config)
                    &&& is_filtered_view(d.extensions, final(self).extensions, strs_view(e.capabilities@))
                    &&& d.context.local_state@ == local_or_empty(old(self).table.locals(), e.plugin_id)
                    &&& d.context.global_state@ == old(self).table.global_state@
                    &&& final(self).table == old(self).table
                },
                Step::Concurrent(ds) => {
                    &&& final(self).phase == Phase::Concurrent
                    &&& final(self).halted is None
                    &&& read_only_dispatches(ds@, final(self).concurrent@, final(self).extensions,
                        final(self).table, final(self).config)
                    &&& final(self).table == old(self).table
                },
                Step::Background(ds) => {
                    &&& final(self).phase == Phase::FireAndForget
                    &&& final(self).halted is None
                    &&& read_only_dispatches(ds@, final(self).fire_and_forget@, final(self).extensions,
                        final(self).table, final(self).config)
                    &&& strs_view(final(self).background@) == final(self).fire_and_forget@.map_values(
                        |e: HookEntry| e.plugin_name@)
                    &&& final(self).table == old(self).table
                },
                Step::Finished => final(self).phase == Phase::Done,
            },
            old(self).halted is None ==> step_is_due(s, due(*old(self)), *final(self)),
            !(s is Background) ==> final(self).background == old(self).background,
            !(s is Serial) ==> final(self).table == old(self).table,
            coherent(*old(self)) ==> coherent(*final(self)),
    {
        if self.halted.is_some() {
            self.phase = Phase::Done;
            return Step::Finished;
        }
        loop
            invariant
                self.same_groups(&*old(self)),
                phase_rank(self.phase) >= phase_rank(old(self).phase),
                self.payload == old(self).payload,
                self.extensions == old(self).extensions,
                self.extensions_modified == old(self).extensions_modified,
                self.errors == old(self).errors,
                self.disabled == old(self).disabled,
                self.denials == old(self).denials,
                self.table == old(self).table,
                self.background == old(self).background,
                self.halted is None,
                old(self).halted is None,
                due(*self) == due(*old(self)),
                self.phase != old(self).phase ==> !self.dispatched,
                (self.phase == Phase::Transform || self.phase == Phase::Audit) && self.phase != old(self).phase
                    ==> self.cursor == 0,
                phase_rank(self.phase) > phase_rank(Phase::Concurrent) ==> (old(self).phase == Phase::Concurrent
                    || old(self).concurrent@.len() == 0 || phase_rank(old(self).phase) > phase_rank(Phase::Concurrent)),
                phase_rank(self.phase) > phase_rank(Phase::Concurrent) && phase_rank(old(self).phase) <= phase_rank(Phase::Concurrent)
                    ==> old(self).denials@.len() == 0,
            decreases 5 - phase_rank(self.phase),
        {
            match self.phase {
                Phase::Sequential => {
                    if self.cursor < self.sequential.len() {
                        let entry = self.sequential[self.cursor].duplicate();
                        let d = Dispatch {
                            index: self.cursor,
                            plugin_name: entry.plugin_name.clone(),
                            plugin_id: entry.plugin_id,
                            extensions: writable_view(&self.extensions, &entry),
                            context: self.table.take_context(entry.plugin_id),
                            timeout_seconds: self.config.timeout_seconds,
                        };
                        return Step::Serial(d);
                    }
                    self.phase = Phase::Transform;
                    self.cursor = 0;
                    self.dispatched = false;
                },
                Phase::Transform => {
                    if self.cursor < self.transform.len() {
                        let entry = self.transform[self.cursor].duplicate();
                        let d = Dispatch {
                            index: self.cursor,
                            plugin_name: entry.plugin_name.clone(),
                            plugin_id: entry.plugin_id,
                            extensions: writable_view(&self.extensions, &entry),
                            context: self.table.take_context(entry.plugin_id),
                            timeout_seconds: self.config.timeout_seconds,
                        };
                        return Step::Serial(d);
                    }
                    self.phase = Phase::Audit;
                    self.cursor = 0;
                    self.dispatched = false;
                },
                Phase::Audit => {
                    if self.cursor < self.audit.len() {
                        let entry = self.audit[self.cursor].duplicate();
                        let d = self.dispatch_read_only(&entry, self.cursor);
                        return Step::Audit(d);
                    }
                    self.phase = Phase::Concurrent;
                    self.cursor = 0;
                    self.dispatched = false;
                },
                Phase::Concurrent => {
                    if !self.dispatched && self.concurrent.len() > 0 {
                        self.dispatched = true;
                        let ds = self.dispatch_all(&self.concurrent);
                        return Step::Concurrent(ds);
                    }
                    if self.denials.len() > 0 {
                        let first = self.denials.remove(0);
                        self.halted = Some(first);
                        self.phase = Phase::Done;
                        return Step::Finished;
                    }
                    self.phase = Phase::FireAndForget;
                    self.cursor = 0;
                    self.dispatched = false;
                },
                Phase::FireAndForget => {
                    if !self.dispatched && self.fire_and_forget.len() > 0 {
                        self.dispatched = true;
                        let ds = self.dispatch_all(&self.fire_and_forget);
                        let mut names: Vec<String> = Vec::new();
                        let mut i: usize = 0;
                        while i < self.fire_and_forget.len()
                            invariant
                                i <= self.fire_and_forget.len(),
                                strs_view(names@) == self.fire_and_forget@.take(i as int).map_values(
                                    |e: HookEntry| e.plugin_name@),
                            decreases self.fire_and_forget.len() - i,
                        {
                            let ghost before = names@;
                            names.push(self.fire_and_forget[i].plugin_name.clone());
                            assert(self.fire_and_forget@.take(i + 1) == self.fire_and_forget@.take(i as int).push(
                                self.fire_and_forget@[i as int]));
                            assert(strs_view(names@) == strs_view(before).push(self.fire_and_forget@[i as int].plugin_name@));
                            i += 1;
                        }
                        assert(self.fire_and_forget@.take(self.fire_and_forget@.len() as int) == self.fire_and_forget@);
                        self.background = names;
                        return Step::Background(ds);
                    }
                    self.phase = Phase::Done;
                    self.dispatched = false;
                },
                Phase::Done => {
                    return Step::Finished;
                },
            }
        }
    }

    /// The result of the run: denied with the violation that halted it,
    /// or allowed with the final payload; either way with the context
    /// table and recorded errors, and with the final extensions if a
    /// plugin's returned extensions were accepted (none otherwise).
    pub fn finish(self) -> (r: FinishedRun<P>)
        ensures
            r.result.continue_processing == (self.halted is None),
            r.result.violation == self.halted,
            r.result.modified_payload == if self.halted is None { Some(self.payload) } else { None },
            r.result.modified_extensions == if self.extensions_modified { Some(self.extensions) } else { None },
            r.result.errors == self.errors,
            r.result.metadata is None,
            r.result.context_table == self.table,
            r.background == self.background,
            r.disabled == self.disabled,
            coherent(self) && r.result.violation is Some ==> r.background@.len() == 0
                && (names_one_of(r.result.violation.unwrap(), self.sequential@)
                    || names_one_of(r.result.violation.unwrap(), self.concurrent@)),
    {
        let modified = self.extensions_modified;
        let result = match self.halted {
            Some(v) => PipelineResult::denied(v, self.extensions, self.table).with_errors(self.errors),
            None => PipelineResult::allowed_with(self.payload, self.extensions, self.table).with_errors(self.errors),
        };
        let result = if modified { result } else { PipelineResult { modified_extensions: None, ..result } };
        FinishedRun { result, background: self.background, disabled: self.disabled }
    }
}

// ---------------------------------------------------------------------------
// Laws of the pipeline
// ---------------------------------------------------------------------------

/// Handling a serial plugin's outcome keeps a run coherent: a halt is
/// attributed to that (sequential) plugin, and nothing is spawned.
pub proof fn lemma_serial_keeps_coherent<P>(before: PipelineRun<P>, after: PipelineRun<P>,
    outcome: InvokeOutcome<P>, ctx: PluginContext)
    requires
        before.phase == Phase::Sequential || before.phase == Phase::Transform,
        before.cursor < before.group(before.phase).len(),
        coherent(before),
        serial_spec(before, after, outcome, ctx),
    ensures
        coherent(after),
{
    if after.halted is Some && before.halted is None {
        let j = before.cursor as int;
        assert(before.phase == Phase::Sequential);
        assert(before.sequential@[j] == before.current());
        assert(names_one_of(after.halted->0, after.sequential@));
    }
}

/// Handling an audit plugin's outcome keeps a run coherent.
pub proof fn lemma_audit_keeps_coherent<P>(before: PipelineRun<P>, after: PipelineRun<P>,
    outcome: InvokeOutcome<P>)
    requires
        coherent(before),
        audit_spec(before, after, outcome),
    ensures
        coherent(after),
{
}

/// Handling a concurrent plugin's outcome keeps a run coherent: a halt,
/// or a collected denial, is attributed to that plugin.
pub proof fn lemma_concurrent_keeps_coherent<P>(before: PipelineRun<P>, after: PipelineRun<P>, index: int,
    outcome: InvokeOutcome<P>, halt: bool)
    requires
        before.phase == Phase::Concurrent,
        0 <= index < before.concurrent@.len(),
        before.halted is None,
        coherent(before),
        concurrent_spec(before, after, index, outcome, halt),
    ensures
        coherent(after),
{
    assert(before.concurrent@[index] == after.concurrent@[index]);
    if after.halted is Some {
        assert(names_one_of(after.halted->0, after.concurrent@));
    }
    if after.denials@.len() > before.denials@.len() {
        assert forall|i: int| 0 <= i < after.denials@.len() implies
            names_one_of(#[trigger] after.denials@[i], after.concurrent@) by {
            if i < before.denials@.len() {
                assert(after.denials@[i] == before.denials@[i]);
            }
        }
    }
}

/// Whether an outcome is an allow: the plugin returned and let the
/// request continue.
pub open spec fn is_allow<P>(o: InvokeOutcome<P>) -> bool {
    o matches InvokeOutcome::Returned(ErasedResult::Fields(f)) && f.continue_processing
}

/// The states of a concurrent phase as its outcomes come in: each state
/// follows from the one before by handling the outcome of concurrent
/// plugin `indices[i]`, while the run has not halted.
pub open spec fn concurrent_steps<P>(states: Seq<PipelineRun<P>>, indices: Seq<int>,
    outcomes: Seq<InvokeOutcome<P>>, halts: Seq<bool>) -> bool
{
    &&& states.len() == outcomes.len() + 1
    &&& indices.len() == outcomes.len()
    &&& halts.len() == outcomes.len()
    &&& forall|i: int| 0 <= i < outcomes.len() ==> {
        &&& (#[trigger] states[i]).phase == Phase::Concurrent
        &&& states[i].halted is None
        &&& 0 <= indices[i] < states[i].concurrent@.len()
        &&& concurrent_spec(states[i], states[i + 1], indices[i], outcomes[i], halts[i])
    }
}

/// A whole concurrent phase: it has no outcome to handle when there are
/// no concurrent plugins; it never changes the payload, the extensions or
/// the context table; when every plugin allows, it halts nothing and
/// records nothing; a violation that halts it, and each denial it
/// collects, is attributed to one of the concurrent plugins; and it keeps
/// the run coherent.
pub proof fn lemma_concurrent_phase<P>(states: Seq<PipelineRun<P>>, indices: Seq<int>,
    outcomes: Seq<InvokeOutcome<P>>, halts: Seq<bool>)
    requires
        concurrent_steps(states, indices, outcomes, halts),
    ensures
        states[0].concurrent@.len() == 0 ==> outcomes.len() == 0,
        states.last().payload == states[0].payload,
        states.last().extensions == states[0].extensions,
        states.last().extensions_modified == states[0].extensions_modified,
        states.last().table == states[0].table,
        states.last().same_groups(&states[0]),
        (forall|i: int| 0 <= i < outcomes.len() ==> is_allow(#[trigger] outcomes[i])) ==> {
            &&& states.last().halted == states[0].halted
            &&& states.last().errors == states[0].errors
            &&& states.last().disabled == states[0].disabled
            &&& states.last().denials == states[0].denials
        },
        outcomes.len() > 0 && states.last().halted is Some
            ==> names_one_of(states.last().halted.unwrap(), states[0].concurrent@),
        forall|k: int| states[0].denials@.len() <= k < states.last().denials@.len()
            ==> names_one_of(#[trigger] states.last().denials@[k], states[0].concurrent@),
        states.last().denials@.len() >= states[0].denials@.len(),
        states.last().denials@.take(states[0].denials@.len() as int) == states[0].denials@,
        coherent(states[0]) ==> coherent(states.last()),
    decreases outcomes.len(),
{
    let n = outcomes.len();
    if n > 0 {
        let m = n - 1;
        let sp = states.take(n as int);
        let ip = indices.take(m as int);
        let op = outcomes.take(m as int);
        let hp = halts.take(m as int);
        assert forall|i: int| 0 <= i < op.len() implies {
            &&& (#[trigger] sp[i]).phase == Phase::Concurrent
            &&& sp[i].halted is None
            &&& 0 <= ip[i] < sp[i].concurrent@.len()
            &&& concurrent_spec(sp[i], sp[i + 1], ip[i], op[i], hp[i])
        } by {
            assert(sp[i] == states[i] && sp[i + 1] == states[i + 1]);
            assert(states[i].phase == Phase::Concurrent);
        }
        lemma_concurrent_phase(sp, ip, op, hp);
        let a = states[m as int];
        let b = states[n as int];
        assert(sp.last() == a);
        assert(sp[0] == states[0]);
        assert(a.phase == Phase::Concurrent);
        let idx = indices[m as int];
        assert(concurrent_spec(a, b, idx, outcomes[m as int], halts[m as int]));
        assert(a.concurrent@[idx] == states[0].concurrent@[idx]);
        if states[0].concurrent@.len() == 0 {
            assert(false);
        }
        if forall|i: int| 0 <= i < outcomes.len() ==> is_allow(#[trigger] outcomes[i]) {
            assert(is_allow(outcomes[m as int]));
            assert forall|i: int| 0 <= i < op.len() implies is_allow(#[trigger] op[i]) by {
                assert(op[i] == outcomes[i]);
                assert(is_allow(outcomes[i]));
            }
        }
        assert forall|k: int| states[0].denials@.len() <= k < b.denials@.len()
            implies names_one_of(#[trigger] b.denials@[k], states[0].concurrent@) by {
            if k < a.denials@.len() {
                assert(b.denials@[k] == a.denials@[k]);
            }
        }
        assert(b.denials@.take(states[0].denials@.len() as int) == states[0].denials@) by {
            assert(a.denials@.take(states[0].denials@.len() as int) == states[0].denials@);
            if b.denials != a.denials {
                assert(b.denials@.drop_last() == a.denials@);
            }
        }
        if coherent(states[0]) {
            lemma_concurrent_keeps_coherent(a, b, idx, outcomes[m as int], halts[m as int]);
        }
    }
}

/// A denied run spawns nothing in the background, and the violation that
/// halted it is attributed to one of its blocking plugins.
pub proof fn lemma_denied_run<P>(r: PipelineRun<P>)
    requires
        coherent(r),
        r.halted is Some,
    ensures
        r.background@.len() == 0,
        names_one_of(r.halted->0, r.sequential@) || names_one_of(r.halted->0, r.concurrent@),
{
}

/// Transform plugins cannot block: whatever a transform plugin returns,
/// fails with or times out on, the pipeline does not halt.
pub proof fn lemma_transform_never_halts<P>(before: PipelineRun<P>, after: PipelineRun<P>,
    outcome: InvokeOutcome<P>, ctx: PluginContext)
    requires
        before.phase == Phase::Transform,
        serial_spec(before, after, outcome, ctx),
    ensures
        after.halted is None,
        after.phase == Phase::Transform,
{
}

/// Audit plugins can neither block nor modify: the pipeline does not
/// halt, and payload, extensions and context table are untouched.
pub proof fn lemma_audit_is_read_only<P>(before: PipelineRun<P>, after: PipelineRun<P>, outcome: InvokeOutcome<P>)
    requires
        audit_spec(before, after, outcome),
    ensures
        after.halted is None,
        after.payload == before.payload,
        after.extensions == before.extensions,
        after.table == before.table,
{
}

/// Concurrent plugins never modify: payload, extensions and context
/// table are untouched whatever they return.
pub proof fn lemma_concurrent_is_read_only<P>(before: PipelineRun<P>, after: PipelineRun<P>, index: int,
    outcome: InvokeOutcome<P>, halt: bool)
    requires
        concurrent_spec(before, after, index, outcome, halt),
    ensures
        after.payload == before.payload,
        after.extensions == before.extensions,
        after.table == before.table,
        halt <==> after.halted is Some,
{
}

/// A sequential plugin's deny halts the pipeline with its violation,
/// attributed to it; nothing else changes.
pub proof fn lemma_sequential_deny_halts<P>(before: PipelineRun<P>, after: PipelineRun<P>,
    f: ErasedResultFields<P>, ctx: PluginContext)
    requires
        before.phase == Phase::Sequential,
        !f.continue_processing,
        f.violation is Some,
        serial_spec(before, after, InvokeOutcome::Returned(ErasedResult::Fields(f)), ctx),
    ensures
        after.phase == Phase::Done,
        after.halted matches Some(w) && attributed(w, f.violation.unwrap(), entry_view(before.current()).name),
        after.payload == before.payload,
        after.extensions == before.extensions,
{
}

/// A failing plugin whose policy is `fail` halts a blocking phase with a
/// `plugin_error` violation; under `ignore` the pipeline goes on and
/// records the error; under `disable` it also marks the plugin for
/// disabling.
pub proof fn lemma_error_policy<P>(before: PipelineRun<P>, after: PipelineRun<P>, err: PluginError,
    ctx: PluginContext)
    requires
        before.phase == Phase::Sequential,
        serial_spec(before, after, InvokeOutcome::Failed(err), ctx),
    ensures
        ({
            let e = entry_view(before.current());
            &&& e.on_error == OnError::Fail ==> (after.halted matches Some(w)
                && framework_violation(w, "plugin_error"@, failed_reason(e.name, err), e.name))
            &&& e.on_error != OnError::Fail ==> after.halted is None
                && records_view(after.errors@) == records_view(before.errors@).push(record_of(err))
            &&& e.on_error == OnError::Ignore ==> after.halted is None && strs_view(after.disabled@) == strs_view(before.disabled@)
            &&& e.on_error == OnError::Disable ==> after.halted is None
                && strs_view(after.disabled@) == strs_view(before.disabled@).push(e.name)
        }),
{
    let e = entry_view(before.current());
    if e.on_error != OnError::Fail {
        assert(moved_on(before, after));
        assert(recorded(before, after, record_of(err), e));
    }
}

/// Every step moves forward through the phases: no outcome sends the
/// pipeline back to an earlier phase.
pub proof fn lemma_phases_only_advance<P>(before: PipelineRun<P>, after: PipelineRun<P>,
    outcome: InvokeOutcome<P>, ctx: PluginContext, index: int, halt: bool)
    ensures
        serial_spec(before, after, outcome, ctx) ==> phase_rank(after.phase) >= phase_rank(before.phase),
        audit_spec(before, after, outcome) ==> phase_rank(after.phase) >= phase_rank(before.phase),
        concurrent_spec(before, after, index, outcome, halt) ==> phase_rank(after.phase) >= phase_rank(before.phase),
{
}

/// A serial plugin's writes to the context are what the next plugin
/// reads: after a plugin's context is stored, the next context taken
/// from the table starts from its global state.
pub proof fn lemma_global_state_flows(before: PluginContextTable, after: PluginContextTable, id: u128,
    ctx: PluginContext)
    requires
        stored(before, after, id, ctx),
    ensures
        after.global_state@ == ctx.global_state@,
        local_or_empty(after.locals(), id) == ctx.local_state@,
{
    crate::context::lemma_store_then_read(before.locals(), id, ctx.local_state@, id);
}

} // verus!
