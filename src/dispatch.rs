use vstd::prelude::*;
use crate::commands::{CommandView, HelperCommand};
use crate::executor::{EnvView, Environment};
use crate::text::{bool_of, i32_of, parse_bool, parse_i32, parse_usize, text_eq, usize_of};

verus! {

/// The commands whose behaviour the tool knows, told apart by canonical name.
#[derive(PartialEq, Eq, Structural, Clone, Copy, Debug)]
pub enum CommandKind {
    Help,
    Version,
    Xauth,
    Debug,
    Display,
    Gpu,
    Fan,
    MemoryOffset,
    ClockOffset,
    Clock,
    Memory,
    Power,
    Reset,
}

/// An operation carried out on a GPU by one of the two external utilities.
#[derive(PartialEq, Eq, Structural, Clone, Copy, Debug)]
pub enum GpuOp {
    SetMemoryOffset(i32),
    SetCoreOffset(i32),
    LockCore(usize),
    LockMemory(usize),
    SetPowerLimit(usize),
    SetFanSpeed { fan_index: usize, fan_speed: i32 },
    ResetFanSpeed,
    ResetCore,
    ResetMemory,
}

/// An external operation together with the GPU index and the environment
/// in force when it was issued.
pub struct Effect {
    pub op: GpuOp,
    pub gpu: usize,
    pub env: Environment,
}

/// One thing the run has to tell the user or carry out, in order.
pub enum Report {
    /// A token that names no command, dropped.
    Unrecognized(String),
    /// A command given a number of values it does not accept.
    ArityMismatch { name: String, count: usize },
    /// A value that does not read as the type the command expects.
    ParseFailure { command: CommandKind, token: String },
    /// A fan speed outside 0..=100 that is not the reset sentinel; the
    /// operation is still issued.
    FanOutOfRange(i32),
    /// Debug output was switched on.
    DebugEnabled,
    /// The selected GPU changed while debug output is on.
    GpuSelected(usize),
    Help,
    Version,
    External(Effect),
}

/// The mathematical content of a [`Report`].
pub enum ReportView {
    Unrecognized(Seq<char>),
    ArityMismatch { name: Seq<char>, count: usize },
    ParseFailure { command: CommandKind, token: Seq<char> },
    FanOutOfRange(i32),
    DebugEnabled,
    GpuSelected(usize),
    Help,
    Version,
    External { op: GpuOp, gpu: usize, env: EnvView },
}

impl DeepView for Report {
    type V = ReportView;

    open spec fn deep_view(&self) -> ReportView {
        match self {
            Report::Unrecognized(t) => ReportView::Unrecognized(t@),
            Report::ArityMismatch { name, count } => ReportView::ArityMismatch {
                name: name@,
                count: *count,
            },
            Report::ParseFailure { command, token } => ReportView::ParseFailure {
                command: *command,
                token: token@,
            },
            Report::FanOutOfRange(s) => ReportView::FanOutOfRange(*s),
            Report::DebugEnabled => ReportView::DebugEnabled,
            Report::GpuSelected(g) => ReportView::GpuSelected(*g),
            Report::Help => ReportView::Help,
            Report::Version => ReportView::Version,
            Report::External(e) => ReportView::External {
                op: e.op,
                gpu: e.gpu,
                env: e.env.deep_view(),
            },
        }
    }
}

/// The kind of command that a canonical name denotes.
pub open spec fn kind_of(name: Seq<char>) -> Option<CommandKind> {
    if name == "help"@ {
        Some(CommandKind::Help)
    } else if name == "version"@ {
        Some(CommandKind::Version)
    } else if name == "display"@ {
        Some(CommandKind::Display)
    } else if name == "xauth"@ {
        Some(CommandKind::Xauth)
    } else if name == "debug"@ {
        Some(CommandKind::Debug)
    } else if name == "gpu"@ {
        Some(CommandKind::Gpu)
    } else if name == "fan"@ {
        Some(CommandKind::Fan)
    } else if name == "memoryoffset"@ {
        Some(CommandKind::MemoryOffset)
    } else if name == "clockoffset"@ {
        Some(CommandKind::ClockOffset)
    } else if name == "clock"@ {
        Some(CommandKind::Clock)
    } else if name == "memory"@ {
        Some(CommandKind::Memory)
    } else if name == "power"@ {
        Some(CommandKind::Power)
    } else if name == "reset"@ {
        Some(CommandKind::Reset)
    } else {
        None
    }
}

/// Whether `n` values is among the counts in `args`.
pub open spec fn accepts(args: Seq<usize>, n: int) -> bool {
    exists|i: int| 0 <= i < args.len() && args[i] == n
}

/// The `k`-th value, or the empty token when there are fewer values.
pub open spec fn value_at(values: Seq<Seq<char>>, k: int) -> Seq<char> {
    if 0 <= k < values.len() {
        values[k]
    } else {
        Seq::empty()
    }
}

pub open spec fn external(op: GpuOp, env: EnvView, gpu: usize) -> ReportView {
    ReportView::External { op, gpu, env }
}

/// Fan index and speed given to `fan`, or the token that failed to read.
pub open spec fn fan_setting(values: Seq<Seq<char>>) -> Result<(usize, i32), Seq<char>> {
    let v0 = value_at(values, 0);
    let v1 = value_at(values, 1);
    if values.len() == 1 {
        match i32_of(v0) {
            Some(s) => Ok((0usize, s)),
            None => Err(v0),
        }
    } else if values.len() == 2 {
        match usize_of(v0) {
            None => Err(v0),
            Some(i) => match i32_of(v1) {
                Some(s) => Ok((i, s)),
                None => Err(v1),
            },
        }
    } else {
        Ok((0usize, 0i32))
    }
}

/// A fan speed that draws a warning: outside 0..=100 and not the sentinel -1.
pub open spec fn fan_out_of_range(s: i32) -> bool {
    (s < 0 || s > 100) && s != -1
}

/// The operation `fan` issues for a speed.
pub open spec fn fan_op(index: usize, s: i32) -> GpuOp {
    if s == -1 {
        GpuOp::ResetFanSpeed
    } else {
        GpuOp::SetFanSpeed { fan_index: index, fan_speed: s }
    }
}

pub open spec fn fan_reports(values: Seq<Seq<char>>, env: EnvView, gpu: usize) -> Seq<ReportView> {
    match fan_setting(values) {
        Err(t) => seq![ReportView::ParseFailure { command: CommandKind::Fan, token: t }],
        Ok((i, s)) => {
            let warn = if fan_out_of_range(s) {
                seq![ReportView::FanOutOfRange(s)]
            } else {
                Seq::empty()
            };
            warn.push(external(fan_op(i, s), env, gpu))
        },
    }
}

/// The five operations that `reset` issues, in order.
pub open spec fn reset_ops() -> Seq<GpuOp> {
    seq![
        GpuOp::ResetCore,
        GpuOp::ResetMemory,
        GpuOp::SetCoreOffset(0),
        GpuOp::SetMemoryOffset(0),
        GpuOp::ResetFanSpeed,
    ]
}

/// A report for an `i32` value: the operation it selects, or a parse failure.
pub open spec fn signed_reports(
    kind: CommandKind,
    v: Seq<char>,
    env: EnvView,
    gpu: usize,
) -> Seq<ReportView> {
    match i32_of(v) {
        None => seq![ReportView::ParseFailure { command: kind, token: v }],
        Some(n) => {
            let op = match kind {
                CommandKind::MemoryOffset => GpuOp::SetMemoryOffset(n),
                CommandKind::ClockOffset => GpuOp::SetCoreOffset(n),
                CommandKind::Clock => if n > 0 {
                    GpuOp::LockCore(n as usize)
                } else {
                    GpuOp::ResetCore
                },
                _ => if n >= 0 {
                    GpuOp::LockMemory(n as usize)
                } else {
                    GpuOp::ResetMemory
                },
            };
            seq![external(op, env, gpu)]
        },
    }
}

/// What dispatching `cmd` with `values` reports, and the environment and GPU
/// index it leaves.
pub open spec fn handle(cmd: CommandView, values: Seq<Seq<char>>, env: EnvView, gpu: usize) -> (
    Seq<ReportView>,
    EnvView,
    usize,
) {
    let v0 = value_at(values, 0);
    if !accepts(cmd.args, values.len() as int) {
        (
            seq![ReportView::ArityMismatch { name: cmd.name, count: values.len() as usize }],
            env,
            gpu,
        )
    } else {
        match kind_of(cmd.name) {
            None => (Seq::empty(), env, gpu),
            Some(CommandKind::Help) => (seq![ReportView::Help], env, gpu),
            Some(CommandKind::Version) => (seq![ReportView::Version], env, gpu),
            Some(CommandKind::Display) => (Seq::empty(), EnvView { display: v0, ..env }, gpu),
            Some(CommandKind::Xauth) => (Seq::empty(), EnvView { xauthority: v0, ..env }, gpu),
            Some(CommandKind::Debug) => match bool_of(v0) {
                Some(b) => (
                    if b {
                        seq![ReportView::DebugEnabled]
                    } else {
                        Seq::empty()
                    },
                    EnvView { debug: b, ..env },
                    gpu,
                ),
                None => (
                    seq![ReportView::ParseFailure { command: CommandKind::Debug, token: v0 }],
                    env,
                    gpu,
                ),
            },
            Some(CommandKind::Gpu) => match usize_of(v0) {
                Some(n) => (
                    if env.debug {
                        seq![ReportView::GpuSelected(n)]
                    } else {
                        Seq::empty()
                    },
                    env,
                    n,
                ),
                None => (
                    seq![ReportView::ParseFailure { command: CommandKind::Gpu, token: v0 }],
                    env,
                    gpu,
                ),
            },
            Some(CommandKind::Fan) => (fan_reports(values, env, gpu), env, gpu),
            Some(CommandKind::Power) => match usize_of(v0) {
                Some(n) => (seq![external(GpuOp::SetPowerLimit(n), env, gpu)], env, gpu),
                None => (
                    seq![ReportView::ParseFailure { command: CommandKind::Power, token: v0 }],
                    env,
                    gpu,
                ),
            },
            Some(CommandKind::Reset) => (
                reset_ops().map_values(|op: GpuOp| external(op, env, gpu)),
                env,
                gpu,
            ),
            Some(k) => (signed_reports(k, v0, env, gpu), env, gpu),
        }
    }
}

/// The kind of command that `name` denotes.
pub fn command_kind(name: &String) -> (r: Option<CommandKind>)
    ensures
        r == kind_of(name@),
{
    let s = name.as_str();
    if text_eq(s, "help") {
        Some(CommandKind::Help)
    } else if text_eq(s, "version") {
        Some(CommandKind::Version)
    } else if text_eq(s, "display") {
        Some(CommandKind::Display)
    } else if text_eq(s, "xauth") {
        Some(CommandKind::Xauth)
    } else if text_eq(s, "debug") {
        Some(CommandKind::Debug)
    } else if text_eq(s, "gpu") {
        Some(CommandKind::Gpu)
    } else if text_eq(s, "fan") {
        Some(CommandKind::Fan)
    } else if text_eq(s, "memoryoffset") {
        Some(CommandKind::MemoryOffset)
    } else if text_eq(s, "clockoffset") {
        Some(CommandKind::ClockOffset)
    } else if text_eq(s, "clock") {
        Some(CommandKind::Clock)
    } else if text_eq(s, "memory") {
        Some(CommandKind::Memory)
    } else if text_eq(s, "power") {
        Some(CommandKind::Power)
    } else if text_eq(s, "reset") {
        Some(CommandKind::Reset)
    } else {
        None
    }
}

fn accepts_count(args: &Vec<usize>, n: usize) -> (r: bool)
    ensures
        r == accepts(args@, n as int),
{
    let mut i: usize = 0;
    while i < args.len()
        invariant
            i <= args.len(),
            forall|j: int| 0 <= j < i ==> args@[j] != n,
        decreases args.len() - i,
    {
        if args[i] == n {
            return true;
        }
        i = i + 1;
    }
    false
}

fn one(r: Report) -> (v: Vec<Report>)
    ensures
        v.deep_view() == seq![r.deep_view()],
{
    let mut v: Vec<Report> = Vec::new();
    v.push(r);
    assert(v.deep_view() =~= seq![r.deep_view()]);
    v
}

fn issue(op: GpuOp, env: &Environment, gpu: usize) -> (r: Report)
    ensures
        r.deep_view() == external(op, env.deep_view(), gpu),
{
    Report::External(Effect { op, gpu, env: env.snapshot() })
}

fn parse_failure(command: CommandKind, token: &String) -> (r: Report)
    ensures
        r.deep_view() == (ReportView::ParseFailure { command, token: token@ }),
{
    Report::ParseFailure { command, token: token.clone() }
}

fn fan(args: &Vec<String>, env: &Environment, gpu: usize) -> (r: Vec<Report>)
    requires
        args@.len() == 1 || args@.len() == 2,
    ensures
        r.deep_view() == fan_reports(args.deep_view(), env.deep_view(), gpu),
{
    let ghost values = args.deep_view();
    assert(value_at(values, 0) == args[0]@);
    let mut fan_index: usize = 0;
    let fan_speed: i32;
    if args.len() == 1 {
        match parse_i32(args[0].as_str()) {
            Some(n) => {
                fan_speed = n;
            },
            None => {
                return one(parse_failure(CommandKind::Fan, &args[0]));
            },
        }
    } else {
        assert(value_at(values, 1) == args[1]@);
        match parse_usize(args[0].as_str()) {
            Some(n) => {
                fan_index = n;
            },
            None => {
                return one(parse_failure(CommandKind::Fan, &args[0]));
            },
        }
        match parse_i32(args[1].as_str()) {
            Some(n) => {
                fan_speed = n;
            },
            None => {
                return one(parse_failure(CommandKind::Fan, &args[1]));
            },
        }
    }
    let mut out: Vec<Report> = Vec::new();
    if (fan_speed < 0 || fan_speed > 100) && fan_speed != -1 {
        out.push(Report::FanOutOfRange(fan_speed));
    }
    let ghost warned = out.deep_view();
    let op = if fan_speed == -1 {
        GpuOp::ResetFanSpeed
    } else {
        GpuOp::SetFanSpeed { fan_index, fan_speed }
    };
    out.push(issue(op, env, gpu));
    assert(out.deep_view() =~= warned.push(external(op, env.deep_view(), gpu)));
    assert(fan_reports(values, env.deep_view(), gpu).len() == out.deep_view().len());
    assert(out.deep_view() =~= fan_reports(values, env.deep_view(), gpu));
    out
}

/// Checks the number of values against what `cmd` accepts, then carries out
/// its behaviour: updates the environment or the GPU index, or lists the
/// external operations to issue.
pub fn run(cmd: &HelperCommand, args: &Vec<String>, env: &mut Environment, gpu: &mut usize) -> (r:
    Vec<Report>)
    ensures
        (r.deep_view(), final(env).deep_view(), *final(gpu)) == handle(
            cmd.deep_view(),
            args.deep_view(),
            old(env).deep_view(),
            *old(gpu),
        ),
{
    let ghost values = args.deep_view();
    if !accepts_count(&cmd.args, args.len()) {
        return one(Report::ArityMismatch { name: cmd.name.clone(), count: args.len() });
    }
    let empty = String::new();
    let v0: &String = if args.len() > 0 { &args[0] } else { &empty };
    assert(v0@ == value_at(values, 0));
    match command_kind(&cmd.name) {
        None => Vec::new(),
        Some(CommandKind::Help) => one(Report::Help),
        Some(CommandKind::Version) => one(Report::Version),
        Some(CommandKind::Display) => {
            env.display = v0.clone();
            Vec::new()
        },
        Some(CommandKind::Xauth) => {
            env.xauthority = v0.clone();
            Vec::new()
        },
        Some(CommandKind::Debug) => match parse_bool(v0.as_str()) {
            Some(b) => {
                env.debug = b;
                if b {
                    one(Report::DebugEnabled)
                } else {
                    Vec::new()
                }
            },
            None => one(parse_failure(CommandKind::Debug, v0)),
        },
        Some(CommandKind::Gpu) => match parse_usize(v0.as_str()) {
            Some(n) => {
                *gpu = n;
                if env.debug {
                    one(Report::GpuSelected(n))
                } else {
                    Vec::new()
                }
            },
            None => one(parse_failure(CommandKind::Gpu, v0)),
        },
        Some(CommandKind::Fan) => {
            if args.len() == 1 || args.len() == 2 {
                fan(args, env, *gpu)
            } else {
                one(issue(GpuOp::SetFanSpeed { fan_index: 0, fan_speed: 0 }, env, *gpu))
            }
        },
        Some(CommandKind::Power) => match parse_usize(v0.as_str()) {
            Some(n) => one(issue(GpuOp::SetPowerLimit(n), env, *gpu)),
            None => one(parse_failure(CommandKind::Power, v0)),
        },
        Some(CommandKind::Reset) => {
            let mut out: Vec<Report> = Vec::new();
            out.push(issue(GpuOp::ResetCore, env, *gpu));
            out.push(issue(GpuOp::ResetMemory, env, *gpu));
            out.push(issue(GpuOp::SetCoreOffset(0), env, *gpu));
            out.push(issue(GpuOp::SetMemoryOffset(0), env, *gpu));
            out.push(issue(GpuOp::ResetFanSpeed, env, *gpu));
            let ghost e = env.deep_view();
            let ghost g = *gpu;
            assert(out.deep_view() =~= reset_ops().map_values(|op: GpuOp| external(op, e, g)));
            out
        },
        Some(k) => match parse_i32(v0.as_str()) {
            None => one(parse_failure(k, v0)),
            Some(n) => {
                let op = match k {
                    CommandKind::MemoryOffset => GpuOp::SetMemoryOffset(n),
                    CommandKind::ClockOffset => GpuOp::SetCoreOffset(n),
                    CommandKind::Clock => if n > 0 {
                        GpuOp::LockCore(n as usize)
                    } else {
                        GpuOp::ResetCore
                    },
                    _ => if n >= 0 {
                        GpuOp::LockMemory(n as usize)
                    } else {
                        GpuOp::ResetMemory
                    },
                };
                one(issue(op, env, *gpu))
            },
        },
    }
}

} // verus!
