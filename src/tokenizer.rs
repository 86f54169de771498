use vstd::prelude::*;
use crate::commands::{cmd_exists, max_arity, max_of, resolve, CommandView, HelperCommand};
use crate::dispatch::{handle, run, Report, ReportView};
use crate::executor::{EnvView, Environment};
use crate::text::{parse_usize, usize_of};

verus! {

/// One unit of the token stream: a token that names no command, or a
/// command together with the values gathered for it.
pub enum Step {
    Unrecognized(String),
    Invoke { command: usize, values: Vec<String> },
}

/// The mathematical content of a [`Step`].
pub enum StepView {
    Unrecognized(Seq<char>),
    Invoke { command: int, values: Seq<Seq<char>> },
}

impl DeepView for Step {
    type V = StepView;

    open spec fn deep_view(&self) -> StepView {
        match self {
            Step::Unrecognized(t) => StepView::Unrecognized(t@),
            Step::Invoke { command, values } => StepView::Invoke {
                command: *command as int,
                values: values.deep_view(),
            },
        }
    }
}

/// The tokens after the program name.
pub open spec fn command_tokens(args: Seq<Seq<char>>) -> Seq<Seq<char>> {
    if args.len() == 0 {
        args
    } else {
        args.drop_first()
    }
}

/// The measure that the scan decreases: each token is seen at most twice.
pub open spec fn scan_measure(toks: Seq<Seq<char>>, pending: Option<(int, Seq<Seq<char>>)>) -> nat {
    2 * toks.len() + if pending is Some {
        1nat
    } else {
        0nat
    }
}

/// The steps that the tokens `toks` give, starting with `pending` as the
/// command whose values are being gathered (`None`: a command is sought).
/// A gathering command is flushed when it holds its largest number of values
/// or when the next token names a command; that token is then looked at again.
pub open spec fn scan(
    reg: Seq<CommandView>,
    toks: Seq<Seq<char>>,
    pending: Option<(int, Seq<Seq<char>>)>,
) -> Seq<StepView>
    decreases scan_measure(toks, pending),
{
    if toks.len() == 0 {
        match pending {
            Some((c, vs)) => seq![StepView::Invoke { command: c, values: vs }],
            None => Seq::empty(),
        }
    } else {
        let t = toks[0];
        match pending {
            None => match resolve(reg, t) {
                Some(c) => scan(reg, toks.drop_first(), Some((c, Seq::empty()))),
                None => seq![StepView::Unrecognized(t)] + scan(reg, toks.drop_first(), None),
            },
            Some((c, vs)) => if vs.len() >= max_of(reg[c].args) || resolve(reg, t) is Some {
                seq![StepView::Invoke { command: c, values: vs }] + scan(reg, toks, None)
            } else {
                scan(reg, toks.drop_first(), Some((c, vs.push(t))))
            },
        }
    }
}

/// The steps of a whole argument line; the program name is skipped.
pub open spec fn plan_spec(reg: Seq<CommandView>, args: Seq<Seq<char>>) -> Seq<StepView> {
    scan(reg, command_tokens(args), None)
}

pub open spec fn pending_of(active: Option<usize>, collected: Seq<Seq<char>>) -> Option<
    (int, Seq<Seq<char>>),
> {
    match active {
        Some(c) => Some((c as int, collected)),
        None => None,
    }
}

/// Every command index in `steps` selects an entry of a registry of `n` commands.
pub open spec fn steps_in_range(steps: Seq<StepView>, n: int) -> bool {
    forall|i: int|
        0 <= i < steps.len() ==> match #[trigger] steps[i] {
            StepView::Invoke { command, .. } => 0 <= command < n,
            _ => true,
        }
}

/// Splits the argument line into steps: the tokenizer's state machine.
pub fn plan(commands: &Vec<HelperCommand>, args: &Vec<String>) -> (r: Vec<Step>)
    ensures
        r.deep_view() == plan_spec(commands.deep_view(), args.deep_view()),
        steps_in_range(r.deep_view(), commands@.len() as int),
{
    let ghost reg = commands.deep_view();
    let ghost all = args.deep_view();
    let mut out: Vec<Step> = Vec::new();
    if args.len() == 0 {
        assert(out.deep_view() =~= plan_spec(reg, all));
        return out;
    }
    let mut index: usize = 1;
    let mut active: Option<usize> = None;
    let mut collected: Vec<String> = Vec::new();
    assert(all.subrange(1, all.len() as int) =~= command_tokens(all));
    assert(out.deep_view() + plan_spec(reg, all) =~= plan_spec(reg, all));
    while index < args.len()
        invariant
            1 <= index <= args.len(),
            reg == commands.deep_view(),
            all == args.deep_view(),
            plan_spec(reg, all) == out.deep_view() + scan(
                reg,
                all.subrange(index as int, all.len() as int),
                pending_of(active, collected.deep_view()),
            ),
            active matches Some(c) ==> c < commands.len(),
            steps_in_range(out.deep_view(), commands@.len() as int),
        decreases scan_measure(
            all.subrange(index as int, all.len() as int),
            pending_of(active, collected.deep_view()),
        ),
    {
        let ghost toks = all.subrange(index as int, all.len() as int);
        let ghost before = out.deep_view();
        assert(toks[0] == args[index as int]@);
        assert(toks.drop_first() =~= all.subrange(index + 1, all.len() as int));
        match active {
            None => {
                match cmd_exists(&args[index], commands) {
                    Some(c) => {
                        active = Some(c);
                        collected = Vec::new();
                        assert(collected.deep_view() =~= Seq::<Seq<char>>::empty());
                    },
                    None => {
                        out.push(Step::Unrecognized(args[index].clone()));
                        assert(out.deep_view() =~= before + seq![StepView::Unrecognized(toks[0])]);
                        assert(out.deep_view() + scan(reg, toks.drop_first(), None) =~= before + (
                        seq![StepView::Unrecognized(toks[0])] + scan(reg, toks.drop_first(), None)));
                    },
                }
                index = index + 1;
            },
            Some(c) => {
                let full = collected.len() >= max_arity(&commands[c]);
                if full || cmd_exists(&args[index], commands).is_some() {
                    let ghost vs = collected.deep_view();
                    out.push(Step::Invoke { command: c, values: collected });
                    collected = Vec::new();
                    active = None;
                    let ghost st = StepView::Invoke { command: c as int, values: vs };
                    assert(out.deep_view() =~= before + seq![st]);
                    assert(out.deep_view() + scan(reg, toks, None) =~= before + (seq![st] + scan(
                        reg,
                        toks,
                        None,
                    )));
                } else {
                    let ghost vs = collected.deep_view();
                    collected.push(args[index].clone());
                    assert(collected.deep_view() =~= vs.push(toks[0]));
                    index = index + 1;
                }
            },
        }
    }
    let ghost before = out.deep_view();
    assert(all.subrange(index as int, all.len() as int) =~= Seq::<Seq<char>>::empty());
    match active {
        Some(c) => {
            let ghost vs = collected.deep_view();
            out.push(Step::Invoke { command: c, values: collected });
            assert(out.deep_view() =~= before + seq![StepView::Invoke { command: c as int, values: vs }]);
        },
        None => {
            assert(out.deep_view() =~= before + Seq::<StepView>::empty());
        },
    }
    out
}

/// What one step reports, and the environment and GPU index it leaves.
pub open spec fn perform_step(reg: Seq<CommandView>, step: StepView, env: EnvView, gpu: usize) -> (
    Seq<ReportView>,
    EnvView,
    usize,
) {
    match step {
        StepView::Unrecognized(t) => (seq![ReportView::Unrecognized(t)], env, gpu),
        StepView::Invoke { command, values } => handle(reg[command], values, env, gpu),
    }
}

/// What the steps report in order, each seeing the state the ones before it left.
pub open spec fn perform(reg: Seq<CommandView>, steps: Seq<StepView>, env: EnvView, gpu: usize) -> (
    Seq<ReportView>,
    EnvView,
    usize,
)
    decreases steps.len(),
{
    if steps.len() == 0 {
        (Seq::empty(), env, gpu)
    } else {
        let (r1, e1, g1) = perform_step(reg, steps[0], env, gpu);
        let (r2, e2, g2) = perform(reg, steps.drop_first(), e1, g1);
        (r1 + r2, e2, g2)
    }
}

/// Runs a whole argument line: splits it into steps and dispatches each in turn.
pub fn process(
    commands: &Vec<HelperCommand>,
    args: &Vec<String>,
    env: &mut Environment,
    gpu: &mut usize,
) -> (r: Vec<Report>)
    ensures
        (r.deep_view(), final(env).deep_view(), *final(gpu)) == perform(
            commands.deep_view(),
            plan_spec(commands.deep_view(), args.deep_view()),
            old(env).deep_view(),
            *old(gpu),
        ),
{
    let ghost reg = commands.deep_view();
    let steps = plan(commands, args);
    let ghost all = steps.deep_view();
    let ghost env0 = env.deep_view();
    let ghost gpu0 = *gpu;
    let mut out: Vec<Report> = Vec::new();
    let mut i: usize = 0;
    assert(all.subrange(0, all.len() as int) =~= all);
    assert(out.deep_view() + perform(reg, all, env0, gpu0).0 =~= perform(reg, all, env0, gpu0).0);
    while i < steps.len()
        invariant
            i <= steps.len(),
            reg == commands.deep_view(),
            all == steps.deep_view(),
            steps_in_range(all, commands@.len() as int),
            ({
                let rest = perform(reg, all.subrange(i as int, all.len() as int), env.deep_view(), *gpu);
                perform(reg, all, env0, gpu0) == (out.deep_view() + rest.0, rest.1, rest.2)
            }),
        decreases steps.len() - i,
    {
        let ghost tail = all.subrange(i as int, all.len() as int);
        let ghost before = out.deep_view();
        let ghost e = env.deep_view();
        let ghost g = *gpu;
        assert(tail[0] == all[i as int]);
        assert(tail.drop_first() =~= all.subrange(i + 1, all.len() as int));
        let ghost first = perform_step(reg, all[i as int], e, g);
        let mut reported: Vec<Report> = match &steps[i] {
            Step::Unrecognized(t) => {
                let mut v: Vec<Report> = Vec::new();
                v.push(Report::Unrecognized(t.clone()));
                assert(v.deep_view() =~= seq![ReportView::Unrecognized(t@)]);
                v
            },
            Step::Invoke { command, values } => run(&commands[*command], values, env, gpu),
        };
        assert(reported.deep_view() == first.0);
        assert(env.deep_view() == first.1);
        assert(*gpu == first.2);
        let ghost mine = reported.deep_view();
        out.append(&mut reported);
        assert(out.deep_view() =~= before + mine);
        let ghost rest = perform(reg, tail.drop_first(), first.1, first.2);
        assert(before + (mine + rest.0) =~= out.deep_view() + rest.0);
        i = i + 1;
    }
    assert(all.subrange(i as int, all.len() as int) =~= Seq::<StepView>::empty());
    assert(out.deep_view() + Seq::<ReportView>::empty() =~= out.deep_view());
    out
}

/// How a run starts: a status query for a GPU, or the command loop.
#[derive(PartialEq, Eq, Structural, Clone, Copy, Debug)]
pub enum Entry {
    Status(usize),
    Commands,
}

/// A lone program name queries GPU 0; a single token that reads as an index
/// queries that GPU; anything else goes to the command loop.
pub open spec fn entry_spec(args: Seq<Seq<char>>) -> Entry {
    if args.len() == 1 {
        Entry::Status(0)
    } else if args.len() == 2 && usize_of(args[1]) is Some {
        Entry::Status(usize_of(args[1]).unwrap())
    } else {
        Entry::Commands
    }
}

/// Decides how the argument line is handled.
pub fn entry_mode(args: &Vec<String>) -> (r: Entry)
    ensures
        r == entry_spec(args.deep_view()),
{
    if args.len() == 1 {
        Entry::Status(0)
    } else if args.len() == 2 {
        match parse_usize(args[1].as_str()) {
            Some(n) => Entry::Status(n),
            None => Entry::Commands,
        }
    } else {
        Entry::Commands
    }
}

} // verus!
