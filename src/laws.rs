use vstd::prelude::*;
use crate::commands::{
    lemma_resolve_in_range, lemma_resolve_unique, max_of, registry_wf, resolve, CommandView,
};
use crate::dispatch::{
    accepts, external, handle, kind_of, reset_ops, CommandKind, GpuOp, ReportView,
};
use crate::executor::EnvView;
use crate::text::i32_of;
use crate::tokenizer::{command_tokens, perform, plan_spec, scan, scan_measure, StepView};

verus! {

/// A step whose command is in the registry, whose values are no command
/// names, and which holds no more values than the command's largest count.
pub open spec fn invoke_ok(reg: Seq<CommandView>, st: StepView) -> bool {
    match st {
        StepView::Invoke { command, values } => {
            &&& 0 <= command < reg.len()
            &&& values.len() <= max_of(reg[command].args)
            &&& forall|k: int| 0 <= k < values.len() ==> resolve(reg, #[trigger] values[k]) is None
        },
        StepView::Unrecognized(_) => true,
    }
}

proof fn lemma_scan_ok(
    reg: Seq<CommandView>,
    toks: Seq<Seq<char>>,
    pending: Option<(int, Seq<Seq<char>>)>,
)
    requires
        pending matches Some((c, vs)) ==> invoke_ok(
            reg,
            StepView::Invoke { command: c, values: vs },
        ),
    ensures
        forall|i: int|
            0 <= i < scan(reg, toks, pending).len() ==> invoke_ok(
                reg,
                #[trigger] scan(reg, toks, pending)[i],
            ),
    decreases scan_measure(toks, pending),
{
    if toks.len() == 0 {
        if let Some((c, vs)) = pending {
            assert(scan(reg, toks, pending) =~= seq![StepView::Invoke { command: c, values: vs }]);
        }
    } else {
        let t = toks[0];
        lemma_resolve_in_range(reg, t);
        match pending {
            None => match resolve(reg, t) {
                Some(c) => {
                    assert(invoke_ok(reg, StepView::Invoke { command: c, values: Seq::empty() }));
                    lemma_scan_ok(reg, toks.drop_first(), Some((c, Seq::empty())));
                    assert(scan(reg, toks, pending) == scan(reg, toks.drop_first(), Some((c, Seq::<Seq<char>>::empty()))));
                },
                None => {
                    lemma_scan_ok(reg, toks.drop_first(), None);
                    let rest = scan(reg, toks.drop_first(), None);
                    assert forall|i: int|
                        0 <= i < scan(reg, toks, pending).len() implies invoke_ok(
                        reg,
                        #[trigger] scan(reg, toks, pending)[i],
                    ) by {
                        if i > 0 {
                            assert(scan(reg, toks, pending)[i] == rest[i - 1]);
                        }
                    }
                },
            },
            Some((c, vs)) => if vs.len() >= max_of(reg[c].args) || resolve(reg, t) is Some {
                lemma_scan_ok(reg, toks, None);
                let rest = scan(reg, toks, None);
                assert forall|i: int|
                    0 <= i < scan(reg, toks, pending).len() implies invoke_ok(
                    reg,
                    #[trigger] scan(reg, toks, pending)[i],
                ) by {
                    if i > 0 {
                        assert(scan(reg, toks, pending)[i] == rest[i - 1]);
                    }
                }
            } else {
                let vs2 = vs.push(t);
                assert forall|k: int| 0 <= k < vs2.len() implies resolve(
                    reg,
                    #[trigger] vs2[k],
                ) is None by {
                    if k < vs.len() {
                        assert(vs2[k] == vs[k]);
                    }
                }
                lemma_scan_ok(reg, toks.drop_first(), Some((c, vs2)));
                assert(scan(reg, toks, pending) == scan(reg, toks.drop_first(), Some((c, vs2))));
            },
        }
    }
}

/// Every value gathered for a command is a token that names no command:
/// a token that resolves always ends the gathering.
pub proof fn lemma_values_never_commands(reg: Seq<CommandView>, args: Seq<Seq<char>>)
    ensures
        forall|i: int|
            0 <= i < plan_spec(reg, args).len() ==> match #[trigger] plan_spec(reg, args)[i] {
                StepView::Invoke { values, .. } => forall|k: int|
                    0 <= k < values.len() ==> resolve(reg, #[trigger] values[k]) is None,
                _ => true,
            },
{
    lemma_scan_ok(reg, command_tokens(args), None);
    assert forall|i: int| 0 <= i < plan_spec(reg, args).len() implies match #[trigger] plan_spec(
        reg,
        args,
    )[i] {
        StepView::Invoke { values, .. } => forall|k: int|
            0 <= k < values.len() ==> resolve(reg, #[trigger] values[k]) is None,
        _ => true,
    } by {
        assert(invoke_ok(reg, plan_spec(reg, args)[i]));
    }
}

/// Every command is dispatched with a registry entry and at most its largest
/// accepted number of values; fewer than its smallest may reach dispatch.
pub proof fn lemma_values_within_arity(reg: Seq<CommandView>, args: Seq<Seq<char>>)
    ensures
        forall|i: int|
            0 <= i < plan_spec(reg, args).len() ==> match #[trigger] plan_spec(reg, args)[i] {
                StepView::Invoke { command, values } => 0 <= command < reg.len() && values.len()
                    <= max_of(reg[command].args),
                _ => true,
            },
{
    lemma_scan_ok(reg, command_tokens(args), None);
    assert forall|i: int| 0 <= i < plan_spec(reg, args).len() implies match #[trigger] plan_spec(
        reg,
        args,
    )[i] {
        StepView::Invoke { command, values } => 0 <= command < reg.len() && values.len()
            <= max_of(reg[command].args),
        _ => true,
    } by {
        assert(invoke_ok(reg, plan_spec(reg, args)[i]));
    }
}

/// Two token streams of equal length that agree token by token, or select
/// the same command at each place where they differ.
pub open spec fn same_resolution(reg: Seq<CommandView>, a: Seq<Seq<char>>, b: Seq<Seq<char>>) -> bool {
    &&& a.len() == b.len()
    &&& forall|k: int|
        0 <= k < a.len() ==> a[k] == b[k] || (resolve(reg, #[trigger] a[k]) is Some && resolve(
            reg,
            a[k],
        ) == resolve(reg, b[k]))
}

proof fn lemma_scan_same_resolution(
    reg: Seq<CommandView>,
    a: Seq<Seq<char>>,
    b: Seq<Seq<char>>,
    pending: Option<(int, Seq<Seq<char>>)>,
)
    requires
        same_resolution(reg, a, b),
    ensures
        scan(reg, a, pending) == scan(reg, b, pending),
    decreases scan_measure(a, pending),
{
    if a.len() > 0 {
        assert(a[0] == b[0] || resolve(reg, a[0]) == resolve(reg, b[0]));
        assert(same_resolution(reg, a.drop_first(), b.drop_first())) by {
            assert forall|k: int| 0 <= k < a.drop_first().len() implies a.drop_first()[k]
                == b.drop_first()[k] || (resolve(reg, #[trigger] a.drop_first()[k]) is Some
                && resolve(reg, a.drop_first()[k]) == resolve(reg, b.drop_first()[k])) by {
                assert(a.drop_first()[k] == a[k + 1]);
                assert(b.drop_first()[k] == b[k + 1]);
            }
        }
        match pending {
            None => match resolve(reg, a[0]) {
                Some(c) => {
                    lemma_scan_same_resolution(reg, a.drop_first(), b.drop_first(), Some((c, Seq::empty())));
                },
                None => {
                    lemma_scan_same_resolution(reg, a.drop_first(), b.drop_first(), None);
                },
            },
            Some((c, vs)) => if vs.len() >= max_of(reg[c].args) || resolve(reg, a[0]) is Some {
                lemma_scan_same_resolution(reg, a, b, None);
            } else {
                lemma_scan_same_resolution(reg, a.drop_first(), b.drop_first(), Some((c, vs.push(a[0]))));
            },
        }
    }
}

/// Writing a command by any of its aliases instead of its canonical name,
/// with the same values around it, gives the same steps and so the same
/// dispatch behaviour.
pub proof fn lemma_alias_equivalence(
    reg: Seq<CommandView>,
    i: int,
    alias: Seq<char>,
    before: Seq<Seq<char>>,
    after: Seq<Seq<char>>,
    env: EnvView,
    gpu: usize,
)
    requires
        registry_wf(reg),
        0 <= i < reg.len(),
        reg[i].aliases.contains(alias),
    ensures
        plan_spec(reg, before + seq![alias] + after) == plan_spec(
            reg,
            before + seq![reg[i].name] + after,
        ),
        perform(reg, plan_spec(reg, before + seq![alias] + after), env, gpu) == perform(
            reg,
            plan_spec(reg, before + seq![reg[i].name] + after),
            env,
            gpu,
        ),
{
    let a = before + seq![alias] + after;
    let b = before + seq![reg[i].name] + after;
    lemma_resolve_unique(reg, i, alias);
    lemma_resolve_unique(reg, i, reg[i].name);
    assert(same_resolution(reg, a, b)) by {
        assert forall|k: int| 0 <= k < a.len() implies a[k] == b[k] || (resolve(
            reg,
            #[trigger] a[k],
        ) is Some && resolve(reg, a[k]) == resolve(reg, b[k])) by {
            if k != before.len() {
                assert(a[k] == b[k]);
            } else {
                assert(a[k] == alias);
                assert(b[k] == reg[i].name);
            }
        }
    }
    assert(same_resolution(reg, command_tokens(a), command_tokens(b))) by {
        if a.len() > 0 {
            assert forall|k: int| 0 <= k < command_tokens(a).len() implies command_tokens(a)[k]
                == command_tokens(b)[k] || (resolve(reg, #[trigger] command_tokens(a)[k]) is Some
                && resolve(reg, command_tokens(a)[k]) == resolve(reg, command_tokens(b)[k])) by {
                assert(command_tokens(a)[k] == a[k + 1]);
                assert(command_tokens(b)[k] == b[k + 1]);
            }
        }
    }
    lemma_scan_same_resolution(reg, command_tokens(a), command_tokens(b), None);
}

/// `reset` issues the same five operations in a fixed order, on the GPU
/// selected at that moment, changes nothing, and so gives the same reports
/// when dispatched again.
pub proof fn lemma_reset_repeatable(cmd: CommandView, env: EnvView, gpu: usize)
    requires
        kind_of(cmd.name) == Some(CommandKind::Reset),
        accepts(cmd.args, 0),
    ensures
        ({
            let (r, e, g) = handle(cmd, Seq::empty(), env, gpu);
            &&& r.len() == 5
            &&& forall|k: int| 0 <= k < 5 ==> #[trigger] r[k] == external(reset_ops()[k], env, gpu)
            &&& e == env
            &&& g == gpu
            &&& handle(cmd, Seq::empty(), e, g) == (r, e, g)
        }),
{
}

/// A single fan speed from 0 to 100 sets the speed of fan 0 without a
/// warning, -1 hands the fan back to automatic control, and any other speed
/// draws a warning and is still set.
pub proof fn lemma_fan_speed_boundaries(
    cmd: CommandView,
    v: Seq<char>,
    s: i32,
    env: EnvView,
    gpu: usize,
)
    requires
        kind_of(cmd.name) == Some(CommandKind::Fan),
        accepts(cmd.args, 1),
        i32_of(v) == Some(s),
    ensures
        handle(cmd, seq![v], env, gpu).0 == if 0 <= s <= 100 {
            seq![external(GpuOp::SetFanSpeed { fan_index: 0, fan_speed: s }, env, gpu)]
        } else if s == -1 {
            seq![external(GpuOp::ResetFanSpeed, env, gpu)]
        } else {
            seq![
                ReportView::FanOutOfRange(s),
                external(GpuOp::SetFanSpeed { fan_index: 0, fan_speed: s }, env, gpu),
            ]
        },
{
    let r = handle(cmd, seq![v], env, gpu).0;
    assert(r =~= if 0 <= s <= 100 {
        seq![external(GpuOp::SetFanSpeed { fan_index: 0, fan_speed: s }, env, gpu)]
    } else if s == -1 {
        seq![external(GpuOp::ResetFanSpeed, env, gpu)]
    } else {
        seq![
            ReportView::FanOutOfRange(s),
            external(GpuOp::SetFanSpeed { fan_index: 0, fan_speed: s }, env, gpu),
        ]
    });
}

} // verus!
