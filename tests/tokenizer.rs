use nvidiahelper::{
    entry_mode, plan, process, standard_commands, Entry, Environment, GpuOp, Report, Step,
};

fn line(tokens: &[&str]) -> Vec<String> {
    tokens.iter().map(|t| t.to_string()).collect()
}

fn run_line(tokens: &[&str]) -> (Vec<Report>, Environment, usize) {
    let commands = standard_commands();
    let mut env = Environment::default();
    let mut gpu: usize = 0;
    let reports = process(&commands, &line(tokens), &mut env, &mut gpu);
    (reports, env, gpu)
}

fn ops(reports: &[Report]) -> Vec<(GpuOp, usize)> {
    reports
        .iter()
        .filter_map(|r| match r {
            Report::External(e) => Some((e.op, e.gpu)),
            _ => None,
        })
        .collect()
}

#[test]
fn chained_commands_make_two_invocations() {
    let commands = standard_commands();
    let steps = plan(&commands, &line(&["prog", "fan", "0", "75", "clock", "1500"]));
    assert_eq!(steps.len(), 2);
    match &steps[0] {
        Step::Invoke { command, values } => {
            assert_eq!(commands[*command].name, "fan");
            assert_eq!(values, &vec!["0".to_string(), "75".to_string()]);
        }
        _ => panic!("expected the fan command"),
    }
    match &steps[1] {
        Step::Invoke { command, values } => {
            assert_eq!(commands[*command].name, "clock");
            assert_eq!(values, &vec!["1500".to_string()]);
        }
        _ => panic!("expected the clock command"),
    }
    let (reports, _, _) = run_line(&["prog", "fan", "0", "75", "clock", "1500"]);
    assert_eq!(
        ops(&reports),
        vec![(GpuOp::SetFanSpeed { fan_index: 0, fan_speed: 75 }, 0), (GpuOp::LockCore(1500), 0)]
    );
    assert_eq!(reports.len(), 2);
}

#[test]
fn alias_and_name_behave_alike() {
    let pairs = [("clock", "lgc"), ("clock", "--clock"), ("memory", "lmc"), ("power", "pl"), ("memoryoffset", "--memory-offset")];
    for (name, alias) in pairs {
        let (a, _, _) = run_line(&["prog", name, "300"]);
        let (b, _, _) = run_line(&["prog", alias, "300"]);
        assert_eq!(ops(&a), ops(&b));
        assert_eq!(a.len(), 1);
    }
    let (a, _, _) = run_line(&["prog", "reset"]);
    let (b, _, _) = run_line(&["prog", "r"]);
    assert_eq!(ops(&a), ops(&b));
    let (_, env, _) = run_line(&["prog", "xa", "/tmp/auth"]);
    assert_eq!(env.xauthority, "/tmp/auth");
    let (_, env, _) = run_line(&["prog", "--display", ":1"]);
    assert_eq!(env.display, ":1");
}

#[test]
fn reset_issues_five_operations_on_current_gpu() {
    let (reports, _, gpu) = run_line(&["prog", "gpu", "3", "reset", "reset"]);
    assert_eq!(gpu, 3);
    let five = vec![
        (GpuOp::ResetCore, 3),
        (GpuOp::ResetMemory, 3),
        (GpuOp::SetCoreOffset(0), 3),
        (GpuOp::SetMemoryOffset(0), 3),
        (GpuOp::ResetFanSpeed, 3),
    ];
    let all = ops(&reports);
    assert_eq!(all.len(), 10);
    assert_eq!(all[..5].to_vec(), five);
    assert_eq!(all[5..].to_vec(), five);
}

#[test]
fn fan_speed_boundaries() {
    for s in [0, 100] {
        let text = s.to_string();
        let (reports, _, _) = run_line(&["prog", "fan", &text]);
        assert_eq!(reports.len(), 1);
        assert_eq!(ops(&reports), vec![(GpuOp::SetFanSpeed { fan_index: 0, fan_speed: s }, 0)]);
    }
    for s in [101, -2] {
        let text = s.to_string();
        let (reports, _, _) = run_line(&["prog", "fan", &text]);
        assert_eq!(reports.len(), 2);
        assert!(matches!(reports[0], Report::FanOutOfRange(v) if v == s));
        assert_eq!(ops(&reports), vec![(GpuOp::SetFanSpeed { fan_index: 0, fan_speed: s }, 0)]);
    }
    let (reports, _, _) = run_line(&["prog", "fan", "-1"]);
    assert_eq!(reports.len(), 1);
    assert_eq!(ops(&reports), vec![(GpuOp::ResetFanSpeed, 0)]);
    let (reports, _, _) = run_line(&["prog", "fan", "2", "-1"]);
    assert_eq!(ops(&reports), vec![(GpuOp::ResetFanSpeed, 0)]);
}

#[test]
fn program_name_alone_queries_gpu_zero() {
    assert_eq!(entry_mode(&line(&["prog"])), Entry::Status(0));
    let (reports, _, gpu) = run_line(&["prog"]);
    assert!(reports.is_empty());
    assert_eq!(gpu, 0);
}

#[test]
fn single_index_queries_that_gpu() {
    assert_eq!(entry_mode(&line(&["prog", "2"])), Entry::Status(2));
    assert_eq!(entry_mode(&line(&["prog", "help"])), Entry::Commands);
    assert_eq!(entry_mode(&line(&["prog", "-2"])), Entry::Commands);
    assert_eq!(entry_mode(&line(&["prog", "gpu", "1"])), Entry::Commands);
}

#[test]
fn gpu_selection_leaves_fan_index_alone() {
    let (reports, _, gpu) = run_line(&["prog", "gpu", "1", "fan", "75"]);
    assert_eq!(gpu, 1);
    assert_eq!(reports.len(), 1);
    assert_eq!(ops(&reports), vec![(GpuOp::SetFanSpeed { fan_index: 0, fan_speed: 75 }, 1)]);
}

#[test]
fn unknown_token_is_reported_and_dropped() {
    let (reports, _, _) = run_line(&["prog", "badtoken", "clock", "1500"]);
    assert_eq!(reports.len(), 2);
    assert!(matches!(&reports[0], Report::Unrecognized(t) if t == "badtoken"));
    assert_eq!(ops(&reports), vec![(GpuOp::LockCore(1500), 0)]);
}

#[test]
fn debug_rejects_non_boolean() {
    let (reports, env, _) = run_line(&["prog", "debug", "maybe"]);
    assert_eq!(reports.len(), 1);
    assert!(matches!(&reports[0], Report::ParseFailure { command: nvidiahelper::CommandKind::Debug, token } if token == "maybe"));
    assert!(!env.debug);
    let (reports, env, _) = run_line(&["prog", "--debug", "true", "gpu", "4"]);
    assert!(env.debug);
    assert!(matches!(reports[0], Report::DebugEnabled));
    assert!(matches!(reports[1], Report::GpuSelected(4)));
}

#[test]
fn full_command_flushes_and_rereads_token() {
    let (reports, _, gpu) = run_line(&["prog", "gpu", "1", "2"]);
    assert_eq!(gpu, 1);
    assert_eq!(reports.len(), 1);
    assert!(matches!(&reports[0], Report::Unrecognized(t) if t == "2"));
}

#[test]
fn command_name_ends_value_gathering() {
    let (reports, _, _) = run_line(&["prog", "fan", "clock", "900"]);
    assert_eq!(reports.len(), 2);
    assert!(matches!(&reports[0], Report::ArityMismatch { name, count: 0 } if name == "fan"));
    assert_eq!(ops(&reports), vec![(GpuOp::LockCore(900), 0)]);
}

#[test]
fn trailing_command_without_values_is_an_arity_mismatch() {
    let (reports, _, _) = run_line(&["prog", "power"]);
    assert_eq!(reports.len(), 1);
    assert!(matches!(&reports[0], Report::ArityMismatch { name, count: 0 } if name == "power"));
}

#[test]
fn clock_and_memory_reset_boundaries() {
    let (r, _, _) = run_line(&["prog", "clock", "0", "memory", "0", "clock", "-1", "memory", "-1"]);
    assert_eq!(
        ops(&r),
        vec![
            (GpuOp::ResetCore, 0),
            (GpuOp::LockMemory(0), 0),
            (GpuOp::ResetCore, 0),
            (GpuOp::ResetMemory, 0)
        ]
    );
}

#[test]
fn offsets_and_power() {
    let (r, _, _) = run_line(&["prog", "moc", "-500", "--clock-offset", "+150", "power", "400"]);
    assert_eq!(
        ops(&r),
        vec![(GpuOp::SetMemoryOffset(-500), 0), (GpuOp::SetCoreOffset(150), 0), (GpuOp::SetPowerLimit(400), 0)]
    );
    let (r, _, _) = run_line(&["prog", "power", "-3", "clockoffset", "x1"]);
    assert_eq!(r.len(), 2);
    assert!(matches!(&r[0], Report::ParseFailure { command: nvidiahelper::CommandKind::Power, token } if token == "-3"));
    assert!(matches!(&r[1], Report::ParseFailure { command: nvidiahelper::CommandKind::ClockOffset, token } if token == "x1"));
}

#[test]
fn fan_parse_failure_names_offending_token() {
    let (r, _, _) = run_line(&["prog", "fan", "1", "fast"]);
    assert_eq!(r.len(), 1);
    assert!(matches!(&r[0], Report::ParseFailure { command: nvidiahelper::CommandKind::Fan, token } if token == "fast"));
    let (r, _, _) = run_line(&["prog", "fan", "-1", "50"]);
    assert!(matches!(&r[0], Report::ParseFailure { token, .. } if token == "-1"));
}

#[test]
fn help_and_version() {
    let (r, _, _) = run_line(&["prog", "-h", "v"]);
    assert_eq!(r.len(), 2);
    assert!(matches!(r[0], Report::Help));
    assert!(matches!(r[1], Report::Version));
}

#[test]
fn effect_carries_environment_in_force() {
    let (r, _, _) = run_line(&["prog", "display", ":3", "fan", "50"]);
    match &r[0] {
        Report::External(e) => assert_eq!(e.env.display, ":3"),
        _ => panic!("expected an external operation"),
    }
}
