use vstd::prelude::*;

verus! {

/// A command the tool understands: its canonical name, the other spellings
/// that select it, and the numbers of values it accepts.
pub struct HelperCommand {
    pub name: String,
    pub aliases: Vec<String>,
    pub args: Vec<usize>,
}

/// The mathematical content of a [`HelperCommand`].
pub struct CommandView {
    pub name: Seq<char>,
    pub aliases: Seq<Seq<char>>,
    pub args: Seq<usize>,
}

impl DeepView for HelperCommand {
    type V = CommandView;

    open spec fn deep_view(&self) -> CommandView {
        CommandView { name: self.name@, aliases: self.aliases.deep_view(), args: self.args@ }
    }
}

/// A command from its name, aliases and accepted value counts.
pub fn new_command(i_name: String, i_aliases: Vec<String>, i_args: Vec<usize>) -> (r: HelperCommand)
    ensures
        r.name == i_name,
        r.aliases == i_aliases,
        r.args == i_args,
{
    HelperCommand { name: i_name, aliases: i_aliases, args: i_args }
}

fn strings_eq(a: &Vec<String>, b: &Vec<String>) -> (r: bool)
    ensures
        r == (a.deep_view() == b.deep_view()),
{
    if a.len() != b.len() {
        assert(a.deep_view().len() != b.deep_view().len());
        return false;
    }
    let mut i: usize = 0;
    while i < a.len()
        invariant
            a.len() == b.len(),
            i <= a.len(),
            forall|j: int| 0 <= j < i ==> a@[j]@ == b@[j]@,
        decreases a.len() - i,
    {
        if a[i] != b[i] {
            assert(a.deep_view()[i as int] != b.deep_view()[i as int]);
            return false;
        }
        i = i + 1;
    }
    assert(a.deep_view() =~= b.deep_view());
    true
}

fn counts_eq(a: &Vec<usize>, b: &Vec<usize>) -> (r: bool)
    ensures
        r == (a@ == b@),
{
    if a.len() != b.len() {
        return false;
    }
    let mut i: usize = 0;
    while i < a.len()
        invariant
            a.len() == b.len(),
            i <= a.len(),
            forall|j: int| 0 <= j < i ==> a@[j] == b@[j],
        decreases a.len() - i,
    {
        if a[i] != b[i] {
            return false;
        }
        i = i + 1;
    }
    assert(a@ =~= b@);
    true
}

impl PartialEq for HelperCommand {
    fn eq(&self, other: &Self) -> (r: bool)
        ensures
            r == (self.deep_view() == other.deep_view()),
    {
        self.name == other.name && counts_eq(&self.args, &other.args) && strings_eq(
            &self.aliases,
            &other.aliases,
        )
    }
}

impl vstd::std_specs::cmp::PartialEqSpecImpl for HelperCommand {
    open spec fn obeys_eq_spec() -> bool {
        true
    }

    open spec fn eq_spec(&self, other: &HelperCommand) -> bool {
        self.deep_view() == other.deep_view()
    }
}

impl Eq for HelperCommand {

}

/// Index of the first command in `reg[from..]` whose canonical name is `t`.
pub open spec fn first_named(reg: Seq<CommandView>, t: Seq<char>, from: int) -> Option<int>
    decreases reg.len() - from,
{
    if from < 0 || from >= reg.len() {
        None
    } else if reg[from].name == t {
        Some(from)
    } else {
        first_named(reg, t, from + 1)
    }
}

/// Index of the first command in `reg[from..]` that lists `t` among its aliases.
pub open spec fn first_aliased(reg: Seq<CommandView>, t: Seq<char>, from: int) -> Option<int>
    decreases reg.len() - from,
{
    if from < 0 || from >= reg.len() {
        None
    } else if reg[from].aliases.contains(t) {
        Some(from)
    } else {
        first_aliased(reg, t, from + 1)
    }
}

/// The command that token `t` selects: an exact name first, then an alias.
pub open spec fn resolve(reg: Seq<CommandView>, t: Seq<char>) -> Option<int> {
    match first_named(reg, t, 0) {
        Some(i) => Some(i),
        None => first_aliased(reg, t, 0),
    }
}

/// An index as the spec functions give it.
pub open spec fn index_of(r: Option<usize>) -> Option<int> {
    match r {
        Some(i) => Some(i as int),
        None => None,
    }
}

/// No two commands share a name or an alias, and no command's name is another's alias.
pub open spec fn registry_wf(reg: Seq<CommandView>) -> bool {
    forall|i: int, j: int|
        #![trigger reg[i], reg[j]]
        0 <= i < reg.len() && 0 <= j < reg.len() && i != j ==> {
            &&& reg[i].name != reg[j].name
            &&& !reg[j].aliases.contains(reg[i].name)
            &&& forall|t: Seq<char>| #[trigger]
                reg[i].aliases.contains(t) ==> !reg[j].aliases.contains(t)
        }
}

/// A name lookup yields the first matching command, within range.
pub proof fn lemma_first_named(reg: Seq<CommandView>, t: Seq<char>, from: int)
    requires
        0 <= from,
    ensures
        first_named(reg, t, from) matches Some(i) ==> from <= i < reg.len() && reg[i].name == t,
        first_named(reg, t, from) is None ==> forall|j: int|
            from <= j < reg.len() ==> #[trigger] reg[j].name != t,
    decreases reg.len() - from,
{
    if 0 <= from < reg.len() && reg[from].name != t {
        lemma_first_named(reg, t, from + 1);
    }
}

/// An alias lookup yields the first matching command, within range.
pub proof fn lemma_first_aliased(reg: Seq<CommandView>, t: Seq<char>, from: int)
    requires
        0 <= from,
    ensures
        first_aliased(reg, t, from) matches Some(i) ==> from <= i < reg.len()
            && reg[i].aliases.contains(t),
        first_aliased(reg, t, from) is None ==> forall|j: int|
            from <= j < reg.len() ==> !(#[trigger] reg[j].aliases).contains(t),
    decreases reg.len() - from,
{
    if 0 <= from < reg.len() && !reg[from].aliases.contains(t) {
        lemma_first_aliased(reg, t, from + 1);
    }
}

/// A resolved token selects a command of the registry.
pub proof fn lemma_resolve_in_range(reg: Seq<CommandView>, t: Seq<char>)
    ensures
        resolve(reg, t) matches Some(i) ==> 0 <= i < reg.len(),
{
    lemma_first_named(reg, t, 0);
    lemma_first_aliased(reg, t, 0);
}

proof fn lemma_wf_pair(reg: Seq<CommandView>, i: int, j: int, t: Seq<char>)
    requires
        registry_wf(reg),
        0 <= i < reg.len(),
        0 <= j < reg.len(),
        i != j,
    ensures
        reg[i].name != reg[j].name,
        !reg[j].aliases.contains(reg[i].name),
        reg[i].aliases.contains(t) ==> !reg[j].aliases.contains(t),
{
}

/// In a well-formed registry a command's name and each of its aliases
/// select that command and no other.
pub proof fn lemma_resolve_unique(reg: Seq<CommandView>, i: int, t: Seq<char>)
    requires
        registry_wf(reg),
        0 <= i < reg.len(),
        t == reg[i].name || reg[i].aliases.contains(t),
    ensures
        resolve(reg, t) == Some(i),
{
    lemma_first_named(reg, t, 0);
    lemma_first_aliased(reg, t, 0);
    if t == reg[i].name {
        if let Some(j) = first_named(reg, t, 0) {
            if j != i {
                lemma_wf_pair(reg, i, j, t);
            }
        }
    } else {
        match first_named(reg, t, 0) {
            Some(j) => {
                if j != i {
                    lemma_wf_pair(reg, j, i, t);
                }
            },
            None => {
                if let Some(j) = first_aliased(reg, t, 0) {
                    if j != i {
                        lemma_wf_pair(reg, i, j, t);
                    }
                }
            },
        }
    }
}

/// The largest accepted number of values, or zero when none is accepted.
pub open spec fn max_of(s: Seq<usize>) -> nat
    decreases s.len(),
{
    if s.len() == 0 {
        0
    } else {
        let m = max_of(s.drop_last());
        if s.last() as nat > m {
            s.last() as nat
        } else {
            m
        }
    }
}

fn contains_string(v: &Vec<String>, s: &String) -> (r: bool)
    ensures
        r == v.deep_view().contains(s@),
{
    let mut k: usize = 0;
    while k < v.len()
        invariant
            k <= v.len(),
            forall|j: int| 0 <= j < k ==> v@[j]@ != s@,
        decreases v.len() - k,
    {
        if v[k] == *s {
            assert(v.deep_view()[k as int] == s@);
            return true;
        }
        k = k + 1;
    }
    assert(!v.deep_view().contains(s@)) by {
        if v.deep_view().contains(s@) {
            let j = choose|j: int| 0 <= j < v.deep_view().len() && v.deep_view()[j] == s@;
            assert(v@[j]@ == s@);
        }
    }
    false
}

/// The index of the command whose aliases hold `arg`, if any.
pub fn check_alias(arg: &String, commands: &Vec<HelperCommand>) -> (r: Option<usize>)
    ensures
        index_of(r) == first_aliased(commands.deep_view(), arg@, 0),
        r matches Some(i) ==> i < commands.len(),
{
    let ghost reg = commands.deep_view();
    let mut i: usize = 0;
    while i < commands.len()
        invariant
            i <= commands.len(),
            reg == commands.deep_view(),
            first_aliased(reg, arg@, 0) == first_aliased(reg, arg@, i as int),
        decreases commands.len() - i,
    {
        if contains_string(&commands[i].aliases, arg) {
            return Some(i);
        }
        i = i + 1;
    }
    None
}

/// The index of the command that `arg` selects, by name first and then by alias.
pub fn cmd_exists(arg: &String, commands: &Vec<HelperCommand>) -> (r: Option<usize>)
    ensures
        index_of(r) == resolve(commands.deep_view(), arg@),
        r matches Some(i) ==> i < commands.len(),
{
    let ghost reg = commands.deep_view();
    let mut i: usize = 0;
    while i < commands.len()
        invariant
            i <= commands.len(),
            reg == commands.deep_view(),
            first_named(reg, arg@, 0) == first_named(reg, arg@, i as int),
        decreases commands.len() - i,
    {
        if commands[i].name == *arg {
            return Some(i);
        }
        i = i + 1;
    }
    check_alias(arg, commands)
}

/// The largest number of values that `cmd` accepts, or zero when it accepts none.
pub fn max_arity(cmd: &HelperCommand) -> (r: usize)
    ensures
        r == max_of(cmd.args@),
{
    let mut m: usize = 0;
    let mut i: usize = 0;
    while i < cmd.args.len()
        invariant
            i <= cmd.args.len(),
            m == max_of(cmd.args@.subrange(0, i as int)),
        decreases cmd.args.len() - i,
    {
        assert(cmd.args@.subrange(0, i + 1).drop_last() =~= cmd.args@.subrange(0, i as int));
        if cmd.args[i] > m {
            m = cmd.args[i];
        }
        i = i + 1;
    }
    assert(cmd.args@.subrange(0, i as int) =~= cmd.args@);
    m
}

/// The commands of the tool, with their aliases and accepted value counts.
pub open spec fn standard_table() -> Seq<CommandView> {
    seq![
        CommandView { name: "help"@, aliases: seq!["--help"@, "-h"@], args: seq![0usize] },
        CommandView { name: "version"@, aliases: seq!["--version"@, "-v"@, "v"@], args: seq![0usize] },
        CommandView { name: "xauth"@, aliases: seq!["xauthority"@, "xa"@, "--xauth"@], args: seq![1usize] },
        CommandView { name: "debug"@, aliases: seq!["debug"@, "--debug"@], args: seq![1usize] },
        CommandView { name: "display"@, aliases: seq!["dp"@, "--display"@], args: seq![1usize] },
        CommandView { name: "gpu"@, aliases: seq![], args: seq![1usize] },
        CommandView { name: "fan"@, aliases: seq![], args: seq![1usize, 2usize] },
        CommandView { name: "memoryoffset"@, aliases: seq!["moc"@, "--memoc"@, "--memory-offset"@], args: seq![1usize] },
        CommandView { name: "clockoffset"@, aliases: seq!["--clockoc"@, "--clock-offset"@], args: seq![1usize] },
        CommandView { name: "clock"@, aliases: seq!["lgc"@, "--clock"@], args: seq![1usize] },
        CommandView { name: "memory"@, aliases: seq!["lmc"@, "--memory"@], args: seq![1usize] },
        CommandView { name: "power"@, aliases: seq!["pl"@, "--power"@], args: seq![1usize] },
        CommandView { name: "reset"@, aliases: seq!["r"@, "--reset"@], args: seq![0usize] },
    ]
}

fn add_command(table: &mut Vec<HelperCommand>, name: String, aliases: Vec<String>, args: Vec<usize>)
    ensures
        final(table).deep_view() == old(table).deep_view().push(
            CommandView { name: name@, aliases: aliases.deep_view(), args: args@ },
        ),
{
    let ghost before = table.deep_view();
    let ghost v = CommandView { name: name@, aliases: aliases.deep_view(), args: args@ };
    table.push(new_command(name, aliases, args));
    assert(table.deep_view() =~= before.push(v));
}

/// Builds the tool's command table.
pub fn standard_commands() -> (r: Vec<HelperCommand>)
    ensures
        r.deep_view() == standard_table(),
        registry_wf(r.deep_view()),
{
    let mut table: Vec<HelperCommand> = Vec::new();
    let mut aliases: Vec<String> = Vec::new();
    aliases.push(String::from_str("--help"));
    aliases.push(String::from_str("-h"));
    let mut args: Vec<usize> = Vec::new();
    args.push(0);
    assert(aliases.deep_view() =~= seq!["--help"@, "-h"@]);
    assert(args@ =~= seq![0usize]);
    add_command(&mut table, String::from_str("help"), aliases, args);
    assert(table.deep_view() =~= standard_table().subrange(0, 1));
    let mut aliases: Vec<String> = Vec::new();
    aliases.push(String::from_str("--version"));
    aliases.push(String::from_str("-v"));
    aliases.push(String::from_str("v"));
    let mut args: Vec<usize> = Vec::new();
    args.push(0);
    assert(aliases.deep_view() =~= seq!["--version"@, "-v"@, "v"@]);
    assert(args@ =~= seq![0usize]);
    add_command(&mut table, String::from_str("version"), aliases, args);
    assert(table.deep_view() =~= standard_table().subrange(0, 2));
    let mut aliases: Vec<String> = Vec::new();
    aliases.push(String::from_str("xauthority"));
    aliases.push(String::from_str("xa"));
    aliases.push(String::from_str("--xauth"));
    let mut args: Vec<usize> = Vec::new();
    args.push(1);
    assert(aliases.deep_view() =~= seq!["xauthority"@, "xa"@, "--xauth"@]);
    assert(args@ =~= seq![1usize]);
    add_command(&mut table, String::from_str("xauth"), aliases, args);
    assert(table.deep_view() =~= standard_table().subrange(0, 3));
    let mut aliases: Vec<String> = Vec::new();
    aliases.push(String::from_str("debug"));
    aliases.push(String::from_str("--debug"));
    let mut args: Vec<usize> = Vec::new();
    args.push(1);
    assert(aliases.deep_view() =~= seq!["debug"@, "--debug"@]);
    assert(args@ =~= seq![1usize]);
    add_command(&mut table, String::from_str("debug"), aliases, args);
    assert(table.deep_view() =~= standard_table().subrange(0, 4));
    let mut aliases: Vec<String> = Vec::new();
    aliases.push(String::from_str("dp"));
    aliases.push(String::from_str("--display"));
    let mut args: Vec<usize> = Vec::new();
    args.push(1);
    assert(aliases.deep_view() =~= seq!["dp"@, "--display"@]);
    assert(args@ =~= seq![1usize]);
    add_command(&mut table, String::from_str("display"), aliases, args);
    assert(table.deep_view() =~= standard_table().subrange(0, 5));
    let mut aliases: Vec<String> = Vec::new();
    let mut args: Vec<usize> = Vec::new();
    args.push(1);
    assert(aliases.deep_view() =~= Seq::<Seq<char>>::empty());
    assert(args@ =~= seq![1usize]);
    add_command(&mut table, String::from_str("gpu"), aliases, args);
    assert(table.deep_view() =~= standard_table().subrange(0, 6));
    let mut aliases: Vec<String> = Vec::new();
    let mut args: Vec<usize> = Vec::new();
    args.push(1);
    args.push(2);
    assert(aliases.deep_view() =~= Seq::<Seq<char>>::empty());
    assert(args@ =~= seq![1usize, 2usize]);
    add_command(&mut table, String::from_str("fan"), aliases, args);
    assert(table.deep_view() =~= standard_table().subrange(0, 7));
    let mut aliases: Vec<String> = Vec::new();
    aliases.push(String::from_str("moc"));
    aliases.push(String::from_str("--memoc"));
    aliases.push(String::from_str("--memory-offset"));
    let mut args: Vec<usize> = Vec::new();
    args.push(1);
    assert(aliases.deep_view() =~= seq!["moc"@, "--memoc"@, "--memory-offset"@]);
    assert(args@ =~= seq![1usize]);
    add_command(&mut table, String::from_str("memoryoffset"), aliases, args);
    assert(table.deep_view() =~= standard_table().subrange(0, 8));
    let mut aliases: Vec<String> = Vec::new();
    aliases.push(String::from_str("--clockoc"));
    aliases.push(String::from_str("--clock-offset"));
    let mut args: Vec<usize> = Vec::new();
    args.push(1);
    assert(aliases.deep_view() =~= seq!["--clockoc"@, "--clock-offset"@]);
    assert(args@ =~= seq![1usize]);
    add_command(&mut table, String::from_str("clockoffset"), aliases, args);
    assert(table.deep_view() =~= standard_table().subrange(0, 9));
    let mut aliases: Vec<String> = Vec::new();
    aliases.push(String::from_str("lgc"));
    aliases.push(String::from_str("--clock"));
    let mut args: Vec<usize> = Vec::new();
    args.push(1);
    assert(aliases.deep_view() =~= seq!["lgc"@, "--clock"@]);
    assert(args@ =~= seq![1usize]);
    add_command(&mut table, String::from_str("clock"), aliases, args);
    assert(table.deep_view() =~= standard_table().subrange(0, 10));
    let mut aliases: Vec<String> = Vec::new();
    aliases.push(String::from_str("lmc"));
    aliases.push(String::from_str("--memory"));
    let mut args: Vec<usize> = Vec::new();
    args.push(1);
    assert(aliases.deep_view() =~= seq!["lmc"@, "--memory"@]);
    assert(args@ =~= seq![1usize]);
    add_command(&mut table, String::from_str("memory"), aliases, args);
    assert(table.deep_view() =~= standard_table().subrange(0, 11));
    let mut aliases: Vec<String> = Vec::new();
    aliases.push(String::from_str("pl"));
    aliases.push(String::from_str("--power"));
    let mut args: Vec<usize> = Vec::new();
    args.push(1);
    assert(aliases.deep_view() =~= seq!["pl"@, "--power"@]);
    assert(args@ =~= seq![1usize]);
    add_command(&mut table, String::from_str("power"), aliases, args);
    assert(table.deep_view() =~= standard_table().subrange(0, 12));
    let mut aliases: Vec<String> = Vec::new();
    aliases.push(String::from_str("r"));
    aliases.push(String::from_str("--reset"));
    let mut args: Vec<usize> = Vec::new();
    args.push(0);
    assert(aliases.deep_view() =~= seq!["r"@, "--reset"@]);
    assert(args@ =~= seq![0usize]);
    add_command(&mut table, String::from_str("reset"), aliases, args);
    assert(table.deep_view() =~= standard_table().subrange(0, 13));
    assert(standard_table().subrange(0, 13) =~= standard_table());
    proof {
        lemma_standard_table_wf();
    }
    table
}

/// The command of the tool's table that token `t` belongs to, or -1.
spec fn owner(t: Seq<char>) -> int {
    if t == "help"@ || t == "--help"@ || t == "-h"@ {
        0
    } else if t == "version"@ || t == "--version"@ || t == "-v"@ || t == "v"@ {
        1
    } else if t == "xauth"@ || t == "xauthority"@ || t == "xa"@ || t == "--xauth"@ {
        2
    } else if t == "debug"@ || t == "--debug"@ {
        3
    } else if t == "display"@ || t == "dp"@ || t == "--display"@ {
        4
    } else if t == "gpu"@ {
        5
    } else if t == "fan"@ {
        6
    } else if t == "memoryoffset"@ || t == "moc"@ || t == "--memoc"@ || t == "--memory-offset"@ {
        7
    } else if t == "clockoffset"@ || t == "--clockoc"@ || t == "--clock-offset"@ {
        8
    } else if t == "clock"@ || t == "lgc"@ || t == "--clock"@ {
        9
    } else if t == "memory"@ || t == "lmc"@ || t == "--memory"@ {
        10
    } else if t == "power"@ || t == "pl"@ || t == "--power"@ {
        11
    } else if t == "reset"@ || t == "r"@ || t == "--reset"@ {
        12
    } else {
        -1
    }
}

proof fn lemma_owners()
    ensures
        forall|i: int|
            0 <= i < standard_table().len() ==> owner(#[trigger] standard_table()[i].name) == i
                && forall|t: Seq<char>|
                standard_table()[i].aliases.contains(t) ==> owner(t) == i,
{
    reveal_strlit("--clock");
    reveal_strlit("--clock-offset");
    reveal_strlit("--clockoc");
    reveal_strlit("--debug");
    reveal_strlit("--display");
    reveal_strlit("--help");
    reveal_strlit("--memoc");
    reveal_strlit("--memory");
    reveal_strlit("--memory-offset");
    reveal_strlit("--power");
    reveal_strlit("--reset");
    reveal_strlit("--version");
    reveal_strlit("--xauth");
    reveal_strlit("-h");
    reveal_strlit("-v");
    reveal_strlit("clock");
    reveal_strlit("clockoffset");
    reveal_strlit("debug");
    reveal_strlit("display");
    reveal_strlit("dp");
    reveal_strlit("fan");
    reveal_strlit("gpu");
    reveal_strlit("help");
    reveal_strlit("lgc");
    reveal_strlit("lmc");
    reveal_strlit("memory");
    reveal_strlit("memoryoffset");
    reveal_strlit("moc");
    reveal_strlit("pl");
    reveal_strlit("power");
    reveal_strlit("r");
    reveal_strlit("reset");
    reveal_strlit("v");
    reveal_strlit("version");
    reveal_strlit("xa");
    reveal_strlit("xauth");
    reveal_strlit("xauthority");
    assert("--clock"@.len() == 7 && "--clock"@[0] == '-' && "--clock"@[1] == '-' && "--clock"@[2] == 'c');
    assert("--clock-offset"@.len() == 14 && "--clock-offset"@[0] == '-' && "--clock-offset"@[1] == '-' && "--clock-offset"@[2] == 'c');
    assert("--clockoc"@.len() == 9 && "--clockoc"@[0] == '-' && "--clockoc"@[1] == '-' && "--clockoc"@[2] == 'c');
    assert("--debug"@.len() == 7 && "--debug"@[0] == '-' && "--debug"@[1] == '-' && "--debug"@[2] == 'd');
    assert("--display"@.len() == 9 && "--display"@[0] == '-' && "--display"@[1] == '-' && "--display"@[2] == 'd');
    assert("--help"@.len() == 6 && "--help"@[0] == '-' && "--help"@[1] == '-' && "--help"@[2] == 'h');
    assert("--memoc"@.len() == 7 && "--memoc"@[0] == '-' && "--memoc"@[1] == '-' && "--memoc"@[2] == 'm');
    assert("--memory"@.len() == 8 && "--memory"@[0] == '-' && "--memory"@[1] == '-' && "--memory"@[2] == 'm');
    assert("--memory-offset"@.len() == 15 && "--memory-offset"@[0] == '-' && "--memory-offset"@[1] == '-' && "--memory-offset"@[2] == 'm');
    assert("--power"@.len() == 7 && "--power"@[0] == '-' && "--power"@[1] == '-' && "--power"@[2] == 'p');
    assert("--reset"@.len() == 7 && "--reset"@[0] == '-' && "--reset"@[1] == '-' && "--reset"@[2] == 'r');
    assert("--version"@.len() == 9 && "--version"@[0] == '-' && "--version"@[1] == '-' && "--version"@[2] == 'v');
    assert("--xauth"@.len() == 7 && "--xauth"@[0] == '-' && "--xauth"@[1] == '-' && "--xauth"@[2] == 'x');
    assert("-h"@.len() == 2 && "-h"@[0] == '-' && "-h"@[1] == 'h');
    assert("-v"@.len() == 2 && "-v"@[0] == '-' && "-v"@[1] == 'v');
    assert("clock"@.len() == 5 && "clock"@[0] == 'c' && "clock"@[1] == 'l' && "clock"@[2] == 'o');
    assert("clockoffset"@.len() == 11 && "clockoffset"@[0] == 'c' && "clockoffset"@[1] == 'l' && "clockoffset"@[2] == 'o');
    assert("debug"@.len() == 5 && "debug"@[0] == 'd' && "debug"@[1] == 'e' && "debug"@[2] == 'b');
    assert("display"@.len() == 7 && "display"@[0] == 'd' && "display"@[1] == 'i' && "display"@[2] == 's');
    assert("dp"@.len() == 2 && "dp"@[0] == 'd' && "dp"@[1] == 'p');
    assert("fan"@.len() == 3 && "fan"@[0] == 'f' && "fan"@[1] == 'a' && "fan"@[2] == 'n');
    assert("gpu"@.len() == 3 && "gpu"@[0] == 'g' && "gpu"@[1] == 'p' && "gpu"@[2] == 'u');
    assert("help"@.len() == 4 && "help"@[0] == 'h' && "help"@[1] == 'e' && "help"@[2] == 'l');
    assert("lgc"@.len() == 3 && "lgc"@[0] == 'l' && "lgc"@[1] == 'g' && "lgc"@[2] == 'c');
    assert("lmc"@.len() == 3 && "lmc"@[0] == 'l' && "lmc"@[1] == 'm' && "lmc"@[2] == 'c');
    assert("memory"@.len() == 6 && "memory"@[0] == 'm' && "memory"@[1] == 'e' && "memory"@[2] == 'm');
    assert("memoryoffset"@.len() == 12 && "memoryoffset"@[0] == 'm' && "memoryoffset"@[1] == 'e' && "memoryoffset"@[2] == 'm');
    assert("moc"@.len() == 3 && "moc"@[0] == 'm' && "moc"@[1] == 'o' && "moc"@[2] == 'c');
    assert("pl"@.len() == 2 && "pl"@[0] == 'p' && "pl"@[1] == 'l');
    assert("power"@.len() == 5 && "power"@[0] == 'p' && "power"@[1] == 'o' && "power"@[2] == 'w');
    assert("r"@.len() == 1 && "r"@[0] == 'r');
    assert("reset"@.len() == 5 && "reset"@[0] == 'r' && "reset"@[1] == 'e' && "reset"@[2] == 's');
    assert("v"@.len() == 1 && "v"@[0] == 'v');
    assert("version"@.len() == 7 && "version"@[0] == 'v' && "version"@[1] == 'e' && "version"@[2] == 'r');
    assert("xa"@.len() == 2 && "xa"@[0] == 'x' && "xa"@[1] == 'a');
    assert("xauth"@.len() == 5 && "xauth"@[0] == 'x' && "xauth"@[1] == 'a' && "xauth"@[2] == 'u');
    assert("xauthority"@.len() == 10 && "xauthority"@[0] == 'x' && "xauthority"@[1] == 'a' && "xauthority"@[2] == 'u');
    assert(owner("help"@) == 0);
    assert(owner("--help"@) == 0);
    assert(owner("-h"@) == 0);
    assert(owner("version"@) == 1);
    assert(owner("--version"@) == 1);
    assert(owner("-v"@) == 1);
    assert(owner("v"@) == 1);
    assert(owner("xauth"@) == 2);
    assert(owner("xauthority"@) == 2);
    assert(owner("xa"@) == 2);
    assert(owner("--xauth"@) == 2);
    assert(owner("debug"@) == 3);
    assert(owner("debug"@) == 3);
    assert(owner("--debug"@) == 3);
    assert(owner("display"@) == 4);
    assert(owner("dp"@) == 4);
    assert(owner("--display"@) == 4);
    assert(owner("gpu"@) == 5);
    assert(owner("fan"@) == 6);
    assert(owner("memoryoffset"@) == 7);
    assert(owner("moc"@) == 7);
    assert(owner("--memoc"@) == 7);
    assert(owner("--memory-offset"@) == 7);
    assert(owner("clockoffset"@) == 8);
    assert(owner("--clockoc"@) == 8);
    assert(owner("--clock-offset"@) == 8);
    assert(owner("clock"@) == 9);
    assert(owner("lgc"@) == 9);
    assert(owner("--clock"@) == 9);
    assert(owner("memory"@) == 10);
    assert(owner("lmc"@) == 10);
    assert(owner("--memory"@) == 10);
    assert(owner("power"@) == 11);
    assert(owner("pl"@) == 11);
    assert(owner("--power"@) == 11);
    assert(owner("reset"@) == 12);
    assert(owner("r"@) == 12);
    assert(owner("--reset"@) == 12);
    let reg = standard_table();
    assert forall|i: int| 0 <= i < reg.len() implies owner(#[trigger] reg[i].name) == i && forall|
        t: Seq<char>,
    | reg[i].aliases.contains(t) ==> owner(t) == i by {
        assert forall|t: Seq<char>| reg[i].aliases.contains(t) implies owner(t) == i by {
            let k = choose|k: int| 0 <= k < reg[i].aliases.len() && reg[i].aliases[k] == t;
            assert(0 <= k < 3);
        }
    }
}

/// The tool's command table gives every token at most one command.
pub proof fn lemma_standard_table_wf()
    ensures
        registry_wf(standard_table()),
{
    lemma_owners();
    let reg = standard_table();
    assert forall|i: int, j: int|
        #![trigger reg[i], reg[j]]
        0 <= i < reg.len() && 0 <= j < reg.len() && i != j implies {
            &&& reg[i].name != reg[j].name
            &&& !reg[j].aliases.contains(reg[i].name)
            &&& forall|t: Seq<char>| #[trigger]
                reg[i].aliases.contains(t) ==> !reg[j].aliases.contains(t)
        } by {
        assert(owner(reg[i].name) == i);
        assert(owner(reg[j].name) == j);
        assert(reg[i].name != reg[j].name);
        assert(!reg[j].aliases.contains(reg[i].name));
        assert forall|t: Seq<char>| #[trigger]
            reg[i].aliases.contains(t) implies !reg[j].aliases.contains(t) by {
            assert(owner(t) == i);
        }
    }
}

} // verus!
