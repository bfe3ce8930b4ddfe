//! The command line: what the options ask for.

use vstd::prelude::*;

use crate::environment::pair_texts;
use crate::text::{
    chars_of, first_of, law_texts_are_those_of_the_list, lemma_first_of, lemma_first_of_is, string_of,
    texts,
};

verus! {

/// The options of a command line, as they were given.
#[derive(Debug)]
pub struct Cli {
    /// Check whether a host is running for this user.
    pub check_host: bool,
    /// Start a host (foreground; ^C to stop).
    pub start_host: bool,
    /// Disable host command output while retaining error diagnostics.
    pub silent: bool,
    /// List the N most recent transcripts (default: 10).
    pub list: Option<Option<usize>>,
    /// Show a transcript by its name.
    pub print: bool,
    /// With `print`, follow the transcript as new entries arrive.
    pub follow: bool,
    /// Attach to the running host and render new transcripts live.
    pub attach: bool,
    /// Disable colors in attached output.
    pub no_color: bool,
    /// Use colors in attached output even when it does not go to a terminal.
    pub force_color: bool,
    /// Install, enable, and start the per-user service.
    pub install: bool,
    /// Run a tool server on standard input and output.
    pub mcp_stdio: bool,
    /// Identifier of the calling agent.
    pub whoami: Option<String>,
    /// Working directory of the command, as a path.
    pub dir: Option<Vec<u8>>,
    /// Environment overrides, in `VAR=value` form.
    pub env: Vec<String>,
    /// Send standard input to the command.
    pub read_stdin: bool,
    /// Kill the command if it is still running after this many seconds.
    pub timeout: u64,
    /// The command and its arguments, or the name of a transcript.
    pub args: Vec<String>,
}

/// Whether attached output is coloured.
#[derive(Debug, Clone, Copy, PartialEq, Eq, Structural)]
pub enum ColorChoice {
    Auto,
    Never,
    Always,
}

/// A command to run.
#[derive(Debug)]
pub struct RunArgs {
    pub whoami: String,
    /// The working directory, as a path.
    pub dir: Vec<u8>,
    /// Environment overrides, in the order in which they were given.
    pub envs: Vec<(String, String)>,
    pub argv: Vec<String>,
    pub read_stdin: bool,
    pub timeout: u64,
}

/// What [`RunArgs`] say.
#[verifier::ext_equal]
pub struct RunArgsView {
    pub whoami: Seq<char>,
    pub dir: Seq<u8>,
    pub envs: Seq<(Seq<char>, Seq<char>)>,
    pub argv: Seq<Seq<char>>,
    pub read_stdin: bool,
    pub timeout: u64,
}

impl View for RunArgs {
    type V = RunArgsView;

    open spec fn view(&self) -> RunArgsView {
        RunArgsView {
            whoami: self.whoami@,
            dir: self.dir@,
            envs: pair_texts(self.envs@),
            argv: texts(self.argv@),
            read_stdin: self.read_stdin,
            timeout: self.timeout,
        }
    }
}

/// What to do.
#[derive(Debug)]
pub enum Mode {
    Help,
    CheckHost,
    StartHost { silent: bool },
    List(usize),
    Print { name: String, follow: bool },
    Attach { color: ColorChoice },
    Install,
    Run(RunArgs),
    McpStdio { whoami: String },
}

/// What a [`Mode`] says.
#[verifier::ext_equal]
pub enum ModeView {
    Help,
    CheckHost,
    StartHost { silent: bool },
    List(usize),
    Print { name: Seq<char>, follow: bool },
    Attach { color: ColorChoice },
    Install,
    Run(RunArgsView),
    McpStdio { whoami: Seq<char> },
}

impl View for Mode {
    type V = ModeView;

    open spec fn view(&self) -> ModeView {
        match self {
            Mode::Help => ModeView::Help,
            Mode::CheckHost => ModeView::CheckHost,
            Mode::StartHost { silent } => ModeView::StartHost { silent: *silent },
            Mode::List(limit) => ModeView::List(*limit),
            Mode::Print { name, follow } => ModeView::Print { name: name@, follow: *follow },
            Mode::Attach { color } => ModeView::Attach { color: *color },
            Mode::Install => ModeView::Install,
            Mode::Run(args) => ModeView::Run(args@),
            Mode::McpStdio { whoami } => ModeView::McpStdio { whoami: whoami@ },
        }
    }
}

/// An environment override: the name before the first `=`, which must not be
/// empty, and the value behind it.
pub open spec fn env_override(entry: Seq<char>) -> Result<(Seq<char>, Seq<char>), Seq<char>> {
    let at = first_of(entry, '=');
    if at >= entry.len() {
        Err("--env requires VAR=value form, got: "@ + entry)
    } else if at == 0 {
        Err("--env name is empty: "@ + entry)
    } else {
        Ok((entry.take(at), entry.skip(at + 1)))
    }
}

/// `result` with `done` in front of it, if it is a list.
pub open spec fn continued<T, E>(done: Seq<T>, result: Result<Seq<T>, E>) -> Result<Seq<T>, E> {
    match result {
        Ok(rest) => Ok(done + rest),
        Err(e) => Err(e),
    }
}

/// The environment overrides of a list, or what is wrong with the first that is
/// none.
pub open spec fn env_overrides(entries: Seq<Seq<char>>) -> Result<
    Seq<(Seq<char>, Seq<char>)>,
    Seq<char>,
>
    decreases entries.len(),
{
    if entries.len() == 0 {
        Ok(Seq::empty())
    } else {
        match env_override(entries[0]) {
            Ok(pair) => continued(seq![pair], env_overrides(entries.drop_first())),
            Err(e) => Err(e),
        }
    }
}

/// The colours that the options ask for.
pub open spec fn color_choice(no_color: bool, force_color: bool) -> ColorChoice {
    if no_color {
        ColorChoice::Never
    } else if force_color {
        ColorChoice::Always
    } else {
        ColorChoice::Auto
    }
}

/// The command that the options ask for, or what is missing or wrong.
pub open spec fn run_mode(cli: Cli) -> Result<ModeView, Seq<char>> {
    if cli.whoami is None {
        Err("--whoami is required when running a command"@)
    } else if cli.dir is None {
        Err("--dir is required when running a command"@)
    } else if cli.args@.len() == 0 {
        Err("no command to run (pass it after `--`)"@)
    } else {
        match env_overrides(texts(cli.env@)) {
            Ok(envs) => Ok(
                ModeView::Run(
                    RunArgsView {
                        whoami: cli.whoami->0@,
                        dir: cli.dir->0@,
                        envs,
                        argv: texts(cli.args@),
                        read_stdin: cli.read_stdin,
                        timeout: cli.timeout,
                    },
                ),
            ),
            Err(e) => Err(e),
        }
    }
}

/// What the options ask for, or what is missing or wrong.
pub open spec fn mode_of(cli: Cli) -> Result<ModeView, Seq<char>> {
    if cli.check_host {
        Ok(ModeView::CheckHost)
    } else if cli.start_host {
        Ok(ModeView::StartHost { silent: cli.silent })
    } else if cli.list is Some {
        Ok(
            ModeView::List(
                match cli.list->0 {
                    Some(limit) => limit,
                    None => 10,
                },
            ),
        )
    } else if cli.attach {
        Ok(ModeView::Attach { color: color_choice(cli.no_color, cli.force_color) })
    } else if cli.install {
        Ok(ModeView::Install)
    } else if cli.print {
        if cli.args@.len() != 1 {
            Err("--print requires exactly one transcript name"@)
        } else {
            Ok(ModeView::Print { name: cli.args@[0]@, follow: cli.follow })
        }
    } else if cli.mcp_stdio {
        if cli.whoami is None {
            Err("--whoami is required with --mcp-stdio"@)
        } else if cli.args@.len() != 0 {
            Err("--mcp-stdio takes no positional arguments"@)
        } else {
            Ok(ModeView::McpStdio { whoami: cli.whoami->0@ })
        }
    } else {
        run_mode(cli)
    }
}

/// Whether a result says what is expected.
pub open spec fn says(r: Result<Mode, String>, expected: Result<ModeView, Seq<char>>) -> bool {
    match r {
        Ok(mode) => expected == Ok::<ModeView, Seq<char>>(mode@),
        Err(e) => expected == Err::<ModeView, Seq<char>>(e@),
    }
}

/// Splits an environment override.
fn parse_env(entry: &str) -> (r: Result<(String, String), String>)
    ensures
        match r {
            Ok(pair) => env_override(entry@) == Ok::<(Seq<char>, Seq<char>), Seq<char>>(
                (pair.0@, pair.1@),
            ),
            Err(e) => env_override(entry@) == Err::<(Seq<char>, Seq<char>), Seq<char>>(e@),
        },
{
    let chars = chars_of(entry);
    let mut at: usize = 0;
    while at < chars.len() && chars[at] != '='
        invariant
            at <= chars.len(),
            chars@ == entry@,
            forall|i: int| 0 <= i < at ==> #[trigger] entry@[i] != '=',
        decreases chars.len() - at,
    {
        at = at + 1;
    }
    proof {
        lemma_first_of_is(entry@, '=', at as int);
    }
    if at == chars.len() {
        let mut message = "--env requires VAR=value form, got: ".to_owned();
        message.append(entry);
        return Err(message);
    }
    if at == 0 {
        let mut message = "--env name is empty: ".to_owned();
        message.append(entry);
        return Err(message);
    }
    proof {
        assert(chars@.subrange(0, at as int) =~= entry@.take(at as int));
        assert(chars@.subrange(at + 1, chars@.len() as int) =~= entry@.skip(at + 1));
    }
    Ok((string_of(&chars, 0, at), string_of(&chars, at + 1, chars.len())))
}

fn parse_envs(entries: &Vec<String>) -> (r: Result<Vec<(String, String)>, String>)
    ensures
        match r {
            Ok(pairs) => env_overrides(texts(entries@)) == Ok::<
                Seq<(Seq<char>, Seq<char>)>,
                Seq<char>,
            >(pair_texts(pairs@)),
            Err(e) => env_overrides(texts(entries@)) == Err::<
                Seq<(Seq<char>, Seq<char>)>,
                Seq<char>,
            >(e@),
        },
{
    let mut pairs: Vec<(String, String)> = Vec::new();
    let mut i: usize = 0;
    let ghost all = texts(entries@);
    proof {
        assert(all.skip(0) =~= all);
        assert(pair_texts(pairs@) =~= Seq::empty());
        if let Ok(rest) = env_overrides(all) {
            assert(Seq::<(Seq<char>, Seq<char>)>::empty() + rest =~= rest);
        }
    }
    while i < entries.len()
        invariant
            i <= entries.len(),
            all == texts(entries@),
            env_overrides(all) == continued(
                pair_texts(pairs@),
                env_overrides(all.skip(i as int)),
            ),
        decreases entries.len() - i,
    {
        proof {
            assert(all.skip(i as int)[0] == entries@[i as int]@);
            assert(all.skip(i as int).drop_first() =~= all.skip(i + 1));
        }
        let ghost before = pair_texts(pairs@);
        match parse_env(entries[i].as_str()) {
            Ok(pair) => {
                let ghost shown = (pair.0@, pair.1@);
                pairs.push(pair);
                proof {
                    assert(pair_texts(pairs@) =~= before.push(shown));
                    if let Ok(rest) = env_overrides(all.skip(i + 1)) {
                        assert(before + (seq![shown] + rest) =~= before.push(shown) + rest);
                    }
                }
            },
            Err(e) => {
                return Err(e);
            },
        }
        i = i + 1;
    }
    proof {
        assert(all.skip(i as int) =~= Seq::empty());
        assert(pair_texts(pairs@) + Seq::<(Seq<char>, Seq<char>)>::empty() =~= pair_texts(pairs@));
    }
    Ok(pairs)
}

/// What the options ask for, or what is missing or wrong.
pub fn dispatch(cli: Cli) -> (r: Result<Mode, String>)
    ensures
        says(r, mode_of(cli)),
{
    if cli.check_host {
        return Ok(Mode::CheckHost);
    }
    if cli.start_host {
        return Ok(Mode::StartHost { silent: cli.silent });
    }
    if let Some(limit) = cli.list {
        return Ok(
            Mode::List(
                match limit {
                    Some(n) => n,
                    None => 10,
                },
            ),
        );
    }
    if cli.attach {
        let color = if cli.no_color {
            ColorChoice::Never
        } else if cli.force_color {
            ColorChoice::Always
        } else {
            ColorChoice::Auto
        };
        return Ok(Mode::Attach { color });
    }
    if cli.install {
        return Ok(Mode::Install);
    }
    if cli.print {
        if cli.args.len() != 1 {
            return Err("--print requires exactly one transcript name".to_owned());
        }
        return Ok(Mode::Print { name: cli.args[0].clone(), follow: cli.follow });
    }
    if cli.mcp_stdio {
        let whoami = match cli.whoami {
            Some(whoami) => whoami,
            None => {
                return Err("--whoami is required with --mcp-stdio".to_owned());
            },
        };
        if cli.args.len() != 0 {
            return Err("--mcp-stdio takes no positional arguments".to_owned());
        }
        return Ok(Mode::McpStdio { whoami });
    }
    let whoami = match cli.whoami {
        Some(whoami) => whoami,
        None => {
            return Err("--whoami is required when running a command".to_owned());
        },
    };
    let dir = match cli.dir {
        Some(dir) => dir,
        None => {
            return Err("--dir is required when running a command".to_owned());
        },
    };
    if cli.args.len() == 0 {
        return Err("no command to run (pass it after `--`)".to_owned());
    }
    let envs = match parse_envs(&cli.env) {
        Ok(envs) => envs,
        Err(e) => {
            return Err(e);
        },
    };
    Ok(
        Mode::Run(
            RunArgs {
                whoami,
                dir,
                envs,
                argv: cli.args,
                read_stdin: cli.read_stdin,
                timeout: cli.timeout,
            },
        ),
    )
}

/// The exit status that the operating system gets for an exit code: its lowest
/// eight bits.
pub fn exit_status(code: i32) -> (r: u8)
    ensures
        r == code as int % 256,
{
    let low: i32 = code & 0xff;
    assert(0 <= (code & 0xff) <= 255) by (bit_vector);
    assert((code & 0xff) == code % 256) by (bit_vector);
    low as u8
}

/// An override says what it was given: its name, the first `=`, and its value.
pub proof fn law_override_keeps_its_text(entry: Seq<char>)
    ensures
        env_override(entry) matches Ok((name, value)) ==> {
            &&& name.len() > 0
            &&& !name.contains('=')
            &&& entry == name + seq!['='] + value
        },
        env_override(entry) is Err <==> !entry.contains('=') || entry[0] == '=',
{
    lemma_first_of(entry, '=');
    let at = first_of(entry, '=');
    if at < entry.len() {
        assert(entry.contains('='));
        assert(entry =~= entry.take(at) + seq!['='] + entry.skip(at + 1));
        if entry.take(at).contains('=') {
            let i = choose|i: int| 0 <= i < at && entry.take(at)[i] == '=';
            assert(entry[i] == '=');
        }
        if at > 0 {
            assert(entry[0] != '=');
        }
    } else if entry.contains('=') {
        let i = choose|i: int| 0 <= i < entry.len() && entry[i] == '=';
        assert(entry[i] != '=');
    }
}

/// What a command line comes to carries the options that were given, as they were
/// given.
pub proof fn law_options_are_carried_over(cli: Cli, r: Result<Mode, String>)
    requires
        call_ensures(dispatch, (cli,), r),
    ensures
        r matches Ok(Mode::Print { name, follow }) ==> {
            &&& cli.print
            &&& follow == cli.follow
            &&& cli.args@.len() == 1
            &&& name@ == cli.args@[0]@
        },
        r matches Ok(Mode::StartHost { silent }) ==> cli.start_host && silent == cli.silent,
        r matches Ok(Mode::List(limit)) ==> {
            &&& cli.list is Some
            &&& cli.list->0 is Some ==> limit == cli.list->0->0
            &&& cli.list->0 is None ==> limit == 10
        },
        r matches Ok(Mode::Attach { color }) ==> {
            &&& cli.attach
            &&& color is Never <==> cli.no_color
            &&& color is Always <==> cli.force_color && !cli.no_color
        },
        r matches Ok(Mode::McpStdio { whoami }) ==> {
            &&& cli.mcp_stdio
            &&& cli.args@.len() == 0
            &&& cli.whoami is Some && whoami@ == cli.whoami->0@
        },
        r matches Ok(Mode::Run(run)) ==> {
            &&& cli.whoami is Some && run.whoami@ == cli.whoami->0@
            &&& cli.dir is Some && run.dir@ == cli.dir->0@
            &&& run.read_stdin == cli.read_stdin
            &&& run.timeout == cli.timeout
            &&& run.argv@.len() == cli.args@.len()
            &&& forall|i: int|
                0 <= i < run.argv@.len() ==> (#[trigger] run.argv@[i])@ == cli.args@[i]@
            &&& run.envs@.len() == cli.env@.len()
            &&& forall|i: int|
                0 <= i < run.envs@.len() ==> {
                    &&& (#[trigger] run.envs@[i]).0@.len() > 0
                    &&& !run.envs@[i].0@.contains('=')
                    &&& cli.env@[i]@ == run.envs@[i].0@ + seq!['='] + run.envs@[i].1@
                }
        },
        r matches Ok(Mode::CheckHost) ==> cli.check_host,
        r matches Ok(Mode::Install) ==> cli.install,
        !(r matches Ok(Mode::Help)),
{
    if let Ok(Mode::Run(run)) = r {
        law_texts_are_those_of_the_list(cli.args@);
        law_texts_are_those_of_the_list(run.argv@);
        law_texts_are_those_of_the_list(cli.env@);
        lemma_overrides(texts(cli.env@));
        let envs = pair_texts(run.envs@);
        assert forall|i: int| 0 <= i < run.argv@.len() implies (#[trigger] run.argv@[i])@
            == cli.args@[i]@ by {
            assert(run.argv@[i]@ == texts(run.argv@)[i]);
            assert(cli.args@[i]@ == texts(cli.args@)[i]);
        }
        assert forall|i: int| 0 <= i < run.envs@.len() implies {
            &&& (#[trigger] run.envs@[i]).0@.len() > 0
            &&& !run.envs@[i].0@.contains('=')
            &&& cli.env@[i]@ == run.envs@[i].0@ + seq!['='] + run.envs@[i].1@
        } by {
            assert(envs[i] == (run.envs@[i].0@, run.envs@[i].1@));
            assert(texts(cli.env@)[i] == cli.env@[i]@);
            law_override_keeps_its_text(cli.env@[i]@);
        }
    }
}

/// An option that is given alone is obeyed. What asks for nothing else is a command, and
/// is run exactly if it has an agent, a directory, a program and well-formed overrides.
/// Otherwise the first of these that is missing or wrong is named.
pub proof fn law_options_are_obeyed(cli: Cli, r: Result<Mode, String>)
    requires
        call_ensures(dispatch, (cli,), r),
    ensures
        cli.check_host ==> r matches Ok(Mode::CheckHost),
        cli.start_host && !cli.check_host ==> r is Ok && r->Ok_0 is StartHost,
        cli.list is Some && !cli.check_host && !cli.start_host ==> r is Ok && r->Ok_0 is List,
        cli.attach && !cli.check_host && !cli.start_host && cli.list is None ==> r is Ok
            && r->Ok_0 is Attach,
        cli.install && !cli.attach && !cli.check_host && !cli.start_host && cli.list is None
            ==> r matches Ok(Mode::Install),
        !cli.check_host && !cli.start_host && cli.list is None && !cli.attach && !cli.install ==> {
            &&& cli.print ==> if cli.args@.len() == 1 {
                r is Ok && r->Ok_0 is Print
            } else {
                r is Err && r->Err_0@ == "--print requires exactly one transcript name"@
            }
            &&& cli.mcp_stdio && !cli.print ==> if cli.whoami is None {
                r is Err && r->Err_0@ == "--whoami is required with --mcp-stdio"@
            } else if cli.args@.len() > 0 {
                r is Err && r->Err_0@ == "--mcp-stdio takes no positional arguments"@
            } else {
                r is Ok && r->Ok_0 is McpStdio
            }
            &&& !cli.print && !cli.mcp_stdio ==> if cli.whoami is None {
                r is Err && r->Err_0@ == "--whoami is required when running a command"@
            } else if cli.dir is None {
                r is Err && r->Err_0@ == "--dir is required when running a command"@
            } else if cli.args@.len() == 0 {
                r is Err && r->Err_0@ == "no command to run (pass it after `--`)"@
            } else if forall|i: int|
                0 <= i < cli.env@.len() ==> is_override(#[trigger] cli.env@[i]@) {
                r is Ok && r->Ok_0 is Run
            } else {
                r is Err && names_first_bad_override(r->Err_0@, cli.env@)
            }
        },
{
    law_texts_are_those_of_the_list(cli.env@);
    let entries = texts(cli.env@);
    lemma_overrides(entries);
    assert forall|i: int| 0 <= i < entries.len() implies is_override(#[trigger] cli.env@[i]@)
        == env_override(entries[i]) is Ok by {
        assert(entries[i] == cli.env@[i]@);
        law_override_keeps_its_text(entries[i]);
    }
    if let Err(e) = env_overrides(entries) {
        let k = choose|k: int|
            {
                &&& 0 <= k < entries.len()
                &&& env_override(#[trigger] entries[k]) == Err::<
                    (Seq<char>, Seq<char>),
                    Seq<char>,
                >(e)
                &&& forall|i: int| 0 <= i < k ==> env_override(#[trigger] entries[i]) is Ok
            };
        assert(entries[k] == cli.env@[k]@);
        assert(!is_override(cli.env@[k]@));
        lemma_bad_override(entries[k]);
        assert forall|i: int| 0 <= i < k implies is_override(#[trigger] cli.env@[i]@) by {
            assert(env_override(entries[i]) is Ok);
        }
    } else {
        assert forall|i: int| 0 <= i < cli.env@.len() implies is_override(
            #[trigger] cli.env@[i]@,
        ) by {
            assert(env_override(entries[i]) is Ok);
        }
    }
}

/// Whether an environment override has a name and a value: it holds a `=` that is not
/// its first character.
pub open spec fn is_override(entry: Seq<char>) -> bool {
    entry.contains('=') && entry[0] != '='
}

/// Whether a message says of the first entry that is no override what is wrong with it,
/// and ends with that entry.
pub open spec fn names_first_bad_override(message: Seq<char>, entries: Seq<String>) -> bool {
    exists|k: int|
        {
            &&& 0 <= k < entries.len()
            &&& !is_override(#[trigger] entries[k]@)
            &&& forall|i: int| 0 <= i < k ==> is_override(#[trigger] entries[i]@)
            &&& message == if entries[k]@.contains('=') {
                "--env name is empty: "@ + entries[k]@
            } else {
                "--env requires VAR=value form, got: "@ + entries[k]@
            }
        }
}

proof fn lemma_bad_override(entry: Seq<char>)
    requires
        env_override(entry) is Err,
    ensures
        env_override(entry)->Err_0 == if entry.contains('=') {
            "--env name is empty: "@ + entry
        } else {
            "--env requires VAR=value form, got: "@ + entry
        },
{
    lemma_first_of(entry, '=');
    if entry.contains('=') {
        let i = choose|i: int| 0 <= i < entry.len() && entry[i] == '=';
        assert(entry[i] == '=');
    }
}

proof fn lemma_overrides(entries: Seq<Seq<char>>)
    ensures
        env_overrides(entries) matches Ok(pairs) ==> {
            &&& pairs.len() == entries.len()
            &&& forall|i: int|
                0 <= i < entries.len() ==> env_override(#[trigger] entries[i]) == Ok::<
                    (Seq<char>, Seq<char>),
                    Seq<char>,
                >(pairs[i])
        },
        env_overrides(entries) matches Err(e) ==> exists|k: int|
            {
                &&& 0 <= k < entries.len()
                &&& env_override(#[trigger] entries[k]) == Err::<
                    (Seq<char>, Seq<char>),
                    Seq<char>,
                >(e)
                &&& forall|i: int| 0 <= i < k ==> env_override(#[trigger] entries[i]) is Ok
            },
    decreases entries.len(),
{
    if entries.len() > 0 {
        let tail = entries.drop_first();
        lemma_overrides(tail);
        match env_overrides(entries) {
            Ok(pairs) => {
                let rest = env_overrides(tail)->Ok_0;
                assert(pairs =~= seq![env_override(entries[0])->Ok_0] + rest);
                assert forall|i: int| 0 <= i < entries.len() implies env_override(
                    #[trigger] entries[i],
                ) == Ok::<(Seq<char>, Seq<char>), Seq<char>>(pairs[i]) by {
                    if i > 0 {
                        assert(tail[i - 1] == entries[i]);
                        assert(pairs[i] == rest[i - 1]);
                    }
                }
            },
            Err(e) => {
                if env_override(entries[0]) is Ok {
                    let k = choose|k: int|
                        {
                            &&& 0 <= k < tail.len()
                            &&& env_override(#[trigger] tail[k]) == Err::<
                                (Seq<char>, Seq<char>),
                                Seq<char>,
                            >(e)
                            &&& forall|i: int| 0 <= i < k ==> env_override(#[trigger] tail[i]) is Ok
                        };
                    assert(entries[k + 1] == tail[k]);
                    assert forall|i: int| 0 <= i < k + 1 implies env_override(
                        #[trigger] entries[i],
                    ) is Ok by {
                        if i > 0 {
                            assert(tail[i - 1] == entries[i]);
                        }
                    }
                } else {
                    assert(env_override(entries[0]) is Err);
                }
            },
        }
    }
}

/// The operating system gets the exit code as far as a status can tell it: every code
/// from 0 to 255 as it is, and any two codes that differ by a multiple of 256 alike.
pub proof fn law_exit_status(code: i32, status: u8)
    requires
        call_ensures(exit_status, (code,), status),
    ensures
        0 <= code <= 255 ==> status == code,
        exists|k: int| code == status + #[trigger] (256 * k),
{
    assert(code == status + 256 * (code as int / 256));
}

} // verus!
