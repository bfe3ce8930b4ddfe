//! What a command needs before it can be started on a terminal of its own, and
//! how its start can fail.

use vstd::prelude::*;
use vstd::utf8::encode_utf8;

use crate::environment::{overlaid, pair_texts};
use crate::output::append_bytes;
use crate::protocol::optional_text;
use crate::text::{chars_of, law_texts_are_those_of_the_list, texts};

verus! {

/// Rows of a command's terminal.
pub const PTY_ROWS: u16 = 24;

/// Columns of a command's terminal.
pub const PTY_COLS: u16 = 80;

/// Why a command could not be started.
#[derive(Debug)]
pub enum SpawnError {
    /// The named part of the request contains a NUL character.
    NulByte(&'static str),
    /// The name of an environment variable contains `=`.
    InvalidEnvName(String),
    /// The pipe for the child's error report could not be opened.
    Pipe(String),
    /// The child's standard input could not be opened.
    Stdin(String),
    /// The terminal could not be opened.
    Open(String),
    /// The terminal could not be configured.
    Termios(String),
    /// The child could not be forked.
    Fork(String),
}

/// What a [`SpawnError`] says.
#[verifier::ext_equal]
pub enum SpawnErrorView {
    NulByte(Seq<char>),
    InvalidEnvName(Seq<char>),
    Pipe(Seq<char>),
    Stdin(Seq<char>),
    Open(Seq<char>),
    Termios(Seq<char>),
    Fork(Seq<char>),
}

impl View for SpawnError {
    type V = SpawnErrorView;

    open spec fn view(&self) -> SpawnErrorView {
        match self {
            SpawnError::NulByte(field) => SpawnErrorView::NulByte(field@),
            SpawnError::InvalidEnvName(name) => SpawnErrorView::InvalidEnvName(name@),
            SpawnError::Pipe(reason) => SpawnErrorView::Pipe(reason@),
            SpawnError::Stdin(reason) => SpawnErrorView::Stdin(reason@),
            SpawnError::Open(reason) => SpawnErrorView::Open(reason@),
            SpawnError::Termios(reason) => SpawnErrorView::Termios(reason@),
            SpawnError::Fork(reason) => SpawnErrorView::Fork(reason@),
        }
    }
}

/// The message for a failed start.
pub open spec fn spawn_error_message(error: SpawnErrorView) -> Seq<char> {
    match error {
        SpawnErrorView::NulByte(field) => "PTY "@ + field + " contains a NUL byte"@,
        SpawnErrorView::InvalidEnvName(name) => "environment variable name contains '=': "@ + name,
        SpawnErrorView::Pipe(reason) => "failed to open errno pipe: "@ + reason,
        SpawnErrorView::Stdin(reason) => "failed to open child stdin: "@ + reason,
        SpawnErrorView::Open(reason) => "failed to open PTY: "@ + reason,
        SpawnErrorView::Termios(reason) => "failed to configure PTY termios: "@ + reason,
        SpawnErrorView::Fork(reason) => "failed to fork PTY child: "@ + reason,
    }
}

impl SpawnError {
    /// The message for people.
    pub fn message(&self) -> (r: String)
        ensures
            r@ == spawn_error_message(self@),
    {
        match self {
            SpawnError::NulByte(field) => {
                let mut s = "PTY ".to_owned();
                s.append(field);
                s.append(" contains a NUL byte");
                s
            },
            SpawnError::InvalidEnvName(name) => "environment variable name contains '=': ".to_owned().concat(
                name.as_str(),
            ),
            SpawnError::Pipe(reason) => "failed to open errno pipe: ".to_owned().concat(
                reason.as_str(),
            ),
            SpawnError::Stdin(reason) => "failed to open child stdin: ".to_owned().concat(
                reason.as_str(),
            ),
            SpawnError::Open(reason) => "failed to open PTY: ".to_owned().concat(reason.as_str()),
            SpawnError::Termios(reason) => "failed to configure PTY termios: ".to_owned().concat(
                reason.as_str(),
            ),
            SpawnError::Fork(reason) => "failed to fork PTY child: ".to_owned().concat(
                reason.as_str(),
            ),
        }
    }
}

/// What is wrong with the arguments of a command, if anything is.
pub open spec fn argv_problem(argv: Seq<Seq<char>>) -> Option<SpawnErrorView> {
    if argv.len() == 0 {
        Some(SpawnErrorView::NulByte("argv"@))
    } else if argv[0].contains('\0') {
        Some(SpawnErrorView::NulByte("program"@))
    } else if exists|i: int| 0 <= i < argv.len() && (#[trigger] argv[i]).contains('\0') {
        Some(SpawnErrorView::NulByte("argument"@))
    } else {
        None
    }
}

/// What is wrong with one environment variable, if anything is.
pub open spec fn env_problem(pair: (Seq<char>, Seq<char>)) -> Option<SpawnErrorView> {
    if pair.0.contains('=') {
        Some(SpawnErrorView::InvalidEnvName(pair.0))
    } else if pair.0.contains('\0') {
        Some(SpawnErrorView::NulByte("env name"@))
    } else if pair.1.contains('\0') {
        Some(SpawnErrorView::NulByte("env value"@))
    } else {
        None
    }
}

/// What is wrong with the first environment variable with which anything is.
pub open spec fn envs_problem(envs: Seq<(Seq<char>, Seq<char>)>) -> Option<SpawnErrorView>
    decreases envs.len(),
{
    if envs.len() == 0 {
        None
    } else if env_problem(envs[0]) is Some {
        env_problem(envs[0])
    } else {
        envs_problem(envs.drop_first())
    }
}

/// What is wrong with a command, looking at its arguments, its environment and
/// its directory in this order.
pub open spec fn spawn_problem(
    argv: Seq<Seq<char>>,
    envs: Seq<(Seq<char>, Seq<char>)>,
    cwd: Seq<char>,
) -> Option<SpawnErrorView> {
    if argv_problem(argv) is Some {
        argv_problem(argv)
    } else if envs_problem(envs) is Some {
        envs_problem(envs)
    } else if cwd.contains('\0') {
        Some(SpawnErrorView::NulByte("cwd"@))
    } else {
        None
    }
}

/// Whether the character stands in the text.
fn holds_char(s: &str, c: char) -> (r: bool)
    ensures
        r == s@.contains(c),
{
    let chars = chars_of(s);
    let mut i: usize = 0;
    while i < chars.len()
        invariant
            i <= chars.len(),
            chars@ == s@,
            forall|k: int| 0 <= k < i ==> s@[k] != c,
        decreases chars.len() - i,
    {
        if chars[i] == c {
            assert(s@[i as int] == c);
            return true;
        }
        i = i + 1;
    }
    false
}

/// Checks that a command can be handed to the operating system: that it names a
/// program, that no text holds a NUL character, and that no name of an
/// environment variable holds `=`.
pub fn check_spawn(argv: &Vec<String>, envs: &Vec<(String, String)>, cwd: &str) -> (r: Result<
    (),
    SpawnError,
>)
    ensures
        match r {
            Ok(()) => spawn_problem(texts(argv@), pair_texts(envs@), cwd@) is None,
            Err(error) => spawn_problem(texts(argv@), pair_texts(envs@), cwd@) == Some(error@),
        },
{
    if argv.len() == 0 {
        return Err(SpawnError::NulByte("argv"));
    }
    let ghost words = texts(argv@);
    assert(words[0] == argv@[0]@);
    if holds_char(argv[0].as_str(), '\0') {
        return Err(SpawnError::NulByte("program"));
    }
    let mut i: usize = 0;
    while i < argv.len()
        invariant
            i <= argv.len(),
            words == texts(argv@),
            words.len() > 0,
            !words[0].contains('\0'),
            forall|k: int| 0 <= k < i ==> !(#[trigger] words[k]).contains('\0'),
        decreases argv.len() - i,
    {
        assert(words[i as int] == argv@[i as int]@);
        if holds_char(argv[i].as_str(), '\0') {
            return Err(SpawnError::NulByte("argument"));
        }
        i = i + 1;
    }
    assert(argv_problem(words) is None);
    let ghost pairs = pair_texts(envs@);
    let mut j: usize = 0;
    assert(pairs.skip(0) =~= pairs);
    while j < envs.len()
        invariant
            j <= envs.len(),
            words == texts(argv@),
            pairs == pair_texts(envs@),
            argv_problem(words) is None,
            envs_problem(pairs.skip(j as int)) == envs_problem(pairs),
        decreases envs.len() - j,
    {
        proof {
            assert(pairs.skip(j as int)[0] == (envs@[j as int].0@, envs@[j as int].1@));
            assert(pairs.skip(j as int).drop_first() =~= pairs.skip(j + 1));
        }
        if holds_char(envs[j].0.as_str(), '=') {
            return Err(SpawnError::InvalidEnvName(envs[j].0.clone()));
        }
        if holds_char(envs[j].0.as_str(), '\0') {
            return Err(SpawnError::NulByte("env name"));
        }
        if holds_char(envs[j].1.as_str(), '\0') {
            return Err(SpawnError::NulByte("env value"));
        }
        j = j + 1;
    }
    if holds_char(cwd, '\0') {
        return Err(SpawnError::NulByte("cwd"));
    }
    Ok(())
}

/// Where a forked child failed on its way to the program.
#[derive(Clone, Copy, Debug, PartialEq, Eq, Structural)]
pub enum FailureStage {
    /// While setting up standard input, the directory or the environment.
    Setup,
    /// While executing the program.
    Exec,
}

/// A forked child's report that it did not reach the program.
#[derive(Clone, Copy, Debug, PartialEq, Eq, Structural)]
pub struct ChildFailure {
    pub stage: FailureStage,
    /// The operating system's error number.
    pub errno: i32,
}

/// Where a command's standard input comes from.
#[derive(Debug)]
pub enum StdinSource {
    /// `/dev/null`.
    Null,
    /// A pipe that gives these bytes and then ends.
    Pipe(Vec<u8>),
}

/// The standard input of a command: a pipe with the given text, even if it is
/// empty, and `/dev/null` without one.
pub fn stdin_source(stdin: &Option<String>) -> (r: StdinSource)
    ensures
        match optional_text(*stdin) {
            Some(text) => r matches StdinSource::Pipe(bytes) && bytes@ == encode_utf8(text),
            None => r is Null,
        },
{
    match stdin {
        Some(text) => {
            let mut bytes: Vec<u8> = Vec::new();
            append_bytes(&mut bytes, text.as_str().as_bytes());
            assert(bytes@ =~= encode_utf8(text@));
            StdinSource::Pipe(bytes)
        },
        None => StdinSource::Null,
    }
}

/// A step of a forked child on its way to the program.
#[derive(Debug)]
pub enum ChildStep {
    /// Make the prepared source its standard input.
    AttachStdin,
    /// Change to the directory.
    ChangeDir,
    /// Drop the whole environment.
    ClearEnv,
    /// Set a variable, in place of any value that it had.
    SetEnv { name: String, value: String },
    /// Execute the program.
    Execute,
}

/// What a [`ChildStep`] says.
#[verifier::ext_equal]
pub enum ChildStepView {
    AttachStdin,
    ChangeDir,
    ClearEnv,
    SetEnv { name: Seq<char>, value: Seq<char> },
    Execute,
}

impl View for ChildStep {
    type V = ChildStepView;

    open spec fn view(&self) -> ChildStepView {
        match self {
            ChildStep::AttachStdin => ChildStepView::AttachStdin,
            ChildStep::ChangeDir => ChildStepView::ChangeDir,
            ChildStep::ClearEnv => ChildStepView::ClearEnv,
            ChildStep::SetEnv { name, value } => ChildStepView::SetEnv {
                name: name@,
                value: value@,
            },
            ChildStep::Execute => ChildStepView::Execute,
        }
    }
}

/// The steps that set the given variables.
pub open spec fn set_steps(envs: Seq<(Seq<char>, Seq<char>)>) -> Seq<ChildStepView> {
    envs.map_values(
        |pair: (Seq<char>, Seq<char>)| ChildStepView::SetEnv { name: pair.0, value: pair.1 },
    )
}

/// The steps before a child sets variables.
pub open spec fn first_steps(clear_env: bool) -> Seq<ChildStepView> {
    if clear_env {
        seq![ChildStepView::AttachStdin, ChildStepView::ChangeDir, ChildStepView::ClearEnv]
    } else {
        seq![ChildStepView::AttachStdin, ChildStepView::ChangeDir]
    }
}

/// All steps of a child, in order.
pub open spec fn child_plan(envs: Seq<(Seq<char>, Seq<char>)>, clear_env: bool) -> Seq<
    ChildStepView,
> {
    first_steps(clear_env) + set_steps(envs) + seq![ChildStepView::Execute]
}

/// The steps as they are seen.
pub open spec fn step_views(steps: Seq<ChildStep>) -> Seq<ChildStepView> {
    steps.map_values(|step: ChildStep| step@)
}

/// The steps of a child, in order: its standard input, its directory, its
/// environment and its program.
pub fn plan_child(envs: &Vec<(String, String)>, clear_env: bool) -> (r: Vec<ChildStep>)
    ensures
        step_views(r@) == child_plan(pair_texts(envs@), clear_env),
{
    let mut steps: Vec<ChildStep> = Vec::new();
    steps.push(ChildStep::AttachStdin);
    steps.push(ChildStep::ChangeDir);
    if clear_env {
        steps.push(ChildStep::ClearEnv);
    }
    let ghost pairs = pair_texts(envs@);
    let ghost first = first_steps(clear_env);
    let mut i: usize = 0;
    proof {
        assert(step_views(steps@) =~= first);
        assert(first + set_steps(pairs.take(0)) =~= first);
    }
    while i < envs.len()
        invariant
            i <= envs.len(),
            pairs == pair_texts(envs@),
            step_views(steps@) == first + set_steps(pairs.take(i as int)),
        decreases envs.len() - i,
    {
        let ghost before = step_views(steps@);
        steps.push(ChildStep::SetEnv { name: envs[i].0.clone(), value: envs[i].1.clone() });
        proof {
            let set = ChildStepView::SetEnv { name: pairs[i as int].0, value: pairs[i as int].1 };
            assert(step_views(steps@) =~= before.push(set));
            assert(set_steps(pairs.take(i + 1)) =~= set_steps(pairs.take(i as int)).push(set));
            assert(before.push(set) =~= first + set_steps(pairs.take(i + 1)));
        }
        i = i + 1;
    }
    let ghost before = step_views(steps@);
    steps.push(ChildStep::Execute);
    proof {
        assert(pairs.take(i as int) =~= pairs);
        assert(step_views(steps@) =~= before.push(ChildStepView::Execute));
        assert(before.push(ChildStepView::Execute) =~= child_plan(pairs, clear_env));
    }
    steps
}

/// What a failed step is reported as: only the program itself can be missing.
pub open spec fn stage_of(step: ChildStepView) -> FailureStage {
    if step is Execute {
        FailureStage::Exec
    } else {
        FailureStage::Setup
    }
}

/// What a failed step is reported as.
pub fn failure_stage(step: &ChildStep) -> (r: FailureStage)
    ensures
        r == stage_of(step@),
{
    match step {
        ChildStep::Execute => FailureStage::Exec,
        _ => FailureStage::Setup,
    }
}

/// The environment behind a step.
pub open spec fn env_after_step(
    env: Map<Seq<char>, Seq<char>>,
    step: ChildStepView,
) -> Map<Seq<char>, Seq<char>> {
    match step {
        ChildStepView::ClearEnv => Map::empty(),
        ChildStepView::SetEnv { name, value } => env.insert(name, value),
        _ => env,
    }
}

/// The environment behind some steps.
pub open spec fn env_after(
    env: Map<Seq<char>, Seq<char>>,
    steps: Seq<ChildStepView>,
) -> Map<Seq<char>, Seq<char>>
    decreases steps.len(),
{
    if steps.len() == 0 {
        env
    } else {
        env_after_step(env_after(env, steps.drop_last()), steps.last())
    }
}

/// A command inherits the host's environment, or nothing if it is to be cleared,
/// and the variables of its request are added to that or take its place.
pub proof fn law_child_environment(
    inherited: Map<Seq<char>, Seq<char>>,
    envs: Seq<(Seq<char>, Seq<char>)>,
    clear_env: bool,
)
    ensures
        env_after(inherited, child_plan(envs, clear_env)) == if clear_env {
            overlaid(envs)
        } else {
            inherited.union_prefer_right(overlaid(envs))
        },
{
    let start = if clear_env {
        Map::empty()
    } else {
        inherited
    };
    let first = first_steps(clear_env);
    reveal_with_fuel(env_after, 4);
    assert(env_after(inherited, first) == start) by {
        if clear_env {
            assert(first.last() is ClearEnv);
        } else {
            assert(first.drop_last().drop_last() =~= Seq::empty());
        }
    }
    lemma_env_after_sets(inherited, first, envs);
    let plan = child_plan(envs, clear_env);
    assert(plan.drop_last() =~= first + set_steps(envs));
    assert(plan.last() is Execute);
    assert(start.union_prefer_right(overlaid(envs)) =~= if clear_env {
        overlaid(envs)
    } else {
        inherited.union_prefer_right(overlaid(envs))
    });
}

proof fn lemma_env_after_sets(
    inherited: Map<Seq<char>, Seq<char>>,
    first: Seq<ChildStepView>,
    envs: Seq<(Seq<char>, Seq<char>)>,
)
    ensures
        env_after(inherited, first + set_steps(envs)) == env_after(
            inherited,
            first,
        ).union_prefer_right(overlaid(envs)),
    decreases envs.len(),
{
    let start = env_after(inherited, first);
    if envs.len() == 0 {
        assert(first + set_steps(envs) =~= first);
        assert(start.union_prefer_right(overlaid(envs)) =~= start);
    } else {
        lemma_env_after_sets(inherited, first, envs.drop_last());
        let steps = first + set_steps(envs);
        assert(steps.drop_last() =~= first + set_steps(envs.drop_last()));
        assert(start.union_prefer_right(overlaid(envs)) =~= start.union_prefer_right(
            overlaid(envs.drop_last()),
        ).insert(envs.last().0, envs.last().1));
    }
}

/// The byte that stands for a stage.
pub open spec fn stage_byte(stage: FailureStage) -> u8 {
    match stage {
        FailureStage::Setup => 1,
        FailureStage::Exec => 2,
    }
}

/// The unsigned number with the same bits.
pub open spec fn errno_bits(errno: i32) -> u32 {
    errno as u32
}

/// A report on the wire: the stage, then the error number, lowest byte first.
pub open spec fn failure_bytes(failure: ChildFailure) -> Seq<u8> {
    let u = errno_bits(failure.errno);
    seq![
        stage_byte(failure.stage),
        (u & 0xff) as u8,
        ((u >> 8) & 0xff) as u8,
        ((u >> 16) & 0xff) as u8,
        ((u >> 24) & 0xff) as u8,
    ]
}

/// The bytes of a report.
pub fn encode_failure(failure: ChildFailure) -> (r: [u8; 5])
    ensures
        r@ == failure_bytes(failure),
{
    let u = failure.errno as u32;
    let stage: u8 = match failure.stage {
        FailureStage::Setup => 1,
        FailureStage::Exec => 2,
    };
    let r: [u8; 5] = [
        stage,
        (u & 0xff) as u8,
        ((u >> 8) & 0xff) as u8,
        ((u >> 16) & 0xff) as u8,
        ((u >> 24) & 0xff) as u8,
    ];
    assert(r@ =~= failure_bytes(failure));
    r
}

/// The report that the bytes from a child's pipe hold. A child that reached its
/// program sends none, and a report that was cut short counts as none.
pub fn decode_failure(bytes: &[u8]) -> (r: Option<ChildFailure>)
    ensures
        match r {
            Some(failure) => bytes@ == failure_bytes(failure),
            None => forall|any: ChildFailure| bytes@ != #[trigger] failure_bytes(any),
        },
{
    if bytes.len() != 5 {
        return None;
    }
    let stage = match bytes[0] {
        1 => FailureStage::Setup,
        2 => FailureStage::Exec,
        _ => {
            proof {
                assert forall|failure: ChildFailure| bytes@ != #[trigger] failure_bytes(failure) by {
                    assert(failure_bytes(failure)[0] == stage_byte(failure.stage));
                }
            }
            return None;
        },
    };
    let (a, b, c, d) = (bytes[1], bytes[2], bytes[3], bytes[4]);
    let u: u32 = (a as u32) | ((b as u32) << 8) | ((c as u32) << 16) | ((d as u32) << 24);
    let errno = u as i32;
    proof {
        assert(((u as i32) as u32) == u) by (bit_vector);
        assert(u == (a as u32) | ((b as u32) << 8) | ((c as u32) << 16) | ((d as u32) << 24) ==> {
            &&& (u & 0xff) as u8 == a
            &&& ((u >> 8) & 0xff) as u8 == b
            &&& ((u >> 16) & 0xff) as u8 == c
            &&& ((u >> 24) & 0xff) as u8 == d
        }) by (bit_vector);
        assert(bytes@ =~= failure_bytes(ChildFailure { stage, errno }));
    }
    Some(ChildFailure { stage, errno })
}

/// A report is read back as it was sent: no two reports share their bytes.
pub proof fn law_failure_reads_back(a: ChildFailure, b: ChildFailure)
    ensures
        failure_bytes(a) == failure_bytes(b) ==> a == b,
{
    if failure_bytes(a) == failure_bytes(b) {
        let (x, y) = (failure_bytes(a), failure_bytes(b));
        let (u, v) = (errno_bits(a.errno), errno_bits(b.errno));
        assert(x[0] == y[0] && x[1] == y[1] && x[2] == y[2] && x[3] == y[3] && x[4] == y[4]);
        assert((u & 0xff) as u8 == (v & 0xff) as u8 && ((u >> 8) & 0xff) as u8 == ((v >> 8)
            & 0xff) as u8 && ((u >> 16) & 0xff) as u8 == ((v >> 16) & 0xff) as u8 && ((u >> 24)
            & 0xff) as u8 == ((v >> 24) & 0xff) as u8 ==> u == v) by (bit_vector);
        let (m, n) = (a.errno, b.errno);
        assert((m as u32) == (n as u32) ==> m == n) by (bit_vector);
    }
}

/// How the operating system spells the control flags of a terminal.
#[derive(Clone, Copy, Debug)]
pub struct ControlBits {
    /// Mask of the character size.
    pub csize: u64,
    /// Parity generation.
    pub parenb: u64,
    /// Enabled receiver.
    pub cread: u64,
    /// A character size of eight bits.
    pub cs8: u64,
}

/// The control flags of a command's terminal: as they were, but with eight-bit
/// characters, without parity, and with the receiver enabled.
pub fn control_flags(current: u64, bits: ControlBits) -> (r: u64)
    ensures
        r == (current & !(bits.csize | bits.parenb)) | (bits.cread | bits.cs8),
{
    (current & !(bits.csize | bits.parenb)) | (bits.cread | bits.cs8)
}

/// A command can be started exactly if it has a program, no NUL character stands in it,
/// its directory or its environment, and no `=` in the name of a variable.
pub proof fn law_what_can_be_started(
    argv: Vec<String>,
    envs: Vec<(String, String)>,
    cwd: &str,
    r: Result<(), SpawnError>,
)
    requires
        call_ensures(check_spawn, (&argv, &envs, cwd), r),
    ensures
        r is Ok <==> {
            &&& argv@.len() > 0
            &&& forall|i: int| 0 <= i < argv@.len() ==> !(#[trigger] argv@[i])@.contains('\0')
            &&& forall|i: int|
                0 <= i < envs@.len() ==> {
                    &&& !(#[trigger] envs@[i]).0@.contains('=')
                    &&& !envs@[i].0@.contains('\0')
                    &&& !envs@[i].1@.contains('\0')
                }
            &&& !cwd@.contains('\0')
        },
{
    let words = texts(argv@);
    let pairs = pair_texts(envs@);
    law_texts_are_those_of_the_list(argv@);
    lemma_envs_problem(pairs);
    if r is Ok {
        assert forall|i: int| 0 <= i < argv@.len() implies !(#[trigger] argv@[i])@.contains(
            '\0',
        ) by {
            assert(!words[i].contains('\0'));
        }
        assert forall|i: int| 0 <= i < envs@.len() implies {
            &&& !(#[trigger] envs@[i]).0@.contains('=')
            &&& !envs@[i].0@.contains('\0')
            &&& !envs@[i].1@.contains('\0')
        } by {
            assert(env_problem(pairs[i]) is None);
        }
    } else {
        if argv_problem(words) is Some && argv@.len() > 0 {
            let i = choose|i: int| 0 <= i < words.len() && (#[trigger] words[i]).contains('\0');
            assert(argv@[i]@.contains('\0'));
        } else if envs_problem(pairs) is Some {
            let i = choose|i: int| 0 <= i < pairs.len() && env_problem(#[trigger] pairs[i]) is Some;
            assert(pairs[i] == (envs@[i].0@, envs@[i].1@));
        }
    }
}

proof fn lemma_envs_problem(envs: Seq<(Seq<char>, Seq<char>)>)
    ensures
        envs_problem(envs) is Some <==> exists|i: int|
            0 <= i < envs.len() && env_problem(#[trigger] envs[i]) is Some,
    decreases envs.len(),
{
    if envs.len() > 0 {
        let tail = envs.drop_first();
        lemma_envs_problem(tail);
        if env_problem(envs[0]) is None {
            if envs_problem(tail) is Some {
                let i = choose|i: int| 0 <= i < tail.len() && env_problem(#[trigger] tail[i]) is Some;
                assert(envs[i + 1] == tail[i]);
            }
            if exists|i: int| 0 <= i < envs.len() && env_problem(#[trigger] envs[i]) is Some {
                let i = choose|i: int| 0 <= i < envs.len() && env_problem(#[trigger] envs[i]) is Some;
                assert(tail[i - 1] == envs[i]);
            }
        }
    }
}

/// What is wrong with a command is named: the first of its parts in which anything is,
/// and of a variable with `=` in its name the name.
pub proof fn law_problems_are_named(
    argv: Vec<String>,
    envs: Vec<(String, String)>,
    cwd: &str,
    r: Result<(), SpawnError>,
)
    requires
        call_ensures(check_spawn, (&argv, &envs, cwd), r),
        r is Err,
    ensures
        argv@.len() == 0 ==> r->Err_0@ == SpawnErrorView::NulByte("argv"@),
        argv@.len() > 0 && argv@[0]@.contains('\0') ==> r->Err_0@ == SpawnErrorView::NulByte(
            "program"@,
        ),
        argv@.len() > 0 && !argv@[0]@.contains('\0') && (exists|i: int|
            0 <= i < argv@.len() && (#[trigger] argv@[i])@.contains('\0')) ==> r->Err_0@
            == SpawnErrorView::NulByte("argument"@),
        r->Err_0@ matches SpawnErrorView::InvalidEnvName(name) ==> exists|i: int|
            0 <= i < envs@.len() && (#[trigger] envs@[i]).0@ == name && name.contains('='),
        r->Err_0@ == SpawnErrorView::NulByte("cwd"@) ==> cwd@.contains('\0'),
{
    let words = texts(argv@);
    let pairs = pair_texts(envs@);
    law_texts_are_those_of_the_list(argv@);
    reveal_strlit("argv");
    reveal_strlit("program");
    reveal_strlit("argument");
    reveal_strlit("env name");
    reveal_strlit("env value");
    reveal_strlit("cwd");
    assert("cwd"@.len() == 3 && "argv"@.len() == 4 && "program"@.len() == 7 && "argument"@.len()
        == 8 && "env name"@.len() == 8 && "env value"@.len() == 9);
    if argv@.len() > 0 {
        assert(words[0] == argv@[0]@);
        if exists|i: int| 0 <= i < argv@.len() && (#[trigger] argv@[i])@.contains('\0') {
            let i = choose|i: int| 0 <= i < argv@.len() && (#[trigger] argv@[i])@.contains('\0');
            assert(words[i].contains('\0'));
        }
    }
    if argv_problem(words) is None && envs_problem(pairs) is Some {
        let i = lemma_first_problem(pairs);
        assert(pairs[i] == (envs@[i].0@, envs@[i].1@));
        assert(envs@[i].0@ == pairs[i].0);
    }
}

proof fn lemma_first_problem(envs: Seq<(Seq<char>, Seq<char>)>) -> (at: int)
    requires
        envs_problem(envs) is Some,
    ensures
        0 <= at < envs.len(),
        envs_problem(envs) == env_problem(envs[at]),
    decreases envs.len(),
{
    if env_problem(envs[0]) is Some {
        0
    } else {
        let at = lemma_first_problem(envs.drop_first());
        assert(envs.drop_first()[at] == envs[at + 1]);
        at + 1
    }
}

/// The message for a failed start ends in its reason, or names the part with the NUL
/// character.
pub proof fn law_messages_tell_the_reason(error: SpawnError, message: String)
    requires
        call_ensures(SpawnError::message, (&error,), message),
    ensures
        error matches SpawnError::NulByte(field) ==> message@ == "PTY "@ + field@
            + " contains a NUL byte"@,
        error matches SpawnError::InvalidEnvName(name) ==> message@
            == "environment variable name contains '=': "@ + name@,
        error matches SpawnError::Pipe(reason) ==> message@ == "failed to open errno pipe: "@
            + reason@,
        error matches SpawnError::Stdin(reason) ==> message@ == "failed to open child stdin: "@
            + reason@,
        error matches SpawnError::Open(reason) ==> message@ == "failed to open PTY: "@ + reason@,
        error matches SpawnError::Termios(reason) ==> message@
            == "failed to configure PTY termios: "@ + reason@,
        error matches SpawnError::Fork(reason) ==> message@ == "failed to fork PTY child: "@
            + reason@,
{
}

/// A command reads what it was given, and then sees the end, even if that was nothing. A
/// command that was given nothing at all has no pipe.
pub proof fn law_command_reads_what_it_was_given(stdin: Option<String>, source: StdinSource)
    requires
        call_ensures(stdin_source, (&stdin,), source),
    ensures
        source is Pipe <==> stdin is Some,
        source matches StdinSource::Pipe(bytes) ==> bytes@ == encode_utf8(stdin->0@),
{
}

/// A child attaches its standard input, changes its directory, clears its environment if
/// it is to, sets its variables one by one, and then, last and only then, executes its
/// program.
pub proof fn law_child_executes_last(
    envs: Vec<(String, String)>,
    clear_env: bool,
    plan: Vec<ChildStep>,
)
    requires
        call_ensures(plan_child, (&envs, clear_env), plan),
    ensures
        plan@.len() == envs@.len() + if clear_env {
            4int
        } else {
            3int
        },
        plan@[0] is AttachStdin,
        plan@[1] is ChangeDir,
        clear_env ==> plan@[2] is ClearEnv,
        forall|i: int|
            0 <= i < envs@.len() ==> sets(
                plan@[plan@.len() - 1 - envs@.len() + i],
                #[trigger] envs@[i],
            ),
        plan@[plan@.len() - 1] is Execute,
{
    let views = step_views(plan@);
    let pairs = pair_texts(envs@);
    let first: int = if clear_env {
        3
    } else {
        2
    };
    assert(views.len() == plan@.len());
    assert(first_steps(clear_env).len() == first);
    assert(views.len() == first + envs@.len() + 1);
    assert(plan@[0]@ == views[0] && views[0] is AttachStdin);
    assert(plan@[1]@ == views[1] && views[1] is ChangeDir);
    if clear_env {
        assert(plan@[2]@ == views[2] && views[2] is ClearEnv);
    }
    assert(plan@[plan@.len() - 1]@ == views[views.len() - 1]);
    assert(views[views.len() - 1] is Execute);
    assert forall|i: int| 0 <= i < envs@.len() implies sets(
        plan@[plan@.len() - 1 - envs@.len() + i],
        #[trigger] envs@[i],
    ) by {
        assert(views[first + i] == plan@[first + i]@);
        assert(views[first + i] == set_steps(pairs)[i]);
        assert(pairs[i] == (envs@[i].0@, envs@[i].1@));
    }
}

/// Whether a step sets a variable to its value.
pub open spec fn sets(step: ChildStep, pair: (String, String)) -> bool {
    step matches ChildStep::SetEnv { name, value } && name@ == pair.0@ && value@ == pair.1@
}

/// What a child reports from its way to the program is what its parent reads.
pub proof fn law_parent_reads_the_report(
    step: ChildStep,
    stage: FailureStage,
    errno: i32,
    bytes: [u8; 5],
    read: Option<ChildFailure>,
    sent: &[u8],
)
    requires
        call_ensures(failure_stage, (&step,), stage),
        call_ensures(encode_failure, (ChildFailure { stage, errno },), bytes),
        sent@ == bytes@,
        call_ensures(decode_failure, (sent,), read),
    ensures
        read is Some,
        read->0.errno == errno,
        read->0.stage is Exec <==> step is Execute,
{
    let failure = ChildFailure { stage, errno };
    assert(sent@ == failure_bytes(failure));
    if let Some(other) = read {
        law_failure_reads_back(failure, other);
    }
}

/// A command's terminal has eight-bit characters and an enabled receiver, and parity only
/// if that shares its bits with these. Nothing else of its flags changes.
pub proof fn law_terminal_takes_eight_bits(current: u64, bits: ControlBits, flags: u64)
    requires
        call_ensures(control_flags, (current, bits), flags),
    ensures
        flags & bits.cread == bits.cread,
        flags & bits.cs8 == bits.cs8,
        bits.parenb & (bits.cread | bits.cs8) == 0 ==> flags & bits.parenb == 0,
        ({
            let named = bits.csize | bits.parenb | bits.cread | bits.cs8;
            flags & !named == current & !named
        }),
        PTY_ROWS == 24 && PTY_COLS == 80,
{
    let (size, parity, read, eight) = (bits.csize, bits.parenb, bits.cread, bits.cs8);
    assert(flags == (current & !(size | parity)) | (read | eight) ==> {
        &&& flags & read == read
        &&& flags & eight == eight
        &&& parity & (read | eight) == 0 ==> flags & parity == 0
        &&& flags & !(size | parity | read | eight) == current & !(size | parity | read | eight)
    }) by (bit_vector);
}

} // verus!
