//! The per-user service that starts the host.

use vstd::prelude::*;
use vstd::utf8::{decode_utf8, encode_utf8, valid_utf8};

use crate::encoding::{lemma_ascii, lossy_text, utf8_lossy_text, utf8_text};
use crate::paths::{join, joined};
use crate::text::{blank, chars_of, law_blank_text_is_trimmed_away, texts, trim, trimmed};

verus! {

/// The name of the service.
pub const SERVICE_NAME: &'static str = "rexec.service";

/// Whether `c` is a control character.
pub open spec fn control(c: char) -> bool {
    c as u32 <= 0x1f || 0x7f <= c as u32 <= 0x9f
}

/// Whether `c` is a control character.
pub fn is_control(c: char) -> (r: bool)
    ensures
        r == control(c),
{
    let u = c as u32;
    u <= 0x1f || (0x7f <= u && u <= 0x9f)
}

/// How a character is written in a quoted word of a unit file.
pub open spec fn escaped_char(c: char) -> Seq<char> {
    if c == '\\' {
        seq!['\\', '\\']
    } else if c == '"' {
        seq!['\\', '"']
    } else if c == '%' {
        seq!['%', '%']
    } else {
        seq![c]
    }
}

/// How a text is written in a quoted word of a unit file.
pub open spec fn escaped(s: Seq<char>) -> Seq<char>
    decreases s.len(),
{
    if s.len() == 0 {
        Seq::empty()
    } else {
        escaped_char(s[0]) + escaped(s.drop_first())
    }
}

/// A text as a quoted word of a unit file.
pub open spec fn quoted(s: Seq<char>) -> Seq<char> {
    seq!['"'] + escaped(s) + seq!['"']
}

/// Why an executable cannot be named in a unit file, if it cannot.
pub open spec fn path_problem(executable: Seq<u8>) -> Option<Seq<char>> {
    if !valid_utf8(executable) {
        Some("rexec executable path is not valid UTF-8"@)
    } else if exists|i: int|
        0 <= i < decode_utf8(executable).len() && control(
            #[trigger] decode_utf8(executable)[i],
        ) {
        Some("rexec executable path contains a control character"@)
    } else {
        None
    }
}

/// A path as a quoted word of a unit file.
pub fn quote_systemd_arg(value: &[u8]) -> (r: Result<String, String>)
    ensures
        match path_problem(value@) {
            Some(problem) => r matches Err(e) && e@ == problem,
            None => r matches Ok(word) && word@ == quoted(decode_utf8(value@)),
        },
{
    let text = match utf8_text(value) {
        Some(text) => text,
        None => {
            return Err("rexec executable path is not valid UTF-8".to_owned());
        },
    };
    let chars = chars_of(text);
    let mut word = "\"".to_owned();
    let mut i: usize = 0;
    proof {
        reveal_strlit("\"");
        assert(chars@.skip(0) =~= chars@);
        assert("\""@ =~= seq!['"']);
    }
    while i < chars.len()
        invariant
            i <= chars.len(),
            chars@ == decode_utf8(value@),
            valid_utf8(value@),
            word@ + escaped(chars@.skip(i as int)) == seq!['"'] + escaped(chars@),
            forall|k: int| 0 <= k < i ==> !control(#[trigger] chars@[k]),
        decreases chars.len() - i,
    {
        let c = chars[i];
        if is_control(c) {
            return Err("rexec executable path contains a control character".to_owned());
        }
        let ghost before = word@;
        if c == '\\' || c == '"' {
            word.push('\\');
        } else if c == '%' {
            word.push('%');
        }
        word.push(c);
        proof {
            let rest = chars@.skip(i as int);
            assert(rest.drop_first() =~= chars@.skip(i + 1));
            assert(word@ =~= before + escaped_char(c));
            assert(word@ + escaped(chars@.skip(i + 1)) =~= before + escaped(rest));
        }
        i = i + 1;
    }
    word.push('"');
    proof {
        assert(chars@.skip(i as int) =~= Seq::empty());
        assert(word@ =~= quoted(decode_utf8(value@)));
    }
    Ok(word)
}

/// The unit file for a host with the given executable.
pub open spec fn unit_text(executable: Seq<char>) -> Seq<char> {
    "[Unit]\nDescription=rexec per-user command execution host\n\n[Service]\nType=simple\nExecStart="@
        + quoted(executable)
        + " --start-host --silent\nRestart=on-failure\n\n[Install]\nWantedBy=default.target\n"@
}

/// The unit file for a host with the given executable: it starts the silent host.
pub fn unit_contents(executable: &[u8]) -> (r: Result<String, String>)
    ensures
        match path_problem(executable@) {
            Some(problem) => r matches Err(e) && e@ == problem,
            None => r matches Ok(unit) && unit@ == unit_text(decode_utf8(executable@)),
        },
{
    let word = match quote_systemd_arg(executable) {
        Ok(word) => word,
        Err(e) => {
            return Err(e);
        },
    };
    let mut unit =
        "[Unit]\nDescription=rexec per-user command execution host\n\n[Service]\nType=simple\nExecStart=".to_owned();
    unit.append(word.as_str());
    unit.append(
        " --start-host --silent\nRestart=on-failure\n\n[Install]\nWantedBy=default.target\n",
    );
    Ok(unit)
}

/// The directory of the user's configuration: the one that is set for it, or one
/// below the home directory.
pub open spec fn config_path(config_home: Option<Seq<u8>>, home: Option<Seq<u8>>) -> Option<
    Seq<u8>,
> {
    if config_home is Some && config_home->0.len() > 0 {
        config_home
    } else {
        match home {
            Some(h) => Some(joined(h, encode_utf8(".config"@))),
            None => None,
        }
    }
}

/// The directory of the unit file.
pub open spec fn unit_dir_path(config: Seq<u8>) -> Seq<u8> {
    joined(config, encode_utf8("systemd/user"@))
}

/// The bytes of an optional path.
pub open spec fn optional_bytes(path: Option<&[u8]>) -> Option<Seq<u8>> {
    match path {
        Some(p) => Some(p@),
        None => None,
    }
}

/// The directory of the unit file.
pub fn unit_dir(config_home: Option<&[u8]>, home: Option<&[u8]>) -> (r: Result<Vec<u8>, String>)
    ensures
        match config_path(optional_bytes(config_home), optional_bytes(home)) {
            Some(config) => r matches Ok(path) && path@ == unit_dir_path(config),
            None => r matches Err(e) && e@ == "HOME is not set"@,
        },
{
    if let Some(config) = config_home {
        if config.len() > 0 {
            return Ok(join(config, "systemd/user".as_bytes()));
        }
    }
    match home {
        Some(h) => {
            let config = join(h, ".config".as_bytes());
            Ok(join(config.as_slice(), "systemd/user".as_bytes()))
        },
        None => Err("HOME is not set".to_owned()),
    }
}

/// The unit file.
pub fn unit_path(config_home: Option<&[u8]>, home: Option<&[u8]>) -> (r: Result<Vec<u8>, String>)
    ensures
        match config_path(optional_bytes(config_home), optional_bytes(home)) {
            Some(config) => r matches Ok(path) && path@ == joined(
                unit_dir_path(config),
                encode_utf8(SERVICE_NAME@),
            ),
            None => r matches Err(e) && e@ == "HOME is not set"@,
        },
{
    match unit_dir(config_home, home) {
        Ok(dir) => Ok(join(dir.as_slice(), SERVICE_NAME.as_bytes())),
        Err(e) => Err(e),
    }
}

/// What to ask of the service manager, in order: to read the unit file, and to
/// start the service now and from now on.
pub open spec fn service_manager_calls() -> Seq<Seq<Seq<char>>> {
    seq![
        seq!["--user"@, "daemon-reload"@],
        seq!["--user"@, "enable"@, "--now"@, SERVICE_NAME@],
    ]
}

/// What to ask of the service manager, in order.
pub fn systemctl_calls() -> (r: Vec<Vec<String>>)
    ensures
        r@.map_values(|args: Vec<String>| texts(args@)) == service_manager_calls(),
{
    let mut reload: Vec<String> = Vec::new();
    reload.push("--user".to_owned());
    reload.push("daemon-reload".to_owned());
    let mut enable: Vec<String> = Vec::new();
    enable.push("--user".to_owned());
    enable.push("enable".to_owned());
    enable.push("--now".to_owned());
    enable.push(SERVICE_NAME.to_owned());
    proof {
        assert(texts(reload@) =~= service_manager_calls()[0]);
        assert(texts(enable@) =~= service_manager_calls()[1]);
    }
    let mut calls: Vec<Vec<String>> = Vec::new();
    calls.push(reload);
    calls.push(enable);
    calls
}

/// Words with a space between each two.
pub open spec fn spaced(words: Seq<Seq<char>>) -> Seq<char>
    decreases words.len(),
{
    if words.len() == 0 {
        Seq::empty()
    } else if words.len() == 1 {
        words[0]
    } else {
        spaced(words.drop_last()) + " "@ + words.last()
    }
}

fn join_words(words: &Vec<String>) -> (r: String)
    ensures
        r@ == spaced(texts(words@)),
{
    let mut line = String::new();
    let mut i: usize = 0;
    let ghost all = texts(words@);
    assert(all.take(0) =~= Seq::empty());
    while i < words.len()
        invariant
            i <= words.len(),
            all == texts(words@),
            line@ == spaced(all.take(i as int)),
        decreases words.len() - i,
    {
        if i > 0 {
            line.append(" ");
        }
        line.append(words[i].as_str());
        proof {
            assert(all.take(i + 1).drop_last() =~= all.take(i as int));
            assert(all.take(i + 1).last() == words@[i as int]@);
            if i == 0 {
                assert(line@ =~= words@[0]@);
                assert(all.take(1)[0] == words@[0]@);
            }
        }
        i = i + 1;
    }
    assert(all.take(i as int) =~= all);
    line
}

/// How a call of the service manager ended.
#[derive(Debug)]
pub enum SystemctlOutcome {
    /// It could not be run, for the given reason.
    NotRun(String),
    /// It succeeded.
    Succeeded,
    /// It failed with the given status, and left this on standard error.
    Failed { status: String, stderr: Vec<u8> },
}

/// What is wrong after a call of the service manager, if anything is.
pub open spec fn systemctl_problem(args: Seq<Seq<char>>, outcome: SystemctlOutcome) -> Option<
    Seq<char>,
> {
    match outcome {
        SystemctlOutcome::NotRun(reason) => Some("failed to run systemctl: "@ + reason@),
        SystemctlOutcome::Succeeded => None,
        SystemctlOutcome::Failed { status, stderr } => {
            let detail = trimmed(lossy_text(stderr@));
            if detail.len() == 0 {
                Some("systemctl "@ + spaced(args) + " failed with "@ + status@)
            } else {
                Some("systemctl "@ + spaced(args) + " failed: "@ + detail)
            }
        },
    }
}

/// What a call of the service manager amounts to.
pub fn systemctl_result(args: &Vec<String>, outcome: SystemctlOutcome) -> (r: Result<(), String>)
    ensures
        match systemctl_problem(texts(args@), outcome) {
            Some(problem) => r matches Err(e) && e@ == problem,
            None => r is Ok,
        },
{
    match outcome {
        SystemctlOutcome::NotRun(reason) => {
            let mut problem = "failed to run systemctl: ".to_owned();
            problem.append(reason.as_str());
            Err(problem)
        },
        SystemctlOutcome::Succeeded => Ok(()),
        SystemctlOutcome::Failed { status, stderr } => {
            let stderr_text = utf8_lossy_text(stderr.as_slice());
            let detail = trim(stderr_text.as_str());
            let mut problem = "systemctl ".to_owned();
            problem.append(join_words(args).as_str());
            if detail.as_str().is_empty() {
                problem.append(" failed with ");
                problem.append(status.as_str());
            } else {
                problem.append(" failed: ");
                problem.append(detail.as_str());
            }
            Err(problem)
        },
    }
}

/// A reading with `c` in front of it.
pub open spec fn with_first(c: char, read: Option<Seq<char>>) -> Option<Seq<char>> {
    match read {
        Some(rest) => Some(seq![c] + rest),
        None => None,
    }
}

/// The text that a reader of a unit file takes the inside of a quoted word for. A
/// backslash stands before a backslash or a quote, a percent sign before another
/// one, and each pair means its second character. Anything else that these three
/// characters do ends the word or means something else, and is not read.
pub open spec fn unescaped(s: Seq<char>) -> Option<Seq<char>>
    decreases s.len(),
{
    if s.len() == 0 {
        Some(Seq::empty())
    } else if s[0] == '"' {
        None
    } else if s[0] == '\\' {
        if s.len() >= 2 && (s[1] == '\\' || s[1] == '"') {
            with_first(s[1], unescaped(s.skip(2)))
        } else {
            None
        }
    } else if s[0] == '%' {
        if s.len() >= 2 && s[1] == '%' {
            with_first('%', unescaped(s.skip(2)))
        } else {
            None
        }
    } else {
        with_first(s[0], unescaped(s.skip(1)))
    }
}

/// The text that a reader of a unit file takes a quoted word for.
pub open spec fn unquoted(word: Seq<char>) -> Option<Seq<char>> {
    if word.len() >= 2 && word[0] == '"' && word.last() == '"' {
        unescaped(word.subrange(1, word.len() - 1))
    } else {
        None
    }
}

/// Whatever an executable is called, a reader of the unit file gets its name back.
pub proof fn law_quoted_path_reads_back(s: Seq<char>)
    ensures
        unquoted(quoted(s)) == Some(s),
{
    assert(quoted(s).subrange(1, quoted(s).len() - 1) =~= escaped(s));
    lemma_unescaped(s);
}

proof fn lemma_unescaped(s: Seq<char>)
    ensures
        unescaped(escaped(s)) == Some(s),
    decreases s.len(),
{
    if s.len() > 0 {
        let c = s[0];
        let rest = escaped(s.drop_first());
        lemma_unescaped(s.drop_first());
        let whole = escaped_char(c) + rest;
        if escaped_char(c).len() == 2 {
            assert(whole.skip(2) =~= rest);
        } else {
            assert(whole.skip(1) =~= rest);
        }
        assert(seq![c] + s.drop_first() =~= s);
    } else {
        assert(s =~= Seq::empty());
    }
}

/// A name without control characters stays on its line of the unit file.
pub proof fn law_quoted_path_is_one_line(s: Seq<char>)
    requires
        forall|i: int| 0 <= i < s.len() ==> !control(#[trigger] s[i]),
    ensures
        forall|i: int| 0 <= i < quoted(s).len() ==> !control(#[trigger] quoted(s)[i]),
{
    lemma_escaped_clean(s);
}

proof fn lemma_escaped_clean(s: Seq<char>)
    requires
        forall|i: int| 0 <= i < s.len() ==> !control(#[trigger] s[i]),
    ensures
        forall|i: int| 0 <= i < escaped(s).len() ==> !control(#[trigger] escaped(s)[i]),
    decreases s.len(),
{
    if s.len() > 0 {
        let head = escaped_char(s[0]);
        let rest = escaped(s.drop_first());
        lemma_escaped_clean(s.drop_first());
        assert forall|i: int| 0 <= i < escaped(s).len() implies !control(
            #[trigger] escaped(s)[i],
        ) by {
            if i < head.len() {
                assert(!control(s[0]));
                assert(escaped(s)[i] == head[i]);
            } else {
                assert(escaped(s)[i] == rest[i - head.len()]);
            }
        }
    }
}

/// Control characters are those below the blank, and those from 0x7f to 0x9f.
pub proof fn law_control_characters(c: char, r: bool)
    requires
        call_ensures(is_control, (c,), r),
    ensures
        r <==> c < ' ' || '\x7f' <= c <= '\u{9f}',
        control(c) <==> r,
{
}

proof fn lemma_control(c: char)
    ensures
        control(c) <==> c < ' ' || '\x7f' <= c <= '\u{9f}',
{
    vstd::utf8::char_u32_cast(c, c as u32);
}

/// An executable can be named in a unit file exactly if its path is text without control
/// characters. It is then read back from the quoted word. Otherwise it is told which of
/// the two is wrong.
pub proof fn law_path_is_quoted_or_refused(value: &[u8], r: Result<String, String>)
    requires
        call_ensures(quote_systemd_arg, (value,), r),
    ensures
        r is Ok <==> valid_utf8(value@) && forall|i: int|
            0 <= i < decode_utf8(value@).len() ==> {
                let c = #[trigger] decode_utf8(value@)[i];
                !(c < ' ') && !('\x7f' <= c <= '\u{9f}')
            },
        r matches Ok(word) ==> unquoted(word@) == Some(decode_utf8(value@)),
        r matches Err(e) ==> e@ == if valid_utf8(value@) {
            "rexec executable path contains a control character"@
        } else {
            "rexec executable path is not valid UTF-8"@
        },
{
    let text = decode_utf8(value@);
    law_quoted_path_reads_back(text);
    if valid_utf8(value@) {
        if path_problem(value@) is None {
            assert forall|i: int| 0 <= i < text.len() implies {
                let c = #[trigger] text[i];
                !(c < ' ') && !('\x7f' <= c <= '\u{9f}')
            } by {
                assert(!control(decode_utf8(value@)[i]));
                lemma_control(text[i]);
            }
        } else {
            let i = choose|i: int|
                0 <= i < decode_utf8(value@).len() && control(#[trigger] decode_utf8(value@)[i]);
            lemma_control(text[i]);
            assert(text[i] < ' ' || '\x7f' <= text[i] <= '\u{9f}');
        }
    }
}

/// The unit file starts the silent host by a word that is read as the executable, starts
/// it again after a failure, and at every login.
pub proof fn law_unit_starts_the_silent_host(
    executable: &[u8],
    word: Result<String, String>,
    r: Result<String, String>,
)
    requires
        call_ensures(unit_contents, (executable,), r),
        call_ensures(quote_systemd_arg, (executable,), word),
    ensures
        r is Ok <==> word is Ok,
        r is Err ==> r->Err_0@ == word->Err_0@,
        r matches Ok(unit) ==> unit@
            == "[Unit]\nDescription=rexec per-user command execution host\n\n[Service]\nType=simple\nExecStart="@
            + word->Ok_0@
            + " --start-host --silent\nRestart=on-failure\n\n[Install]\nWantedBy=default.target\n"@,
{
}

/// The unit file lies below the directory of the user's configuration: the one that is
/// set, if it is not empty, and else `.config` below the home directory. Without either
/// there is no place for it.
pub proof fn law_unit_lies_below_the_configuration(
    config_home: Option<&[u8]>,
    home: Option<&[u8]>,
    r: Result<Vec<u8>, String>,
)
    requires
        call_ensures(unit_path, (config_home, home), r),
    ensures
        config_home is Some && config_home->0@.len() > 0 ==> r is Ok && r->Ok_0@ == config_home->0@
            + encode_utf8(
            if config_home->0@.last() == 0x2f {
                "systemd/user/rexec.service"@
            } else {
                "/systemd/user/rexec.service"@
            },
        ),
        !(config_home is Some && config_home->0@.len() > 0) && home is Some ==> r is Ok
            && r->Ok_0@ == home->0@ + encode_utf8(
            if home->0@.len() == 0 || home->0@.last() == 0x2f {
                ".config/systemd/user/rexec.service"@
            } else {
                "/.config/systemd/user/rexec.service"@
            },
        ),
        !(config_home is Some && config_home->0@.len() > 0) && home is None ==> r is Err
            && r->Err_0@ == "HOME is not set"@,
{
    reveal_strlit("/systemd/user/rexec.service");
    reveal_strlit("systemd/user/rexec.service");
    reveal_strlit("/.config/systemd/user/rexec.service");
    reveal_strlit(".config/systemd/user/rexec.service");
    reveal_strlit("systemd/user");
    reveal_strlit("rexec.service");
    reveal_strlit(".config");
    lemma_ascii("systemd/user"@);
    lemma_ascii("rexec.service"@);
    lemma_ascii(".config"@);
    lemma_ascii("/systemd/user/rexec.service"@);
    lemma_ascii("systemd/user/rexec.service"@);
    lemma_ascii("/.config/systemd/user/rexec.service"@);
    lemma_ascii(".config/systemd/user/rexec.service"@);
    let slash = seq![0x2fu8];
    let sub = encode_utf8("systemd/user"@);
    let unit = encode_utf8("rexec.service"@);
    let dot = encode_utf8(".config"@);
    let tail = sub + slash + unit;
    assert(encode_utf8("systemd/user/rexec.service"@) =~= tail);
    assert(encode_utf8("/systemd/user/rexec.service"@) =~= slash + tail);
    assert(encode_utf8(".config/systemd/user/rexec.service"@) =~= dot + slash + tail);
    assert(encode_utf8("/.config/systemd/user/rexec.service"@) =~= slash + dot + slash + tail);
    if config_home is Some && config_home->0@.len() > 0 {
        let config = config_home->0@;
        let dir = unit_dir_path(config);
        assert(dir.last() == sub.last());
        if config.last() == 0x2f {
            assert(r->Ok_0@ =~= config + tail);
        } else {
            assert(r->Ok_0@ =~= config + (slash + tail));
        }
    } else if home is Some {
        let base = home->0@;
        let config = joined(base, dot);
        let dir = unit_dir_path(config);
        assert(config.last() == dot.last());
        assert(dir.last() == sub.last());
        if base.len() == 0 || base.last() == 0x2f {
            assert(r->Ok_0@ =~= base + (dot + slash + tail));
        } else {
            assert(r->Ok_0@ =~= base + (slash + dot + slash + tail));
        }
    }
}

/// The service manager is asked to read the unit file, and then to enable the service and
/// start it at once, both for the user.
pub proof fn law_service_is_enabled_and_started(calls: Vec<Vec<String>>)
    requires
        call_ensures(systemctl_calls, (), calls),
    ensures
        calls@.len() == 2,
        texts(calls@[0]@) == seq!["--user"@, "daemon-reload"@],
        texts(calls@[1]@) == seq!["--user"@, "enable"@, "--now"@, "rexec.service"@],
{
    let views = calls@.map_values(|args: Vec<String>| texts(args@));
    assert(views.len() == calls@.len());
    assert(views[0] == texts(calls@[0]@));
    assert(views[1] == texts(calls@[1]@));
}

/// Words stand one behind the other, with one blank between each two.
pub proof fn law_words_are_spaced(words: Seq<Seq<char>>, word: Seq<char>)
    ensures
        spaced(seq![word]) == word,
        words.len() > 0 ==> spaced(words + seq![word]) == spaced(words) + seq![' '] + word,
        spaced(Seq::empty()) == Seq::<char>::empty(),
{
    reveal_strlit(" ");
    assert(" "@ =~= seq![' ']);
    assert((words + seq![word]).drop_last() =~= words);
}

/// A call of the service manager succeeds exactly if it ran and succeeded. Otherwise the
/// message names the call and ends in the reason: what it said on standard error, or its
/// status if it said nothing.
pub proof fn law_service_manager_failures_are_told(
    args: Vec<String>,
    outcome: SystemctlOutcome,
    r: Result<(), String>,
)
    requires
        call_ensures(systemctl_result, (&args, outcome), r),
    ensures
        r is Ok <==> outcome is Succeeded,
        outcome matches SystemctlOutcome::NotRun(reason) ==> r->Err_0@
            == "failed to run systemctl: "@ + reason@,
        outcome matches SystemctlOutcome::Failed { status, stderr } ==> r->Err_0@ == "systemctl "@
            + spaced(texts(args@)) + (if blank(lossy_text(stderr@)) {
            " failed with "@ + status@
        } else {
            " failed: "@ + trimmed(lossy_text(stderr@))
        }),
{
    if let SystemctlOutcome::Failed { status, stderr } = outcome {
        law_blank_text_is_trimmed_away(lossy_text(stderr@));
        let top = "systemctl "@ + spaced(texts(args@));
        assert(top + " failed with "@ + status@ =~= top + (" failed with "@ + status@));
        let detail = trimmed(lossy_text(stderr@));
        assert(top + " failed: "@ + detail =~= top + (" failed: "@ + detail));
    }
}

} // verus!
