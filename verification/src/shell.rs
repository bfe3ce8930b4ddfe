//! Shell quoting of command lines for display.

use vstd::prelude::*;

use crate::text::{chars_of, texts};

verus! {

/// Whether `c` can stand in a shell word without quotes: an ASCII letter or
/// digit, or one of `-_/.+:@=,%`.
pub open spec fn shell_safe(c: char) -> bool {
    ||| 'a' <= c <= 'z'
    ||| 'A' <= c <= 'Z'
    ||| '0' <= c <= '9'
    ||| c == '-'
    ||| c == '_'
    ||| c == '/'
    ||| c == '.'
    ||| c == '+'
    ||| c == ':'
    ||| c == '@'
    ||| c == '='
    ||| c == ','
    ||| c == '%'
}

/// Whether every character of `s` can stand without quotes.
pub open spec fn all_shell_safe(s: Seq<char>) -> bool {
    forall|i: int| 0 <= i < s.len() ==> shell_safe(#[trigger] s[i])
}

/// What stands for `c` inside single quotes: itself, or for a single quote the
/// four characters that close the quotes, add an escaped quote and reopen them.
pub open spec fn quoted_char(c: char) -> Seq<char> {
    if c == '\'' {
        seq!['\'', '\\', '\'', '\'']
    } else {
        seq![c]
    }
}

/// What stands for `s` inside single quotes.
pub open spec fn quoted_body(s: Seq<char>) -> Seq<char>
    decreases s.len(),
{
    if s.len() == 0 {
        Seq::empty()
    } else {
        quoted_char(s[0]) + quoted_body(s.drop_first())
    }
}

/// `arg` as a shell word: bare when it is not empty and safe throughout, else in
/// single quotes.
pub open spec fn shell_quoted(arg: Seq<char>) -> Seq<char> {
    if arg.len() > 0 && all_shell_safe(arg) {
        arg
    } else {
        seq!['\''] + quoted_body(arg) + seq!['\'']
    }
}

/// The arguments as shell words, a blank in front of each.
pub open spec fn command_words(args: Seq<Seq<char>>) -> Seq<char>
    decreases args.len(),
{
    if args.len() == 0 {
        Seq::empty()
    } else {
        command_words(args.drop_last()) + seq![' '] + shell_quoted(args.last())
    }
}

fn is_shell_safe(c: char) -> (r: bool)
    ensures
        r == shell_safe(c),
{
    ('a' <= c && c <= 'z') || ('A' <= c && c <= 'Z') || ('0' <= c && c <= '9') || c == '-' || c
        == '_' || c == '/' || c == '.' || c == '+' || c == ':' || c == '@' || c == '=' || c == ','
        || c == '%'
}

/// The argument as a shell word.
pub fn shell_quote(arg: &str) -> (r: String)
    ensures
        r@ == shell_quoted(arg@),
{
    let chars = chars_of(arg);
    let mut safe = chars.len() > 0;
    let mut i: usize = 0;
    while i < chars.len() && safe
        invariant
            i <= chars.len(),
            chars@ == arg@,
            safe ==> chars.len() > 0 && forall|k: int| 0 <= k < i ==> shell_safe(#[trigger] arg@[k]),
            !safe ==> !(arg@.len() > 0 && all_shell_safe(arg@)),
        decreases chars.len() - i,
    {
        if !is_shell_safe(chars[i]) {
            assert(!shell_safe(arg@[i as int]));
            safe = false;
        }
        i = i + 1;
    }
    if safe {
        return arg.to_owned();
    }
    let mut s = String::new();
    s.push('\'');
    let mut j: usize = 0;
    assert(chars@.skip(0) =~= arg@);
    assert(s@ =~= seq!['\'']);
    while j < chars.len()
        invariant
            j <= chars.len(),
            s@ + quoted_body(chars@.skip(j as int)) == seq!['\''] + quoted_body(arg@),
        decreases chars.len() - j,
    {
        let c = chars[j];
        let ghost before = s@;
        if c == '\'' {
            s.push('\'');
            s.push('\\');
            s.push('\'');
            s.push('\'');
        } else {
            s.push(c);
        }
        proof {
            assert(s@ =~= before + quoted_char(c));
            assert(chars@.skip(j as int).drop_first() =~= chars@.skip(j + 1));
            assert(before + (quoted_char(c) + quoted_body(chars@.skip(j + 1))) =~= s@ + quoted_body(
                chars@.skip(j + 1),
            ));
        }
        j = j + 1;
    }
    proof {
        assert(s@ + quoted_body(chars@.skip(j as int)) =~= s@);
        assert(s@.push('\'') =~= seq!['\''] + quoted_body(arg@) + seq!['\'']);
    }
    s.push('\'');
    s
}

/// Appends the arguments as shell words, a blank in front of each.
pub fn push_command_words(out: &mut String, args: &Vec<String>)
    ensures
        final(out)@ == old(out)@ + command_words(texts(args@)),
{
    let ghost start = out@;
    let mut i: usize = 0;
    proof {
        assert(start + command_words(texts(args@.take(0))) =~= start);
    }
    while i < args.len()
        invariant
            i <= args.len(),
            out@ == start + command_words(texts(args@.take(i as int))),
        decreases args.len() - i,
    {
        let word = shell_quote(args[i].as_str());
        proof {
            let now = texts(args@.take(i as int));
            let next = texts(args@.take(i + 1));
            assert(next.drop_last() =~= now);
            assert(next.last() == args@[i as int]@);
            assert(start + command_words(next) =~= out@ + seq![' '] + word@);
            assert(out@.push(' ') =~= out@ + seq![' ']);
        }
        out.push(' ');
        out.append(word.as_str());
        i = i + 1;
    }
    assert(args@.take(args@.len() as int) =~= args@);
}

/// How a shell reads one word from the front of `s`, standing inside single
/// quotes or not: the word, and what is left from the blank behind it on. `None`
/// for an unclosed quote, a trailing backslash, or an unquoted character that
/// needs quotes.
pub open spec fn read_word(s: Seq<char>, quoted: bool) -> Option<(Seq<char>, Seq<char>)>
    decreases s.len(),
{
    if quoted {
        if s.len() == 0 {
            None
        } else if s[0] == '\'' {
            read_word(s.drop_first(), false)
        } else {
            with_first(s[0], read_word(s.drop_first(), true))
        }
    } else if s.len() == 0 || s[0] == ' ' {
        Some((Seq::empty(), s))
    } else if s[0] == '\'' {
        read_word(s.drop_first(), true)
    } else if s[0] == '\\' {
        if s.len() < 2 {
            None
        } else {
            with_first(s[1], read_word(s.skip(2), false))
        }
    } else if ('a' <= s[0] <= 'z') || ('A' <= s[0] <= 'Z') || ('+' <= s[0] <= ':') || s[0] == '='
        || s[0] == '@' || s[0] == '_' || s[0] == '%' {
        with_first(s[0], read_word(s.drop_first(), false))
    } else {
        None
    }
}

/// The reading of a word with `c` in front of it.
pub open spec fn with_first(c: char, read: Option<(Seq<char>, Seq<char>)>) -> Option<
    (Seq<char>, Seq<char>),
> {
    match read {
        Some((word, rest)) => Some((seq![c] + word, rest)),
        None => None,
    }
}

/// How a shell reads words, each behind one blank, up to the end of `s`.
pub open spec fn read_words(s: Seq<char>) -> Option<Seq<Seq<char>>>
    decreases s.len(),
{
    if s.len() == 0 {
        Some(Seq::empty())
    } else if s[0] != ' ' {
        None
    } else {
        match read_word(s.drop_first(), false) {
            Some((word, rest)) => if rest.len() < s.len() {
                match read_words(rest) {
                    Some(words) => Some(seq![word] + words),
                    None => None,
                }
            } else {
                None
            },
            None => None,
        }
    }
}

/// A quoted argument reads back as that argument, wherever it stands in front of
/// a blank or the end.
pub proof fn law_quoted_word_reads_back(arg: Seq<char>, rest: Seq<char>)
    requires
        rest.len() == 0 || rest[0] == ' ',
    ensures
        read_word(shell_quoted(arg) + rest, false) == Some((arg, rest)),
{
    if arg.len() > 0 && all_shell_safe(arg) {
        lemma_safe_word(arg, rest);
    } else {
        let s = shell_quoted(arg) + rest;
        assert(s.drop_first() =~= quoted_body(arg) + (seq!['\''] + rest));
        lemma_quoted_word(arg, rest);
    }
}

/// A displayed command line reads back as the arguments it shows.
pub proof fn law_command_words_read_back(args: Seq<Seq<char>>)
    ensures
        read_words(command_words(args)) == Some(args),
    decreases args.len(),
{
    if args.len() == 0 {
        assert(args =~= Seq::empty());
    } else {
        let tail = args.drop_first();
        lemma_command_words_front(args);
        law_command_words_read_back(tail);
        lemma_command_words_blank(tail);
        let s = command_words(args);
        assert(s.drop_first() =~= shell_quoted(args[0]) + command_words(tail));
        law_quoted_word_reads_back(args[0], command_words(tail));
        assert(seq![args[0]] + tail =~= args);
    }
}

proof fn lemma_safe_word(arg: Seq<char>, rest: Seq<char>)
    requires
        all_shell_safe(arg),
        rest.len() == 0 || rest[0] == ' ',
    ensures
        read_word(arg + rest, false) == Some((arg, rest)),
    decreases arg.len(),
{
    if arg.len() == 0 {
        assert(arg + rest =~= rest);
        assert(arg =~= Seq::empty());
    } else {
        assert(shell_safe(arg[0]));
        assert forall|i: int| 0 <= i < arg.drop_first().len() implies shell_safe(
            #[trigger] arg.drop_first()[i],
        ) by {
            assert(arg.drop_first()[i] == arg[i + 1]);
        }
        lemma_safe_word(arg.drop_first(), rest);
        assert((arg + rest).drop_first() =~= arg.drop_first() + rest);
        assert(seq![arg[0]] + arg.drop_first() =~= arg);
    }
}

proof fn lemma_quoted_word(arg: Seq<char>, rest: Seq<char>)
    requires
        rest.len() == 0 || rest[0] == ' ',
    ensures
        read_word(quoted_body(arg) + (seq!['\''] + rest), true) == Some((arg, rest)),
    decreases arg.len(),
{
    let end = seq!['\''] + rest;
    let s = quoted_body(arg) + end;
    if arg.len() == 0 {
        assert(s =~= end);
        assert(end.drop_first() =~= rest);
        assert(read_word(rest, false) == Some((Seq::<char>::empty(), rest)));
        assert(arg =~= Seq::empty());
    } else {
        let body = quoted_body(arg.drop_first());
        lemma_quoted_word(arg.drop_first(), rest);
        assert(seq![arg[0]] + arg.drop_first() =~= arg);
        if arg[0] == '\'' {
            let s1 = s.drop_first();
            let s3 = s1.skip(2);
            assert(s[0] == '\'' && s1[0] == '\\' && s1[1] == '\'' && s3[0] == '\'');
            assert(s3.drop_first() =~= body + end);
            assert(read_word(s3, false) == Some((arg.drop_first(), rest)));
            assert(read_word(s1, false) == Some((arg, rest)));
        } else {
            assert(s[0] == arg[0]);
            assert(s.drop_first() =~= body + end);
        }
    }
}

proof fn lemma_command_words_front(args: Seq<Seq<char>>)
    requires
        args.len() > 0,
    ensures
        command_words(args) == seq![' '] + shell_quoted(args[0]) + command_words(args.drop_first()),
    decreases args.len(),
{
    if args.len() == 1 {
        assert(args.drop_last() =~= Seq::empty());
        assert(args.drop_first() =~= Seq::empty());
        assert(command_words(args) =~= seq![' '] + shell_quoted(args[0]) + command_words(
            args.drop_first(),
        ));
    } else {
        lemma_command_words_front(args.drop_last());
        assert(args.drop_last().drop_first() =~= args.drop_first().drop_last());
        assert(command_words(args) =~= seq![' '] + shell_quoted(args[0]) + command_words(
            args.drop_first(),
        ));
    }
}

proof fn lemma_command_words_blank(args: Seq<Seq<char>>)
    ensures
        command_words(args).len() == 0 || command_words(args)[0] == ' ',
{
    if args.len() > 0 {
        lemma_command_words_front(args);
    }
}

/// A word stays bare exactly if it is not empty and is made of ASCII letters and digits,
/// and of `%`, `+`, `,`, `-`, `.`, `/`, `:`, `=`, `@` and `_`. Any other stands in single
/// quotes, as it is between one quote of its own and the next.
pub proof fn law_only_plain_words_stay_bare(arg: &str, word: String)
    requires
        call_ensures(shell_quote, (arg,), word),
    ensures
        word@ == arg@ <==> arg@.len() > 0 && forall|i: int|
            0 <= i < arg@.len() ==> {
                let u = (#[trigger] arg@[i]) as u32;
                ||| 0x61 <= u <= 0x7a
                ||| 0x41 <= u <= 0x5a
                ||| 0x2b <= u <= 0x3a
                ||| u == 0x25 || u == 0x3d || u == 0x40 || u == 0x5f
            },
        word@ != arg@ && !arg@.contains('\'') ==> word@ == seq!['\''] + arg@ + seq!['\''],
        read_word(word@, false) == Some((arg@, Seq::<char>::empty())),
{
    let s = arg@;
    lemma_quoted_body_len(s);
    assert((s.len() > 0 && all_shell_safe(s)) == (s.len() > 0 && forall|i: int|
        0 <= i < s.len() ==> {
            let u = (#[trigger] s[i]) as u32;
            ||| 0x61 <= u <= 0x7a
            ||| 0x41 <= u <= 0x5a
            ||| 0x2b <= u <= 0x3a
            ||| u == 0x25 || u == 0x3d || u == 0x40 || u == 0x5f
        })) by {
        assert forall|c: char| #[trigger] shell_safe(c) == {
            let u = c as u32;
            ||| 0x61 <= u <= 0x7a
            ||| 0x41 <= u <= 0x5a
            ||| 0x2b <= u <= 0x3a
            ||| u == 0x25 || u == 0x3d || u == 0x40 || u == 0x5f
        } by {
            lemma_safe_by_number(c);
        }
        if all_shell_safe(s) {
            assert forall|i: int| 0 <= i < s.len() implies {
                let u = (#[trigger] s[i]) as u32;
                ||| 0x61 <= u <= 0x7a
                ||| 0x41 <= u <= 0x5a
                ||| 0x2b <= u <= 0x3a
                ||| u == 0x25 || u == 0x3d || u == 0x40 || u == 0x5f
            } by {
                assert(shell_safe(s[i]));
            }
        }
    }
    if !s.contains('\'') {
        lemma_quoted_body_plain(s);
    }
    law_quoted_word_reads_back(s, Seq::empty());
    assert(shell_quoted(s) + Seq::<char>::empty() =~= shell_quoted(s));
}

proof fn lemma_safe_by_number(c: char)
    ensures
        shell_safe(c) == {
            let u = c as u32;
            ||| 0x61 <= u <= 0x7a
            ||| 0x41 <= u <= 0x5a
            ||| 0x2b <= u <= 0x3a
            ||| u == 0x25 || u == 0x3d || u == 0x40 || u == 0x5f
        },
{
    vstd::utf8::char_u32_cast(c, c as u32);
}

proof fn lemma_quoted_body_len(s: Seq<char>)
    ensures
        quoted_body(s).len() >= s.len(),
    decreases s.len(),
{
    if s.len() > 0 {
        lemma_quoted_body_len(s.drop_first());
    }
}

proof fn lemma_quoted_body_plain(s: Seq<char>)
    requires
        !s.contains('\''),
    ensures
        quoted_body(s) == s,
    decreases s.len(),
{
    if s.len() > 0 {
        assert(s.contains(s[0]));
        assert forall|c: char| s.drop_first().contains(c) implies s.contains(c) by {
            let k = choose|k: int| 0 <= k < s.drop_first().len() && s.drop_first()[k] == c;
            assert(s[k + 1] == c);
        }
        lemma_quoted_body_plain(s.drop_first());
        assert(quoted_body(s) =~= s);
    } else {
        assert(quoted_body(s) =~= s);
    }
}

/// A quote inside a word closes the quotes, stands behind a backslash, and opens them
/// again for what follows it.
pub proof fn law_quotes_stand_behind_backslashes(a: Seq<char>, b: Seq<char>)
    requires
        !a.contains('\''),
    ensures
        shell_quoted(a + seq!['\''] + b) == seq!['\''] + a + seq!['\'', '\\', '\''] + if shell_quoted(
            b,
        ) == b {
            seq!['\''] + b + seq!['\'']
        } else {
            shell_quoted(b)
        },
{
    let s = a + seq!['\''] + b;
    assert(s[a.len() as int] == '\'');
    assert(!shell_safe(s[a.len() as int]));
    lemma_quoted_body_concat(a + seq!['\''], b);
    lemma_quoted_body_concat(a, seq!['\'']);
    lemma_quoted_body_plain(a);
    lemma_quoted_body_len(b);
    assert(seq!['\''].drop_first() =~= Seq::empty());
    assert(quoted_body(Seq::empty()) =~= Seq::empty());
    assert(quoted_body(seq!['\'']) =~= seq!['\'', '\\', '\'', '\'']);
    if shell_quoted(b) == b {
        assert(b.len() > 0 && all_shell_safe(b));
        assert(!b.contains('\'')) by {
            if b.contains('\'') {
                let k = choose|k: int| 0 <= k < b.len() && b[k] == '\'';
                assert(shell_safe(b[k]));
            }
        }
        lemma_quoted_body_plain(b);
    }
    assert(shell_quoted(s) =~= seq!['\''] + a + seq!['\'', '\\', '\''] + (seq!['\''] + quoted_body(
        b,
    ) + seq!['\'']));
}

proof fn lemma_quoted_body_concat(a: Seq<char>, b: Seq<char>)
    ensures
        quoted_body(a + b) == quoted_body(a) + quoted_body(b),
    decreases a.len(),
{
    if a.len() == 0 {
        assert(a + b =~= b);
        assert(quoted_body(a) + quoted_body(b) =~= quoted_body(b));
    } else {
        lemma_quoted_body_concat(a.drop_first(), b);
        assert((a + b).drop_first() =~= a.drop_first() + b);
        assert(quoted_body(a + b) =~= quoted_body(a) + quoted_body(b));
    }
}

} // verus!
