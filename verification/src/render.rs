//! How transcript entries look on a terminal.

use vstd::prelude::*;
use vstd::utf8::{encode_utf8, is_ascii_chars, is_ascii_chars_encode_utf8};

use crate::console::{banner_text, console_bytes};
use crate::encoding::{lemma_encode_concat, lemma_encode_lacks, lemma_encode_line_feed};
use crate::filter::{
    ends_csi, filtered, law_chunking, law_csi_is_removed, law_plain_text_passes, state_after, State,
    ESC,
};
use crate::output::append_bytes;
use crate::protocol::{EntryView, TranscriptEntry};
use crate::shell::{
    command_words, law_command_words_read_back, push_command_words, quoted_body, quoted_char,
    read_words, shell_quoted,
};
use crate::text::{
    decimal_text, law_numeral_stands_for_its_number, number_of, push_decimal, texts,
};

verus! {

/// `code` where colours are wanted, else nothing.
pub open spec fn colour(ansi: bool, code: Seq<char>) -> Seq<char> {
    if ansi {
        code
    } else {
        Seq::empty()
    }
}

/// The time of an entry, if it has one.
pub open spec fn time_text(time: Option<Seq<char>>, ansi: bool) -> Seq<char> {
    match time {
        Some(t) => colour(ansi, "\x1b[2m"@) + "["@ + t + "] "@ + colour(ansi, "\x1b[0m"@),
        None => Seq::empty(),
    }
}

/// The line above an entry's output, without its line feed.
pub open spec fn header_text(entry: EntryView, ansi: bool) -> Seq<char> {
    time_text(entry.time, ansi) + colour(ansi, "\x1b[1;36m"@) + entry.whoami + colour(
        ansi,
        "\x1b[0m"@,
    ) + ":"@ + colour(ansi, "\x1b[34m"@) + entry.dir + (if ansi {
        "\x1b[0m \x1b[1;33m$\x1b[0m"@
    } else {
        " $"@
    }) + " TO="@ + decimal_text(entry.timeout as nat) + command_words(entry.argv)
}

/// The output of an entry, ended by a line feed.
pub open spec fn whole_lines(output: Seq<char>) -> Seq<char> {
    if output.len() > 0 && output.last() == '\n' {
        output
    } else {
        output + "\n"@
    }
}

/// An entry as it is shown: its header, its output, and an empty line.
pub open spec fn rendered_text(entry: EntryView, ansi: bool) -> Seq<char> {
    header_text(entry, ansi) + "\n"@ + whole_lines(entry.output) + "\n"@
}

fn push_colour(out: &mut String, ansi: bool, code: &str)
    ensures
        final(out)@ == old(out)@ + colour(ansi, code@),
{
    if ansi {
        out.append(code);
    } else {
        assert(out@ + Seq::<char>::empty() =~= out@);
    }
}

fn header(entry: &TranscriptEntry, ansi: bool) -> (r: String)
    ensures
        r@ == header_text(entry@, ansi),
{
    let mut s = String::new();
    match &entry.time {
        Some(time) => {
            push_colour(&mut s, ansi, "\x1b[2m");
            s.append("[");
            s.append(time.as_str());
            s.append("] ");
            push_colour(&mut s, ansi, "\x1b[0m");
        },
        None => {},
    }
    assert(s@ =~= time_text(entry@.time, ansi));
    push_colour(&mut s, ansi, "\x1b[1;36m");
    s.append(entry.whoami.as_str());
    push_colour(&mut s, ansi, "\x1b[0m");
    s.append(":");
    push_colour(&mut s, ansi, "\x1b[34m");
    s.append(entry.dir.as_str());
    if ansi {
        s.append("\x1b[0m \x1b[1;33m$\x1b[0m");
    } else {
        s.append(" $");
    }
    s.append(" TO=");
    push_decimal(&mut s, entry.timeout);
    push_command_words(&mut s, &entry.argv);
    s
}

/// Whether the text ends in a line feed.
fn ends_in_line_feed(s: &str) -> (r: bool)
    ensures
        r == (s@.len() > 0 && s@.last() == '\n'),
{
    let chars = crate::text::chars_of(s);
    chars.len() > 0 && chars[chars.len() - 1] == '\n'
}

/// The entry as it is shown.
pub fn render_entry(entry: &TranscriptEntry, ansi: bool) -> (r: String)
    ensures
        r@ == rendered_text(entry@, ansi),
{
    let mut s = header(entry, ansi);
    s.append("\n");
    let ghost top = s@;
    s.append(entry.output.as_str());
    if !ends_in_line_feed(entry.output.as_str()) {
        s.append("\n");
    }
    assert(s@ =~= top + whole_lines(entry@.output));
    s.append("\n");
    s
}

/// Appends the bytes of the entry as it is shown.
pub fn render_entry_to(out: &mut Vec<u8>, entry: &TranscriptEntry, ansi: bool)
    ensures
        final(out)@ == old(out)@ + encode_utf8(rendered_text(entry@, ansi)),
{
    let text = render_entry(entry, ansi);
    append_bytes(out, text.as_str().as_bytes());
}

/// Without colours, a replayed entry has the layout of the console: the banner, the
/// output and a line feed. Where its output is ended by a line feed, the replay is,
/// byte for byte, what the console shows of a command that put out just that. Other
/// output gets a line feed in a replay that it did not have on the console.
pub proof fn law_replay_looks_like_console(entry: EntryView)
    requires
        entry.time is Some,
    ensures
        ({
            let banner = banner_text(
                entry.time->0,
                entry.whoami,
                entry.dir,
                entry.timeout,
                entry.argv,
            );
            &&& rendered_text(entry, false) == banner + whole_lines(entry.output) + "\n"@
            &&& entry.output.len() > 0 && entry.output.last() == '\n' ==> encode_utf8(
                rendered_text(entry, false),
            ) == console_bytes(false, banner, encode_utf8(entry.output))
        }),
{
    reveal_strlit(" $");
    reveal_strlit(" TO=");
    reveal_strlit(" $ TO=");
    reveal_strlit("\n");
    let banner = banner_text(
        entry.time->0,
        entry.whoami,
        entry.dir,
        entry.timeout,
        entry.argv,
    );
    assert(" $"@ + " TO="@ =~= " $ TO="@);
    assert(header_text(entry, false) + "\n"@ =~= banner);
    lemma_encode_concat(banner + entry.output, "\n"@);
    lemma_encode_concat(banner, entry.output);
    assert("\n"@ =~= seq!['\n']);
    lemma_encode_line_feed();
}

/// An entry without colours shows its time if it has one, its agent, its directory, its
/// timeout in decimal digits, a command line that reads back as its command, its output
/// with a line feed at the end, and an empty line.
pub proof fn law_entry_is_shown_whole(entry: TranscriptEntry, text: String)
    requires
        call_ensures(render_entry, (&entry, false), text),
    ensures
        exists|digits: Seq<char>, words: Seq<char>, output: Seq<char>|
            {
                &&& text@ == (if entry.time is Some {
                    "["@ + entry.time->0@ + "] "@
                } else {
                    Seq::empty()
                }) + entry.whoami@ + ":"@ + entry.dir@ + " $ TO="@ + #[trigger] (digits + words
                    + "\n"@ + output) + "\n"@
                &&& number_of(digits) == entry.timeout
                &&& forall|i: int| 0 <= i < digits.len() ==> '0' <= #[trigger] digits[i] <= '9'
                &&& read_words(words) == Some(texts(entry.argv@))
                &&& output.len() > 0 && output.last() == '\n'
                &&& output == entry.output@ || (output == entry.output@.push('\n') && !(
                entry.output@.len() > 0 && entry.output@.last() == '\n'))
            },
{
    reveal_strlit(" $");
    reveal_strlit(" TO=");
    reveal_strlit(" $ TO=");
    reveal_strlit("\n");
    let digits = decimal_text(entry.timeout as nat);
    let words = command_words(texts(entry.argv@));
    let output = whole_lines(entry.output@);
    law_numeral_stands_for_its_number(entry.timeout as nat);
    law_command_words_read_back(texts(entry.argv@));
    assert(" $"@ + " TO="@ =~= " $ TO="@);
    assert("\n"@ =~= seq!['\n']);
    assert(entry.output@ + "\n"@ =~= entry.output@.push('\n'));
    let stamp = if entry.time is Some {
        "["@ + entry.time->0@ + "] "@
    } else {
        Seq::empty()
    };
    assert(time_text(entry@.time, false) =~= stamp);
    let top = stamp + entry.whoami@ + ":"@ + entry.dir@ + " $ TO="@;
    assert(text@ =~= top + (digits + words + "\n"@ + output) + "\n"@);
}

/// With colours, the time is dim, the agent bright cyan, the directory blue and the dollar
/// sign bright yellow.
pub proof fn law_colours_stand_in_their_places(entry: TranscriptEntry, text: String)
    requires
        call_ensures(render_entry, (&entry, true), text),
        entry.time is Some,
    ensures
        ({
            let top = "\x1b[2m["@ + entry.time->0@ + "] \x1b[0m\x1b[1;36m"@ + entry.whoami@
                + "\x1b[0m:\x1b[34m"@ + entry.dir@ + "\x1b[0m \x1b[1;33m$\x1b[0m TO="@;
            &&& text@.len() >= top.len()
            &&& text@.take(top.len() as int) == top
        }),
{
    reveal_strlit("\x1b[2m");
    reveal_strlit("[");
    reveal_strlit("\x1b[2m[");
    reveal_strlit("] ");
    reveal_strlit("\x1b[0m");
    reveal_strlit("\x1b[1;36m");
    reveal_strlit("] \x1b[0m\x1b[1;36m");
    reveal_strlit(":");
    reveal_strlit("\x1b[34m");
    reveal_strlit("\x1b[0m:\x1b[34m");
    reveal_strlit("\x1b[0m \x1b[1;33m$\x1b[0m");
    reveal_strlit(" TO=");
    reveal_strlit("\x1b[0m \x1b[1;33m$\x1b[0m TO=");
    assert("\x1b[2m"@ + "["@ =~= "\x1b[2m["@);
    assert("] "@ + "\x1b[0m"@ + "\x1b[1;36m"@ =~= "] \x1b[0m\x1b[1;36m"@);
    assert("\x1b[0m"@ + ":"@ + "\x1b[34m"@ =~= "\x1b[0m:\x1b[34m"@);
    assert("\x1b[0m \x1b[1;33m$\x1b[0m"@ + " TO="@ =~= "\x1b[0m \x1b[1;33m$\x1b[0m TO="@);
    let t = entry.time->0@;
    let top = "\x1b[2m["@ + t + "] \x1b[0m\x1b[1;36m"@ + entry.whoami@ + "\x1b[0m:\x1b[34m"@
        + entry.dir@ + "\x1b[0m \x1b[1;33m$\x1b[0m TO="@;
    let rest = decimal_text(entry.timeout as nat) + command_words(texts(entry.argv@));
    assert(header_text(entry@, true) =~= ("\x1b[2m"@ + "["@) + t + ("] "@ + "\x1b[0m"@
        + "\x1b[1;36m"@) + entry.whoami@ + ("\x1b[0m"@ + ":"@ + "\x1b[34m"@) + entry.dir@ + (
    "\x1b[0m \x1b[1;33m$\x1b[0m"@ + " TO="@) + rest);
    assert(text@.take(top.len() as int) =~= top);
}

/// Whether nothing that an entry shows contains ESC.
pub open spec fn free_of_escapes(entry: EntryView) -> bool {
    &&& !entry.whoami.contains('\x1b')
    &&& !entry.dir.contains('\x1b')
    &&& !entry.output.contains('\x1b')
    &&& entry.time is Some ==> !entry.time->0.contains('\x1b')
    &&& forall|i: int| 0 <= i < entry.argv.len() ==> !(#[trigger] entry.argv[i]).contains('\x1b')
}

/// Without colours, no control sequence is shown that the entry does not hold.
pub proof fn law_plain_rendering_adds_no_escapes(entry: EntryView)
    requires
        free_of_escapes(entry),
    ensures
        !rendered_text(entry, false).contains('\x1b'),
{
    reveal_strlit("[");
    reveal_strlit("] ");
    reveal_strlit(":");
    reveal_strlit(" $");
    reveal_strlit(" TO=");
    reveal_strlit("\n");
    lemma_decimal_plain(entry.timeout as nat);
    lemma_words_plain(entry.argv);
    broadcast use lemma_no_escape_concat;

    assert(!time_text(entry.time, false).contains('\x1b'));
    assert(!header_text(entry, false).contains('\x1b'));
    assert(!whole_lines(entry.output).contains('\x1b'));
}

/// Whether nothing in the header of an entry contains ESC.
pub open spec fn header_free_of_escapes(entry: EntryView) -> bool {
    &&& !entry.whoami.contains('\x1b')
    &&& !entry.dir.contains('\x1b')
    &&& entry.time is Some ==> !entry.time->0.contains('\x1b')
    &&& forall|i: int| 0 <= i < entry.argv.len() ==> !(#[trigger] entry.argv[i]).contains('\x1b')
}

/// Colours add control sequences and nothing else: without control sequences, an entry
/// looks the same with colours as without.
pub proof fn law_colours_add_control_sequences_only(entry: EntryView)
    requires
        header_free_of_escapes(entry),
    ensures
        filtered(encode_utf8(rendered_text(entry, true))) == filtered(
            encode_utf8(rendered_text(entry, false)),
        ),
{
    let tail = "\n"@ + whole_lines(entry.output) + "\n"@;
    lemma_header_shown(entry);
    let (a, b) = (header_text(entry, true), header_text(entry, false));
    assert(rendered_text(entry, true) =~= a + tail);
    assert(rendered_text(entry, false) =~= b + tail);
    lemma_encode_concat(a, tail);
    lemma_encode_concat(b, tail);
    law_chunking(State::Normal, encode_utf8(a), encode_utf8(tail));
    law_chunking(State::Normal, encode_utf8(b), encode_utf8(tail));
}

/// Whether two texts end outside control sequences, and are the same without them.
spec fn shown_alike(a: Seq<char>, b: Seq<char>) -> bool {
    &&& filtered(encode_utf8(a)) == filtered(encode_utf8(b))
    &&& state_after(State::Normal, encode_utf8(a)) is Normal
    &&& state_after(State::Normal, encode_utf8(b)) is Normal
}

proof fn lemma_alike_concat(a: Seq<char>, b: Seq<char>, c: Seq<char>, d: Seq<char>)
    requires
        shown_alike(a, b),
        shown_alike(c, d),
    ensures
        shown_alike(a + c, b + d),
{
    lemma_encode_concat(a, c);
    lemma_encode_concat(b, d);
    law_chunking(State::Normal, encode_utf8(a), encode_utf8(c));
    law_chunking(State::Normal, encode_utf8(b), encode_utf8(d));
}

proof fn lemma_alike_plain(s: Seq<char>)
    requires
        !s.contains('\x1b'),
    ensures
        shown_alike(s, s),
{
    lemma_encode_lacks(s, '\x1b', ESC);
    law_plain_text_passes(encode_utf8(s));
}

/// Whether a text is a colour code: ESC, a bracket, digits and semicolons, and an `m`.
spec fn is_colour(code: Seq<char>) -> bool {
    &&& code.len() >= 3
    &&& code[0] == '\x1b'
    &&& code[1] == '['
    &&& code.last() == 'm'
    &&& forall|i: int|
        2 <= i < code.len() - 1 ==> '0' <= #[trigger] code[i] <= '9' || code[i] == ';'
}

proof fn lemma_alike_colour(code: Seq<char>)
    requires
        is_colour(code),
    ensures
        shown_alike(code, Seq::empty()),
{
    let n = code.len() as int;
    assert forall|i: int| 0 <= i < n implies '\0' <= #[trigger] code[i] <= '\u{7f}' by {
        if 2 <= i < n - 1 {
            assert('0' <= code[i] <= '9' || code[i] == ';');
        }
    }
    assert(is_ascii_chars(code));
    is_ascii_chars_encode_utf8(code);
    let bytes = encode_utf8(code);
    let params = bytes.subrange(2, n - 1);
    assert(bytes[0] == code[0] as u8);
    assert(bytes[1] == code[1] as u8);
    assert(bytes[n - 1] == code[n - 1] as u8);
    assert(bytes =~= seq![ESC, 0x5bu8] + params + seq![0x6du8]);
    assert forall|i: int| 0 <= i < params.len() implies !ends_csi(#[trigger] params[i]) by {
        assert(bytes[i + 2] == code[i + 2] as u8);
        assert('0' <= code[i + 2] <= '9' || code[i + 2] == ';');
    }
    law_csi_is_removed(params, 0x6d);
    assert(encode_utf8(Seq::<char>::empty()) =~= Seq::empty());
    assert(filtered(Seq::<u8>::empty()) =~= Seq::empty());
}

proof fn lemma_header_shown(entry: EntryView)
    requires
        header_free_of_escapes(entry),
    ensures
        shown_alike(header_text(entry, true), header_text(entry, false)),
{
    reveal_strlit("[");
    reveal_strlit("] ");
    reveal_strlit(":");
    reveal_strlit(" ");
    reveal_strlit("$");
    reveal_strlit(" $");
    reveal_strlit(" TO=");
    reveal_strlit("\x1b[2m");
    reveal_strlit("\x1b[0m");
    reveal_strlit("\x1b[1;36m");
    reveal_strlit("\x1b[34m");
    reveal_strlit("\x1b[1;33m");
    reveal_strlit("\x1b[0m \x1b[1;33m$\x1b[0m");
    let none = Seq::<char>::empty();
    let reset = "\x1b[0m"@;
    lemma_alike_colour("\x1b[2m"@);
    lemma_alike_colour(reset);
    lemma_alike_colour("\x1b[1;36m"@);
    lemma_alike_colour("\x1b[34m"@);
    lemma_alike_colour("\x1b[1;33m"@);
    lemma_alike_plain(none);
    lemma_alike_plain("["@);
    lemma_alike_plain("] "@);
    lemma_alike_plain(":"@);
    lemma_alike_plain(" "@);
    lemma_alike_plain("$"@);
    lemma_alike_plain(" TO="@);
    lemma_alike_plain(entry.whoami);
    lemma_alike_plain(entry.dir);
    lemma_decimal_plain(entry.timeout as nat);
    lemma_alike_plain(decimal_text(entry.timeout as nat));
    lemma_words_plain(entry.argv);
    lemma_alike_plain(command_words(entry.argv));

    let (a0, b0) = (time_text(entry.time, true), time_text(entry.time, false));
    assert(shown_alike(a0, b0)) by {
        if let Some(t) = entry.time {
            lemma_alike_plain(t);
            let dim = "\x1b[2m"@;
            lemma_alike_concat(dim, none, "["@, "["@);
            lemma_alike_concat(dim + "["@, none + "["@, t, t);
            lemma_alike_concat(dim + "["@ + t, none + "["@ + t, "] "@, "] "@);
            lemma_alike_concat(dim + "["@ + t + "] "@, none + "["@ + t + "] "@, reset, none);
        }
    }
    let (a1, b1) = (a0 + "\x1b[1;36m"@, b0 + none);
    lemma_alike_concat(a0, b0, "\x1b[1;36m"@, none);
    let (a2, b2) = (a1 + entry.whoami, b1 + entry.whoami);
    lemma_alike_concat(a1, b1, entry.whoami, entry.whoami);
    let (a3, b3) = (a2 + reset, b2 + none);
    lemma_alike_concat(a2, b2, reset, none);
    let (a4, b4) = (a3 + ":"@, b3 + ":"@);
    lemma_alike_concat(a3, b3, ":"@, ":"@);
    let (a5, b5) = (a4 + "\x1b[34m"@, b4 + none);
    lemma_alike_concat(a4, b4, "\x1b[34m"@, none);
    let (a6, b6) = (a5 + entry.dir, b5 + entry.dir);
    lemma_alike_concat(a5, b5, entry.dir, entry.dir);
    let yellow = "\x1b[1;33m"@;
    let (p, q) = ("\x1b[0m \x1b[1;33m$\x1b[0m"@, " $"@);
    assert(shown_alike(p, q)) by {
        lemma_alike_concat(reset, none, " "@, " "@);
        lemma_alike_concat(reset + " "@, none + " "@, yellow, none);
        lemma_alike_concat(reset + " "@ + yellow, none + " "@ + none, "$"@, "$"@);
        lemma_alike_concat(
            reset + " "@ + yellow + "$"@,
            none + " "@ + none + "$"@,
            reset,
            none,
        );
        assert(p =~= reset + " "@ + yellow + "$"@ + reset);
        assert(q =~= none + " "@ + none + "$"@ + none);
    }
    let (a7, b7) = (a6 + p, b6 + q);
    lemma_alike_concat(a6, b6, p, q);
    let (a8, b8) = (a7 + " TO="@, b7 + " TO="@);
    lemma_alike_concat(a7, b7, " TO="@, " TO="@);
    let number = decimal_text(entry.timeout as nat);
    lemma_alike_concat(a8, b8, number, number);
    let words = command_words(entry.argv);
    lemma_alike_concat(a8 + number, b8 + number, words, words);
    assert(header_text(entry, true) == a8 + number + words);
    assert(header_text(entry, false) == b8 + number + words);
}

/// With colours, the output is shown as it is: it stands between the header and
/// the closing line feeds, character for character.
pub proof fn law_raw_output_is_preserved(entry: EntryView, ansi: bool)
    ensures
        ({
            let start = header_text(entry, ansi).len() as int + 1;
            rendered_text(entry, ansi).subrange(start, start + entry.output.len())
                == entry.output
        }),
{
    reveal_strlit("\n");
    let start = header_text(entry, ansi).len() as int + 1;
    assert(rendered_text(entry, ansi).subrange(start, start + entry.output.len())
        =~= entry.output);
}

broadcast proof fn lemma_no_escape_concat(a: Seq<char>, b: Seq<char>)
    requires
        !a.contains('\x1b'),
        !b.contains('\x1b'),
    ensures
        !(#[trigger] (a + b)).contains('\x1b'),
{
    if (a + b).contains('\x1b') {
        let i = choose|i: int| 0 <= i < (a + b).len() && (a + b)[i] == '\x1b';
        if i < a.len() {
            assert(a[i] == '\x1b');
        } else {
            assert(b[i - a.len()] == '\x1b');
        }
    }
}

proof fn lemma_decimal_plain(n: nat)
    ensures
        !decimal_text(n).contains('\x1b'),
    decreases n,
{
    if n >= 10 {
        lemma_decimal_plain(n / 10);
        let d = crate::text::digit(n % 10);
        assert(decimal_text(n) =~= decimal_text(n / 10) + seq![d]);
        assert(!seq![d].contains('\x1b'));
        lemma_no_escape_concat(decimal_text(n / 10), seq![d]);
    }
}

proof fn lemma_quoted_body_plain(s: Seq<char>)
    requires
        !s.contains('\x1b'),
    ensures
        !quoted_body(s).contains('\x1b'),
    decreases s.len(),
{
    if s.len() > 0 {
        assert(s.contains(s[0]));
        assert forall|i: int| 0 <= i < s.drop_first().len() implies s.drop_first()[i] != '\x1b' by {
            assert(s.contains(s[i + 1]));
        }
        lemma_quoted_body_plain(s.drop_first());
        assert(!quoted_char(s[0]).contains('\x1b'));
        lemma_no_escape_concat(quoted_char(s[0]), quoted_body(s.drop_first()));
    }
}

proof fn lemma_words_plain(args: Seq<Seq<char>>)
    requires
        forall|i: int| 0 <= i < args.len() ==> !(#[trigger] args[i]).contains('\x1b'),
    ensures
        !command_words(args).contains('\x1b'),
    decreases args.len(),
{
    broadcast use lemma_no_escape_concat;

    if args.len() > 0 {
        assert forall|i: int| 0 <= i < args.drop_last().len() implies !(
        #[trigger] args.drop_last()[i]).contains('\x1b') by {
            assert(!args[i].contains('\x1b'));
        }
        lemma_words_plain(args.drop_last());
        lemma_quoted_body_plain(args.last());
        assert(!seq!['\''].contains('\x1b'));
        assert(!seq![' '].contains('\x1b'));
        assert(!shell_quoted(args.last()).contains('\x1b'));
    }
}

} // verus!
