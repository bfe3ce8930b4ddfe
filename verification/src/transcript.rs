//! Transcripts on disk: where they are, which there are, and what they hold.

use vstd::prelude::*;
use vstd::utf8::{decode_utf8, encode_utf8, valid_utf8};

use crate::encoding::{
    lemma_ascii, lemma_encode_concat, lemma_encode_lacks, lemma_encode_line_feed, utf8_text,
};
use crate::paths::{join, joined};
use crate::protocol::message_of_line;
use crate::text::{
    blank, chars_of, decimal_text, first_of, is_blank, law_blank_text_is_trimmed_away,
    law_numeral_stands_for_its_number, law_texts_are_those_of_the_list, lemma_first_of,
    lemma_first_of_is, lemma_precedes_total, lemma_precedes_transitive, number_of, precedes,
    push_decimal, string_of, text_precedes, texts, trimmed, trimmed_end, white_space,
};

verus! {

/// The directory of the transcripts, below the home directory.
pub open spec fn dir_path(home: Seq<u8>) -> Seq<u8> {
    joined(home, encode_utf8(".rexec"@))
}

/// The file of a transcript.
pub open spec fn transcript_path(home: Seq<u8>, name: Seq<char>) -> Seq<u8> {
    joined(dir_path(home), encode_utf8(name + ".jsonl"@))
}

/// The directory of the transcripts. Without a home directory there is none.
pub fn dir(home: Option<&[u8]>) -> (r: Result<Vec<u8>, String>)
    ensures
        match home {
            Some(h) => r is Ok && r->Ok_0@ == dir_path(h@),
            None => r is Err && r->Err_0@ == "HOME not set"@,
        },
{
    match home {
        Some(h) => Ok(join(h, ".rexec".as_bytes())),
        None => Err("HOME not set".to_owned()),
    }
}

/// The file of the transcript with this name.
pub fn path_for(home: Option<&[u8]>, name: &str) -> (r: Result<Vec<u8>, String>)
    ensures
        match home {
            Some(h) => r is Ok && r->Ok_0@ == transcript_path(h@, name@),
            None => r is Err && r->Err_0@ == "HOME not set"@,
        },
{
    match dir(home) {
        Ok(d) => {
            let mut file = name.to_owned();
            file.append(".jsonl");
            Ok(join(d.as_slice(), file.as_str().as_bytes()))
        },
        Err(e) => Err(e),
    }
}

/// A transcript in a listing.
#[derive(Debug)]
pub struct TranscriptListing {
    /// Its name.
    pub name: String,
    /// How many commands it holds.
    pub command_count: usize,
}

/// A listing as it is printed.
pub fn listing_line(listing: &TranscriptListing) -> (r: String)
    ensures
        r@ == listing.name@ + " commands="@ + decimal_text(listing.command_count as nat),
{
    let mut line = listing.name.clone();
    line.append(" commands=");
    push_decimal(&mut line, listing.command_count as u64);
    line
}

/// A printed listing is the name of the transcript and, in decimal digits, how many
/// commands it holds.
pub proof fn law_listing_tells_name_and_count(listing: TranscriptListing, line: String)
    requires
        call_ensures(listing_line, (&listing,), line),
    ensures
        exists|digits: Seq<char>|
            {
                &&& line@ == #[trigger] (listing.name@ + " commands="@ + digits)
                &&& number_of(digits) == listing.command_count
                &&& digits.len() > 0
                &&& forall|i: int| 0 <= i < digits.len() ==> '0' <= #[trigger] digits[i] <= '9'
            },
{
    law_numeral_stands_for_its_number(listing.command_count as nat);
}

/// The transcript of a name lies in the directory `.rexec` below the home directory, in a
/// file with that name and `.jsonl` behind it. Without a home directory there is no place
/// for it.
pub proof fn law_transcripts_lie_below_home(
    home: Option<&[u8]>,
    name: &str,
    r: Result<Vec<u8>, String>,
)
    requires
        call_ensures(path_for, (home, name), r),
        name@.len() > 0 ==> name@[0] != '/',
    ensures
        r is Ok <==> home is Some,
        r is Err ==> r->Err_0@ == "HOME not set"@,
        r is Ok && home->0@.len() > 0 && home->0@.last() != 0x2f ==> r->Ok_0@ == home->0@
            + encode_utf8("/.rexec/"@ + name@ + ".jsonl"@),
        r is Ok && (home->0@.len() == 0 || home->0@.last() == 0x2f) ==> r->Ok_0@ == home->0@
            + encode_utf8(".rexec/"@ + name@ + ".jsonl"@),
{
    if let Some(h) = home {
        let base = h@;
        reveal_strlit(".rexec");
        reveal_strlit(".jsonl");
        reveal_strlit("/.rexec/");
        reveal_strlit(".rexec/");
        let dot = encode_utf8(".rexec"@);
        let rest = name@ + ".jsonl"@;
        let file = encode_utf8(rest);
        let slash = seq![0x2fu8];
        lemma_ascii(".rexec"@);
        lemma_ascii("/.rexec/"@);
        lemma_ascii(".rexec/"@);
        lemma_first_byte(rest);
        assert(encode_utf8("/.rexec/"@) =~= slash + dot + slash);
        assert(encode_utf8(".rexec/"@) =~= dot + slash);
        lemma_encode_concat("/.rexec/"@, rest);
        lemma_encode_concat(".rexec/"@, rest);
        assert("/.rexec/"@ + name@ + ".jsonl"@ =~= "/.rexec/"@ + rest);
        assert(".rexec/"@ + name@ + ".jsonl"@ =~= ".rexec/"@ + rest);
        assert(dot[0] == 0x2e);
        assert(dot.last() == 0x63);
        let below = dir_path(base);
        assert(below.last() == dot.last());
        assert(r->Ok_0@ == below + slash + file);
        if base.len() > 0 && base.last() != 0x2f {
            assert(r->Ok_0@ =~= base + (slash + dot + slash + file));
        } else {
            assert(r->Ok_0@ =~= base + (dot + slash + file));
        }
    }
}

proof fn lemma_first_byte(s: Seq<char>)
    requires
        s.len() > 0,
        s[0] != '/',
    ensures
        encode_utf8(s).len() > 0,
        encode_utf8(s)[0] != 0x2f,
{
    let head = seq![s[0]];
    assert(s =~= head + s.drop_first());
    lemma_encode_concat(head, s.drop_first());
    lemma_encode_lacks(head, '/', 0x2f);
    vstd::utf8::encode_utf8_first_scalar(head);
    assert(encode_utf8(head).contains(encode_utf8(head)[0]));
}

/// The bytes of the ending of transcript files, `.jsonl`.
pub open spec fn ending() -> Seq<u8> {
    seq![0x2eu8, 0x6a, 0x73, 0x6f, 0x6e, 0x6c]
}

/// The name of the transcript in a file with this name: the part before the
/// ending, if the file has that ending and the part is not empty and is text.
pub open spec fn name_in_file(file: Seq<u8>) -> Option<Seq<char>> {
    let stem = file.take(file.len() - 6);
    if file.len() > 6 && file.skip(file.len() - 6) == ending() && valid_utf8(stem) {
        Some(decode_utf8(stem))
    } else {
        None
    }
}

/// The names of the transcripts in a list of files.
pub open spec fn names_in_files(files: Seq<Vec<u8>>) -> Seq<Seq<char>>
    decreases files.len(),
{
    if files.len() == 0 {
        Seq::empty()
    } else {
        match name_in_file(files.last()@) {
            Some(name) => names_in_files(files.drop_last()).push(name),
            None => names_in_files(files.drop_last()),
        }
    }
}

/// Whether no name comes before a later one in the order of texts. Names are
/// dates, so the newest stands first.
pub open spec fn newest_first(names: Seq<Seq<char>>) -> bool {
    forall|i: int, j: int|
        0 <= i < j < names.len() ==> !precedes(#[trigger] names[i], #[trigger] names[j])
}

/// Whether `listed` are the newest `limit` of `names`, or all if there are fewer,
/// newest first.
pub open spec fn is_newest(listed: Seq<Seq<char>>, names: Seq<Seq<char>>, limit: nat) -> bool {
    exists|all: Seq<Seq<char>>|
        {
            &&& #[trigger] all.to_multiset() == names.to_multiset()
            &&& newest_first(all)
            &&& listed == if limit < all.len() {
                all.take(limit as int)
            } else {
                all
            }
        }
}

fn name_of_file(file: &Vec<u8>) -> (r: Option<String>)
    ensures
        crate::protocol::optional_text(r) == name_in_file(file@),
{
    let n = file.len();
    if n <= 6 {
        return None;
    }
    let at = n - 6;
    let ghost tail = file@.skip(at as int);
    if file[at] == 0x2e && file[at + 1] == 0x6a && file[at + 2] == 0x73 && file[at + 3] == 0x6f
        && file[at + 4] == 0x6e && file[at + 5] == 0x6c {
        assert(tail =~= ending());
        let stem = vstd::slice::slice_subrange(file.as_slice(), 0, at);
        assert(stem@ =~= file@.take(at as int));
        match utf8_text(stem) {
            Some(name) => Some(name.to_owned()),
            None => None,
        }
    } else {
        proof {
            if tail == ending() {
                assert(tail[0] == file@[at as int] && tail[1] == file@[at + 1] && tail[2] == file@[at
                    + 2] && tail[3] == file@[at + 3] && tail[4] == file@[at + 4] && tail[5]
                    == file@[at + 5]);
            }
        }
        None
    }
}

/// Adds a name to names that stand newest first.
fn insert_name(names: &mut Vec<String>, name: String)
    requires
        newest_first(texts(old(names)@)),
    ensures
        newest_first(texts(final(names)@)),
        texts(final(names)@).to_multiset() == texts(old(names)@).to_multiset().insert(name@),
{
    let ghost before = texts(names@);
    let mut at: usize = 0;
    while at < names.len() && text_precedes(name.as_str(), names[at].as_str())
        invariant
            at <= names.len(),
            before == texts(names@),
            newest_first(before),
            forall|i: int| 0 <= i < at ==> precedes(name@, #[trigger] before[i]),
        decreases names.len() - at,
    {
        assert(before[at as int] == names@[at as int]@);
        at = at + 1;
    }
    let ghost after = before.insert(at as int, name@);
    proof {
        assert(at < before.len() ==> before[at as int] == names@[at as int]@);
        vstd::seq_lib::to_multiset_insert(before, at as int, name@);
        assert forall|i: int, j: int| 0 <= i < j < after.len() implies !precedes(
            #[trigger] after[i],
            #[trigger] after[j],
        ) by {
            let x = if i < at {
                i
            } else {
                i - 1
            };
            let y = if j < at {
                j
            } else {
                j - 1
            };
            if i != at && j != at {
                assert(!precedes(before[x], before[y]));
            } else if i == at {
                if precedes(name@, before[y]) {
                    lemma_precedes_total(name@, before[at as int]);
                    if y > at {
                        assert(!precedes(before[at as int], before[y]));
                        lemma_precedes_total(before[at as int], before[y]);
                        if before[at as int] != before[y] {
                            lemma_precedes_transitive(name@, before[y], before[at as int]);
                        }
                    }
                }
            } else {
                lemma_precedes_total(name@, before[x]);
            }
        }
    }
    names.insert(at, name);
    assert(texts(names@) =~= after);
}

/// The names of the newest transcripts among files, newest first.
pub fn recent_names(files: &Vec<Vec<u8>>, limit: usize) -> (r: Vec<String>)
    ensures
        is_newest(texts(r@), names_in_files(files@), limit as nat),
{
    let mut names: Vec<String> = Vec::new();
    let mut i: usize = 0;
    assert(texts(names@) =~= Seq::empty());
    while i < files.len()
        invariant
            i <= files.len(),
            newest_first(texts(names@)),
            texts(names@).to_multiset() == names_in_files(files@.take(i as int)).to_multiset(),
        decreases files.len() - i,
    {
        proof {
            assert(files@.take(i + 1).drop_last() =~= files@.take(i as int));
            assert(files@.take(i + 1).last() == files@[i as int]);
        }
        match name_of_file(&files[i]) {
            Some(name) => {
                proof {
                    vstd::seq_lib::to_multiset_build(
                        names_in_files(files@.take(i as int)),
                        name@,
                    );
                }
                insert_name(&mut names, name);
            },
            None => {},
        }
        i = i + 1;
    }
    assert(files@.take(files@.len() as int) =~= files@);
    let ghost all = texts(names@);
    names.truncate(limit);
    proof {
        assert(texts(names@) =~= if limit < all.len() {
            all.take(limit as int)
        } else {
            all
        });
        assert(all.to_multiset() == names_in_files(files@).to_multiset());
    }
    names
}

/// A file holds the transcript of a name exactly if it is called by that name with
/// `.jsonl` behind it, and the name is not empty.
pub proof fn law_file_is_called_by_its_transcript(file: Seq<u8>, name: Seq<char>)
    ensures
        name_in_file(file) == Some(name) <==> name.len() > 0 && file == encode_utf8(name) + seq![
            0x2eu8,
            0x6a,
            0x73,
            0x6f,
            0x6e,
            0x6c,
        ],
{
    broadcast use vstd::utf8::encode_utf8_valid_utf8;
    broadcast use vstd::utf8::encode_utf8_decode_utf8;
    broadcast use vstd::utf8::decode_utf8_encode_utf8;

    let tail = seq![0x2eu8, 0x6a, 0x73, 0x6f, 0x6e, 0x6c];
    let stem = file.take(file.len() - 6);
    if name_in_file(file) == Some(name) {
        assert(file =~= stem + tail);
        assert(encode_utf8(name) == stem);
        if name.len() == 0 {
            assert(encode_utf8(name) =~= Seq::empty());
        }
    }
    if name.len() > 0 && file == encode_utf8(name) + tail {
        vstd::utf8::encode_utf8_first_scalar(name);
        assert(stem =~= encode_utf8(name));
        assert(file.skip(file.len() - 6) =~= tail);
    }
}

/// Every file counts, in its place: the candidates of two lists of files are those of
/// the one and then those of the other, and there is one for each file that holds a
/// transcript.
pub proof fn law_every_file_counts(files: Seq<Vec<u8>>, more: Seq<Vec<u8>>)
    ensures
        names_in_files(files + more) == names_in_files(files) + names_in_files(more),
        names_in_files(files).len() == files.filter(
            |file: Vec<u8>| name_in_file(file@) is Some,
        ).len(),
        forall|file: Vec<u8>| #[trigger]
            names_in_files(seq![file]) == match name_in_file(file@) {
                Some(name) => seq![name],
                None => Seq::<Seq<char>>::empty(),
            },
    decreases files.len() + more.len(),
{
    assert forall|file: Vec<u8>| #[trigger]
        names_in_files(seq![file]) == match name_in_file(file@) {
            Some(name) => seq![name],
            None => Seq::<Seq<char>>::empty(),
        } by {
        assert(seq![file].drop_last() =~= Seq::empty());
        assert(names_in_files(Seq::empty()) =~= Seq::empty());
    }
    reveal(Seq::filter);
    if files.len() > 0 {
        law_every_file_counts(files.drop_last(), Seq::empty());
    }
    if more.len() > 0 {
        law_every_file_counts(files, more.drop_last());
        assert((files + more).drop_last() =~= files + more.drop_last());
        assert(names_in_files(files + more) =~= names_in_files(files) + names_in_files(more));
    } else {
        assert(files + more =~= files);
        assert(names_in_files(files) + names_in_files(more) =~= names_in_files(files));
    }
}

/// How often a name is carried by files.
pub open spec fn carried(files: Seq<Vec<u8>>, name: Seq<char>) -> nat {
    files.filter(|file: Vec<u8>| name_in_file(file@) == Some(name)).len()
}

/// A name is among the candidates as often as files carry it.
pub proof fn law_names_are_counted_by_files(files: Seq<Vec<u8>>, name: Seq<char>)
    ensures
        names_in_files(files).to_multiset().count(name) == carried(files, name),
    decreases files.len(),
{
    reveal(Seq::filter);
    broadcast use vstd::seq_lib::group_to_multiset_ensures;

    if files.len() > 0 {
        let head = files.drop_last();
        law_names_are_counted_by_files(head, name);
        if let Some(last) = name_in_file(files.last()@) {
            vstd::seq_lib::to_multiset_build(names_in_files(head), last);
        }
    } else {
        assert(names_in_files(files) =~= Seq::empty());
    }
}

/// A listing shows the newest transcripts, newest first. It is as long as its limit
/// allows and there are files. Every name in it is that of a file, as often as files
/// carry it at most. A name that it does not show as often as files carry it is not
/// later than any that it shows, and with a limit that no file exceeds there is none.
pub proof fn law_listing_shows_the_newest(files: Vec<Vec<u8>>, limit: usize, listed: Vec<String>)
    requires
        call_ensures(recent_names, (&files, limit), listed),
    ensures
        ({
            let transcripts = files@.filter(|file: Vec<u8>| name_in_file(file@) is Some).len();
            &&& limit <= transcripts ==> listed@.len() == limit
            &&& limit >= transcripts ==> listed@.len() == transcripts
            &&& limit >= transcripts ==> forall|name: Seq<char>|
                texts(listed@).to_multiset().count(name) == #[trigger] carried(files@, name)
        }),
        forall|i: int, j: int|
            0 <= i < j < listed@.len() ==> !precedes(
                (#[trigger] listed@[i])@,
                (#[trigger] listed@[j])@,
            ),
        forall|name: Seq<char>|
            texts(listed@).to_multiset().count(name) <= #[trigger] carried(files@, name),
        forall|name: Seq<char>, i: int|
            texts(listed@).to_multiset().count(name) < #[trigger] carried(files@, name) && 0 <= i
                < listed@.len() ==> !precedes((#[trigger] listed@[i])@, name),
{
    broadcast use vstd::seq_lib::group_to_multiset_ensures;
    broadcast use vstd::multiset::group_multiset_axioms;

    let names = names_in_files(files@);
    let shown = texts(listed@);
    law_texts_are_those_of_the_list(listed@);
    law_every_file_counts(files@, Seq::empty());
    let all = choose|all: Seq<Seq<char>>|
        {
            &&& #[trigger] all.to_multiset() == names.to_multiset()
            &&& newest_first(all)
            &&& shown == if limit < all.len() {
                all.take(limit as int)
            } else {
                all
            }
        };
    vstd::seq_lib::to_multiset_len(all);
    vstd::seq_lib::to_multiset_len(names);
    let rest = all.skip(shown.len() as int);
    assert(all =~= shown + rest);
    vstd::seq_lib::lemma_multiset_commutative(shown, rest);
    assert forall|i: int, j: int| 0 <= i < j < listed@.len() implies !precedes(
        (#[trigger] listed@[i])@,
        (#[trigger] listed@[j])@,
    ) by {
        assert(all[i] == shown[i] && all[j] == shown[j]);
        assert(shown[i] == listed@[i]@ && shown[j] == listed@[j]@);
    }
    assert forall|name: Seq<char>|
        shown.to_multiset().count(name) <= #[trigger] carried(files@, name) by {
        law_names_are_counted_by_files(files@, name);
    }
    if limit >= all.len() {
        assert forall|name: Seq<char>|
            shown.to_multiset().count(name) == #[trigger] carried(files@, name) by {
            law_names_are_counted_by_files(files@, name);
        }
    }
    assert forall|name: Seq<char>, i: int|
        shown.to_multiset().count(name) < #[trigger] carried(files@, name) && 0 <= i
            < listed@.len() implies !precedes((#[trigger] listed@[i])@, name) by {
        law_names_are_counted_by_files(files@, name);
        assert(rest.to_multiset().count(name) > 0);
        assert(rest.contains(name));
        let k = choose|k: int| 0 <= k < rest.len() && rest[k] == name;
        assert(all[shown.len() + k] == name);
        assert(all[i] == shown[i]);
        assert(shown[i] == listed@[i]@);
        assert(!precedes(all[i], all[shown.len() + k]));
    }
}

/// A line without a carriage return at its end.
pub open spec fn without_cr(line: Seq<char>) -> Seq<char> {
    if line.len() > 0 && line.last() == '\r' {
        line.drop_last()
    } else {
        line
    }
}

/// The lines of a text, without the line feed, or the carriage return and line
/// feed, that ends each. A last line need not be ended.
pub open spec fn lines_of(text: Seq<char>) -> Seq<Seq<char>>
    decreases text.len(),
{
    let end = first_of(text, '\n');
    if text.len() == 0 {
        Seq::empty()
    } else if 0 <= end < text.len() {
        seq![without_cr(text.take(end))] + lines_of(text.skip(end + 1))
    } else {
        seq![text]
    }
}

/// The lines that are not blank.
pub open spec fn not_blank(lines: Seq<Seq<char>>) -> Seq<Seq<char>>
    decreases lines.len(),
{
    if lines.len() == 0 {
        Seq::empty()
    } else if blank(lines[0]) {
        not_blank(lines.drop_first())
    } else {
        seq![lines[0]] + not_blank(lines.drop_first())
    }
}

/// The lines of a transcript that hold entries: those that are not blank. `None`
/// if the transcript is not text.
pub fn entry_lines(contents: &[u8]) -> (r: Option<Vec<String>>)
    ensures
        r is Some <==> valid_utf8(contents@),
        r matches Some(lines) ==> texts(lines@) == not_blank(lines_of(decode_utf8(contents@))),
{
    let text = match utf8_text(contents) {
        Some(text) => text,
        None => {
            return None;
        },
    };
    let chars = chars_of(text);
    let mut lines: Vec<String> = Vec::new();
    let mut start: usize = 0;
    let ghost goal = not_blank(lines_of(chars@));
    proof {
        assert(chars@.skip(0) =~= chars@);
        assert(texts(lines@) + goal =~= goal);
    }
    while start < chars.len()
        invariant
            start <= chars.len(),
            goal == not_blank(lines_of(chars@)),
            texts(lines@) + not_blank(lines_of(chars@.skip(start as int))) == goal,
        decreases chars.len() - start,
    {
        let mut end: usize = start;
        while end < chars.len() && chars[end] != '\n'
            invariant
                start <= end <= chars.len(),
                forall|i: int| start <= i < end ==> #[trigger] chars@[i] != '\n',
            decreases chars.len() - end,
        {
            end = end + 1;
        }
        let ghost rest = chars@.skip(start as int);
        proof {
            assert forall|i: int| 0 <= i < end - start implies #[trigger] rest[i] != '\n' by {
                assert(chars@[start + i] != '\n');
            }
            lemma_first_of_is(rest, '\n', end - start);
        }
        let ended = end < chars.len();
        let mut stop = end;
        if ended && start < end && chars[end - 1] == '\r' {
            stop = end - 1;
        }
        let line = string_of(&chars, start, stop);
        let next = if ended {
            end + 1
        } else {
            end
        };
        let ghost tail = lines_of(chars@.skip(next as int));
        proof {
            if ended {
                assert(line@ =~= without_cr(rest.take(end - start)));
                assert(rest.skip(end - start + 1) =~= chars@.skip(next as int));
            } else {
                assert(line@ =~= rest);
                assert(chars@.skip(next as int) =~= Seq::empty());
                assert(tail =~= Seq::empty());
            }
            assert(lines_of(rest) =~= seq![line@] + tail);
            assert((seq![line@] + tail).drop_first() =~= tail);
        }
        let ghost before = texts(lines@);
        if !is_blank(line.as_str()) {
            lines.push(line);
            proof {
                assert(texts(lines@) =~= before.push(line@));
                assert(before + (seq![line@] + not_blank(tail)) =~= texts(lines@) + not_blank(tail));
            }
        }
        start = next;
    }
    proof {
        assert(chars@.skip(start as int) =~= Seq::empty());
        assert(lines_of(Seq::<char>::empty()) =~= Seq::empty());
        assert(texts(lines@) =~= goal);
    }
    Some(lines)
}

/// How many commands a transcript holds: its lines that are not blank. A
/// transcript that is not text counts as empty.
pub fn count_lines(contents: &[u8]) -> (r: usize)
    ensures
        r == if valid_utf8(contents@) {
            not_blank(lines_of(decode_utf8(contents@))).len()
        } else {
            0
        },
{
    match entry_lines(contents) {
        Some(lines) => {
            assert(texts(lines@).len() == lines@.len());
            lines.len()
        },
        None => 0,
    }
}

/// A text is a row of lines: each goes up to the next line feed, or a last one to the
/// end. A carriage return before the line feed does not belong to its line.
pub proof fn law_text_is_a_row_of_lines(line: Seq<char>, rest: Seq<char>)
    requires
        forall|i: int| 0 <= i < line.len() ==> #[trigger] line[i] != '\n',
    ensures
        line.len() == 0 || line.last() != '\r' ==> lines_of(line + seq!['\n'] + rest) == seq![line]
            + lines_of(rest),
        lines_of(line + seq!['\r', '\n'] + rest) == seq![line] + lines_of(rest),
        line.len() > 0 ==> lines_of(line) == seq![line],
        lines_of(Seq::empty()) == Seq::<Seq<char>>::empty(),
{
    let one = line + seq!['\n'] + rest;
    let two = line + seq!['\r', '\n'] + rest;
    let n = line.len() as int;
    lemma_first_of_is(one, '\n', n);
    lemma_first_of_is(two, '\n', n + 1);
    lemma_first_of_is(line, '\n', n);
    assert(one.take(n) =~= line);
    assert(one.skip(n + 1) =~= rest);
    assert(two.take(n + 1) =~= line.push('\r'));
    assert(without_cr(line.push('\r')) =~= line);
    assert(two.skip(n + 2) =~= rest);
}

/// Of lines, those are left out that hold nothing but white space, and no others. The
/// order stays.
pub proof fn law_only_blank_lines_are_left_out(lines: Seq<Seq<char>>)
    ensures
        not_blank(lines) == lines.filter(|line: Seq<char>| trimmed(line).len() > 0),
    decreases lines.len(),
{
    let p = |line: Seq<char>| trimmed(line).len() > 0;
    if lines.len() > 0 {
        let tail = lines.drop_first();
        law_only_blank_lines_are_left_out(tail);
        law_blank_text_is_trimmed_away(lines[0]);
        assert(lines =~= seq![lines[0]] + tail);
        reveal(Seq::filter);
        let first = seq![lines[0]];
        assert(first.drop_last() =~= Seq::empty());
        assert(Seq::<Seq<char>>::empty().filter(p) =~= Seq::empty());
        assert(first.filter(p) =~= if p(lines[0]) {
            first
        } else {
            Seq::empty()
        });
        Seq::filter_distributes_over_add(seq![lines[0]], tail, p);
        assert(not_blank(lines) =~= lines.filter(p));
    } else {
        reveal(Seq::filter);
        assert(not_blank(lines) =~= lines.filter(p));
    }
}

/// A transcript holds as many commands as its text has lines that are not blank, and
/// none if it is not text.
pub proof fn law_commands_are_lines(contents: &[u8], count: usize, lines: Option<Vec<String>>)
    requires
        call_ensures(count_lines, (contents,), count),
        call_ensures(entry_lines, (contents,), lines),
    ensures
        lines is Some <==> valid_utf8(contents@),
        lines is Some ==> count == lines->0@.len(),
        lines is None ==> count == 0,
        lines is Some ==> texts(lines->0@) == lines_of(decode_utf8(contents@)).filter(
            |line: Seq<char>| trimmed(line).len() > 0,
        ),
{
    law_only_blank_lines_are_left_out(lines_of(decode_utf8(contents@)));
    if let Some(list) = lines {
        law_texts_are_those_of_the_list(list@);
    }
}

/// The byte that ends a line.
pub const LINE_FEED: u8 = 0x0a;

/// How many bytes of `s` belong to ended lines.
pub open spec fn ended_len(s: Seq<u8>) -> int
    decreases s.len(),
{
    let end = first_of(s, LINE_FEED);
    if 0 <= end < s.len() {
        end + 1 + ended_len(s.skip(end + 1))
    } else {
        0
    }
}

/// The ended lines of `s` that are not empty, without their line feeds.
pub open spec fn ended_lines(s: Seq<u8>) -> Seq<Seq<u8>>
    decreases s.len(),
{
    let end = first_of(s, LINE_FEED);
    if 0 <= end < s.len() {
        let rest = ended_lines(s.skip(end + 1));
        if end == 0 {
            rest
        } else {
            seq![s.take(end)] + rest
        }
    } else {
        Seq::empty()
    }
}

/// The messages of lines: those that are text, without the white space at their
/// ends.
pub open spec fn messages_of(lines: Seq<Seq<u8>>) -> Seq<Seq<char>>
    decreases lines.len(),
{
    if lines.len() == 0 {
        Seq::empty()
    } else if valid_utf8(lines[0]) {
        seq![trimmed_end(decode_utf8(lines[0]))] + messages_of(lines.drop_first())
    } else {
        messages_of(lines.drop_first())
    }
}

/// How far a transcript that grows has been read.
#[derive(Debug)]
pub struct Follower {
    /// How many bytes have been read.
    pub offset: u64,
}

impl Follower {
    /// Nothing has been read.
    pub fn new() -> (r: Self)
        ensures
            r.offset == 0,
    {
        Follower { offset: 0 }
    }

    /// Whether a transcript of this length holds anything new.
    pub fn has_news(&self, len: u64) -> (r: bool)
        ensures
            r == (len > self.offset),
    {
        len > self.offset
    }

    /// Takes the bytes behind those that have been read. Returns the messages of
    /// the lines that are ended; a last line that is not is left for later.
    pub fn read(&mut self, tail: &[u8]) -> (r: Vec<String>)
        requires
            old(self).offset + tail@.len() <= u64::MAX,
        ensures
            texts(r@) == messages_of(ended_lines(tail@)),
            final(self).offset == old(self).offset + ended_len(tail@),
    {
        let mut messages: Vec<String> = Vec::new();
        let mut start: usize = 0;
        let ghost goal = messages_of(ended_lines(tail@));
        proof {
            assert(tail@.skip(0) =~= tail@);
            assert(texts(messages@) + goal =~= goal);
        }
        loop
            invariant
                start <= tail.len(),
                goal == messages_of(ended_lines(tail@)),
                texts(messages@) + messages_of(ended_lines(tail@.skip(start as int))) == goal,
                start + ended_len(tail@.skip(start as int)) == ended_len(tail@),
            ensures
                ended_len(tail@.skip(start as int)) == 0,
                ended_lines(tail@.skip(start as int)).len() == 0,
            decreases tail.len() - start,
        {
            let mut end: usize = start;
            while end < tail.len() && tail[end] != LINE_FEED
                invariant
                    start <= end <= tail.len(),
                    forall|i: int| start <= i < end ==> #[trigger] tail@[i] != LINE_FEED,
                decreases tail.len() - end,
            {
                end = end + 1;
            }
            let ghost rest = tail@.skip(start as int);
            proof {
                assert forall|i: int| 0 <= i < end - start implies #[trigger] rest[i]
                    != LINE_FEED by {
                    assert(tail@[start + i] != LINE_FEED);
                }
                lemma_first_of_is(rest, LINE_FEED, end - start);
            }
            if end == tail.len() {
                break;
            }
            let line = vstd::slice::slice_subrange(tail, start, end);
            let ghost after = ended_lines(tail@.skip(end + 1));
            proof {
                assert(line@ =~= rest.take(end - start));
                assert(rest.skip(end - start + 1) =~= tail@.skip(end + 1));
            }
            if line.len() > 0 {
                proof {
                    assert((seq![line@] + after).drop_first() =~= after);
                    assert((seq![line@] + after)[0] == line@);
                }
                let ghost before = texts(messages@);
                match utf8_text(line) {
                    Some(text) => {
                        let message = message_of_line(text);
                        proof {
                            assert(before + (seq![message@] + messages_of(after)) =~= before.push(
                                message@,
                            ) + messages_of(after));
                        }
                        messages.push(message);
                        assert(texts(messages@) =~= before.push(message@));
                    },
                    None => {},
                }
            }
            start = end + 1;
        }
        assert(texts(messages@) =~= goal) by {
            assert(messages_of(ended_lines(tail@.skip(start as int))) =~= Seq::empty());
        }
        self.offset = self.offset + start as u64;
        messages
    }
}

/// What a follower takes of a transcript is a row of lines up to its last line feed: each
/// counts with its line feed and, unless it is empty, is read. What is not ended is left.
pub proof fn law_follower_takes_ended_lines(line: Seq<u8>, rest: Seq<u8>)
    requires
        forall|i: int| 0 <= i < line.len() ==> #[trigger] line[i] != 0x0a,
    ensures
        ended_len(line + seq![0x0au8] + rest) == line.len() + 1 + ended_len(rest),
        line.len() > 0 ==> ended_lines(line + seq![0x0au8] + rest) == seq![line] + ended_lines(
            rest,
        ),
        line.len() == 0 ==> ended_lines(line + seq![0x0au8] + rest) == ended_lines(rest),
        ended_len(line) == 0,
        ended_lines(line) == Seq::<Seq<u8>>::empty(),
{
    let one = line + seq![0x0au8] + rest;
    let n = line.len() as int;
    lemma_first_of_is(one, LINE_FEED, n);
    lemma_first_of_is(line, LINE_FEED, n);
    assert(one.take(n) =~= line);
    assert(one.skip(n + 1) =~= rest);
}

/// A follower gives every line that is text, without the white space at its end, and in
/// order.
pub proof fn law_follower_gives_lines_of_text(line: Seq<u8>, rest: Seq<Seq<u8>>)
    ensures
        valid_utf8(line) ==> messages_of(seq![line] + rest) == seq![trimmed_end(decode_utf8(line))]
            + messages_of(rest),
        !valid_utf8(line) ==> messages_of(seq![line] + rest) == messages_of(rest),
        messages_of(Seq::empty()) == Seq::<Seq<char>>::empty(),
{
    assert((seq![line] + rest).drop_first() =~= rest);
}

/// A follower begins at the start of a transcript, and there is news for it exactly if the
/// transcript is longer than what it has read.
pub proof fn law_follower_knows_what_is_new(
    fresh: Follower,
    follower: Follower,
    len: u64,
    news: bool,
)
    requires
        call_ensures(Follower::new, (), fresh),
        call_ensures(Follower::has_news, (&follower, len), news),
    ensures
        fresh.offset == 0,
        news <==> follower.offset < len,
{
}

/// A follower has read as far as it says: behind a read, what it has not read begins where
/// the last ended line ends, and a line that was not ended is read when it is.
pub proof fn law_follower_reads_on(
    follower: &mut Follower,
    later: &mut Follower,
    line: Seq<u8>,
    tail: &[u8],
    rest: &[u8],
    read: Vec<String>,
    then: Vec<String>,
)
    requires
        old(follower).offset + tail@.len() <= u64::MAX,
        old(later).offset + rest@.len() <= u64::MAX,
        call_ensures(Follower::read, (follower, tail), read),
        call_ensures(Follower::read, (later, rest), then),
        *old(later) == *final(follower),
        line.len() > 0,
        forall|i: int| 0 <= i < line.len() ==> #[trigger] line[i] != 0x0a,
        valid_utf8(line),
        tail@ == line,
        rest@ == line + seq![0x0au8],
    ensures
        read@.len() == 0,
        final(follower).offset == old(follower).offset,
        then@.len() == 1,
        then@[0]@ == trimmed_end(decode_utf8(line)),
        final(later).offset == old(follower).offset + line.len() + 1,
{
    law_follower_takes_ended_lines(line, Seq::empty());
    law_follower_takes_ended_lines(Seq::empty(), Seq::empty());
    law_follower_gives_lines_of_text(line, Seq::empty());
    assert(line + seq![0x0au8] + Seq::<u8>::empty() =~= rest@);
    assert(seq![line] + Seq::<Seq<u8>>::empty() =~= seq![line]);
    law_texts_are_those_of_the_list(read@);
    law_texts_are_those_of_the_list(then@);
    assert(messages_of(Seq::<Seq<u8>>::empty()).len() == 0);
    assert(texts(then@) =~= seq![trimmed_end(decode_utf8(line))]);
    assert(texts(then@)[0] == then@[0]@);
}

/// A transcript that is read while it grows gives the same lines as one that is
/// read at once: reading `a`, and then what was left of it with `b` behind it,
/// gives the lines of `a + b`, none twice and none left out.
pub proof fn law_following_misses_nothing(a: Seq<u8>, b: Seq<u8>)
    ensures
        0 <= ended_len(a) <= a.len(),
        ended_lines(a + b) == ended_lines(a) + ended_lines(a.skip(ended_len(a)) + b),
        ended_len(a + b) == ended_len(a) + ended_len(a.skip(ended_len(a)) + b),
    decreases a.len(),
{
    lemma_first_of(a, LINE_FEED);
    let end = first_of(a, LINE_FEED);
    if end < a.len() {
        let rest = a.skip(end + 1);
        law_following_misses_nothing(rest, b);
        assert forall|i: int| 0 <= i < end implies #[trigger] (a + b)[i] != LINE_FEED by {
            assert(a[i] != LINE_FEED);
        }
        lemma_first_of_is(a + b, LINE_FEED, end);
        assert((a + b).skip(end + 1) =~= rest + b);
        assert((a + b).take(end) =~= a.take(end));
        assert(a.skip(ended_len(a)) =~= rest.skip(ended_len(rest)));
        assert(ended_lines(a + b) =~= ended_lines(a) + ended_lines(a.skip(ended_len(a)) + b));
    } else {
        assert(a.skip(0) =~= a);
        assert(ended_lines(a + b) =~= ended_lines(a) + ended_lines(a + b));
    }
}

/// A transcript that is written is listed: the file of a transcript carries its
/// name.
pub proof fn law_transcript_file_is_listed(name: Seq<char>)
    requires
        name.len() > 0,
    ensures
        name_in_file(encode_utf8(name + ".jsonl"@)) == Some(name),
{
    broadcast use vstd::utf8::is_ascii_chars_encode_utf8;
    broadcast use vstd::utf8::encode_utf8_valid_utf8;
    broadcast use vstd::utf8::encode_utf8_decode_utf8;

    reveal_strlit(".jsonl");
    let file = encode_utf8(name + ".jsonl"@);
    let stem = encode_utf8(name);
    lemma_encode_concat(name, ".jsonl"@);
    let tail = ".jsonl"@;
    assert(vstd::utf8::is_ascii_chars(tail));
    assert(tail =~= seq!['.', 'j', 's', 'o', 'n', 'l']);
    assert forall|i: int| 0 <= i < 6 implies #[trigger] encode_utf8(tail)[i] == ending()[i] by {
        assert(encode_utf8(tail)[i] == tail[i] as u8);
    }
    assert(encode_utf8(tail) =~= ending());
    assert(file.skip(file.len() - 6) =~= ending());
    assert(file.take(file.len() - 6) =~= stem);
    vstd::utf8::encode_utf8_first_scalar(name);
}

/// Whether a message can stand on a line of its own: it is not empty, holds no line
/// feed, and does not end in white space.
pub open spec fn is_message(body: Seq<char>) -> bool {
    body.len() > 0 && !body.contains('\n') && !white_space(body.last())
}

/// A transcript with the given messages, each on a line of its own.
pub open spec fn written(bodies: Seq<Seq<char>>) -> Seq<char>
    decreases bodies.len(),
{
    if bodies.len() == 0 {
        Seq::empty()
    } else {
        bodies[0].push('\n') + written(bodies.drop_first())
    }
}

/// Reading a whole transcript gives back the messages that were written to it, in
/// order, and so counts as many commands as were written.
pub proof fn law_written_messages_are_counted(bodies: Seq<Seq<char>>)
    requires
        forall|i: int| 0 <= i < bodies.len() ==> is_message(#[trigger] bodies[i]),
    ensures
        not_blank(lines_of(written(bodies))) == bodies,
    decreases bodies.len(),
{
    if bodies.len() == 0 {
        assert(bodies =~= Seq::empty());
    } else {
        let body = bodies[0];
        let tail = bodies.drop_first();
        let text = written(bodies);
        assert(is_message(body));
        assert forall|i: int| 0 <= i < tail.len() implies is_message(#[trigger] tail[i]) by {
            assert(is_message(bodies[i + 1]));
        }
        law_written_messages_are_counted(tail);
        assert forall|i: int| 0 <= i < body.len() implies #[trigger] text[i] != '\n' by {
            assert(text[i] == body[i]);
            assert(body.contains(body[i]));
        }
        lemma_first_of_is(text, '\n', body.len() as int);
        assert(text.take(body.len() as int) =~= body);
        assert(text.skip(body.len() as int + 1) =~= written(tail));
        assert(without_cr(body) == body);
        assert(!blank(body)) by {
            assert(!white_space(body[body.len() - 1]));
        }
        let lines = lines_of(text);
        assert(lines.drop_first() =~= lines_of(written(tail)));
        assert(lines[0] == body);
        assert(seq![body] + tail =~= bodies);
    }
}

/// Following a transcript gives the messages that were written to it, in order, and
/// leaves nothing of them for later.
pub proof fn law_written_messages_are_followed(bodies: Seq<Seq<char>>)
    requires
        forall|i: int| 0 <= i < bodies.len() ==> is_message(#[trigger] bodies[i]),
    ensures
        messages_of(ended_lines(encode_utf8(written(bodies)))) == bodies,
        ended_len(encode_utf8(written(bodies))) == encode_utf8(written(bodies)).len(),
    decreases bodies.len(),
{
    broadcast use vstd::utf8::encode_utf8_valid_utf8;
    broadcast use vstd::utf8::encode_utf8_decode_utf8;

    let bytes = encode_utf8(written(bodies));
    if bodies.len() == 0 {
        assert(bodies =~= Seq::empty());
        assert(bytes =~= Seq::empty());
        assert(first_of(bytes, LINE_FEED) == 0);
        assert(ended_lines(bytes) =~= Seq::empty());
    } else {
        let body = bodies[0];
        let tail = bodies.drop_first();
        let head = encode_utf8(body);
        let rest = encode_utf8(written(tail));
        assert(is_message(body));
        assert forall|i: int| 0 <= i < tail.len() implies is_message(#[trigger] tail[i]) by {
            assert(is_message(bodies[i + 1]));
        }
        law_written_messages_are_followed(tail);
        lemma_encode_concat(body.push('\n'), written(tail));
        lemma_encode_concat(body, seq!['\n']);
        assert(body.push('\n') =~= body + seq!['\n']);
        lemma_encode_line_feed();
        assert(bytes =~= head + seq![LINE_FEED] + rest);
        lemma_encode_lacks(body, '\n', LINE_FEED);
        assert forall|i: int| 0 <= i < head.len() implies #[trigger] bytes[i] != LINE_FEED by {
            assert(bytes[i] == head[i]);
            assert(head.contains(head[i]));
        }
        lemma_first_of_is(bytes, LINE_FEED, head.len() as int);
        assert(bytes.take(head.len() as int) =~= head);
        assert(bytes.skip(head.len() as int + 1) =~= rest);
        vstd::utf8::encode_utf8_first_scalar(body);
        let lines = ended_lines(bytes);
        assert(lines =~= seq![head] + ended_lines(rest));
        assert(lines.drop_first() =~= ended_lines(rest));
        assert(trimmed_end(body) == body);
        assert(seq![body] + tail =~= bodies);
    }
}

/// The entries that lines hold. Lines that hold none are left out.
pub open spec fn decoded<E>(lines: Seq<Seq<char>>, decode: spec_fn(Seq<char>) -> Option<E>) -> Seq<E>
    decreases lines.len(),
{
    if lines.len() == 0 {
        Seq::empty()
    } else {
        let rest = decoded(lines.drop_first(), decode);
        match decode(lines[0]) {
            Some(entry) => seq![entry] + rest,
            None => rest,
        }
    }
}

/// In whatever way entries are written as messages, if each message is read as the
/// entry it was written for, a transcript gives back the entries that were appended
/// to it, in order and none left out, read at once or followed.
pub proof fn law_appended_entries_are_read_back<E>(
    entries: Seq<E>,
    encode: spec_fn(E) -> Seq<char>,
    decode: spec_fn(Seq<char>) -> Option<E>,
)
    requires
        forall|i: int|
            0 <= i < entries.len() ==> is_message(encode(#[trigger] entries[i])) && decode(
                encode(entries[i]),
            ) == Some(entries[i]),
    ensures
        ({
            let text = written(entries.map_values(encode));
            &&& decoded(not_blank(lines_of(text)), decode) == entries
            &&& decoded(messages_of(ended_lines(encode_utf8(text))), decode) == entries
        }),
{
    let bodies = entries.map_values(encode);
    assert forall|i: int| 0 <= i < bodies.len() implies is_message(#[trigger] bodies[i]) by {
        assert(is_message(encode(entries[i])));
    }
    law_written_messages_are_counted(bodies);
    law_written_messages_are_followed(bodies);
    lemma_decoded(entries, encode, decode);
}

proof fn lemma_decoded<E>(
    entries: Seq<E>,
    encode: spec_fn(E) -> Seq<char>,
    decode: spec_fn(Seq<char>) -> Option<E>,
)
    requires
        forall|i: int|
            0 <= i < entries.len() ==> decode(encode(#[trigger] entries[i])) == Some(entries[i]),
    ensures
        decoded(entries.map_values(encode), decode) == entries,
    decreases entries.len(),
{
    if entries.len() > 0 {
        let rest = entries.drop_first();
        assert forall|i: int| 0 <= i < rest.len() implies decode(encode(#[trigger] rest[i])) == Some(
            rest[i],
        ) by {
            assert(rest[i] == entries[i + 1]);
        }
        lemma_decoded(rest, encode, decode);
        assert(entries.map_values(encode).drop_first() =~= rest.map_values(encode));
        assert(decode(encode(entries[0])) == Some(entries[0]));
        assert(seq![entries[0]] + rest =~= entries);
    } else {
        assert(entries =~= Seq::empty());
    }
}

} // verus!
