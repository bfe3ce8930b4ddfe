//! Removes terminal control sequences from a byte stream.

use vstd::prelude::*;

verus! {

/// Where the filter stands inside the byte stream.
#[derive(Clone, Copy, Debug)]
pub enum State {
    /// Outside any control sequence.
    Normal,
    /// Directly behind an ESC byte.
    Esc,
    /// Inside a CSI sequence (`ESC [`), before its final byte.
    Csi,
    /// Inside a control string (OSC, DCS, SOS, PM or APC).
    StringSeq,
    /// Inside a control string, directly behind an ESC byte.
    StringSeqSawEsc,
}

/// The byte that opens every control sequence.
pub const ESC: u8 = 0x1b;

/// The byte that may end a control string.
pub const BEL: u8 = 0x07;

/// Whether `b` behind `ESC` opens a control string: `]`, `P`, `X`, `^` or `_`.
pub open spec fn opens_string(b: u8) -> bool {
    b == 0x5d || b == 0x50 || b == 0x58 || b == 0x5e || b == 0x5f
}

/// Whether `b` ends a CSI sequence.
pub open spec fn ends_csi(b: u8) -> bool {
    0x40 <= b <= 0x7e
}

/// The state behind `b`, when `b` is read in state `s`.
pub open spec fn next_state(s: State, b: u8) -> State {
    match s {
        State::Normal => if b == ESC {
            State::Esc
        } else {
            State::Normal
        },
        State::Esc => if b == 0x5b {
            State::Csi
        } else if opens_string(b) {
            State::StringSeq
        } else if b == ESC {
            State::Esc
        } else {
            State::Normal
        },
        State::Csi => if ends_csi(b) {
            State::Normal
        } else {
            State::Csi
        },
        State::StringSeq => if b == BEL {
            State::Normal
        } else if b == ESC {
            State::StringSeqSawEsc
        } else {
            State::StringSeq
        },
        State::StringSeqSawEsc => if b == 0x5c {
            State::Normal
        } else if b == ESC {
            State::StringSeqSawEsc
        } else {
            State::StringSeq
        },
    }
}

/// What reading `b` in state `s` contributes to the output: nothing inside a
/// control sequence, a line feed for a carriage return, else `b` itself.
pub open spec fn emitted(s: State, b: u8) -> Seq<u8> {
    if s is Normal && b != ESC {
        if b == 0x0d {
            seq![0x0au8]
        } else {
            seq![b]
        }
    } else {
        Seq::empty()
    }
}

/// The state behind all of `input`, when its first byte is read in state `s`.
pub open spec fn state_after(s: State, input: Seq<u8>) -> State
    decreases input.len(),
{
    if input.len() == 0 {
        s
    } else {
        next_state(state_after(s, input.drop_last()), input.last())
    }
}

/// The output for `input`, when its first byte is read in state `s`.
pub open spec fn filtered_from(s: State, input: Seq<u8>) -> Seq<u8>
    decreases input.len(),
{
    if input.len() == 0 {
        Seq::empty()
    } else {
        filtered_from(s, input.drop_last()) + emitted(
            state_after(s, input.drop_last()),
            input.last(),
        )
    }
}

/// The output for a whole stream.
pub open spec fn filtered(input: Seq<u8>) -> Seq<u8> {
    filtered_from(State::Normal, input)
}

/// A filter that keeps its place between chunks of one stream.
pub struct OutputFilter {
    pub state: State,
}

impl Default for OutputFilter {
    fn default() -> (r: Self)
        ensures
            r.state is Normal,
    {
        OutputFilter { state: State::Normal }
    }
}

impl OutputFilter {
    /// A filter at the start of a stream.
    pub fn new() -> (r: Self)
        ensures
            r.state is Normal,
    {
        OutputFilter { state: State::Normal }
    }

    /// Reads the next chunk of the stream and appends its output to `out`.
    pub fn push(&mut self, input: &[u8], out: &mut Vec<u8>)
        ensures
            final(self).state == state_after(old(self).state, input@),
            final(out)@ == old(out)@ + filtered_from(old(self).state, input@),
            old(self).state is Normal ==> final(out)@ == old(out)@ + filtered(input@),
    {
        let ghost start = self.state;
        let ghost before = out@;
        let mut i: usize = 0;
        while i < input.len()
            invariant
                i <= input.len(),
                self.state == state_after(start, input@.take(i as int)),
                out@ == before + filtered_from(start, input@.take(i as int)),
            decreases input.len() - i,
        {
            let b = input[i];
            proof {
                assert(input@.take(i + 1).drop_last() =~= input@.take(i as int));
                assert(input@.take(i + 1).last() == b);
            }
            let ghost out_now = out@;
            let ghost state_now = self.state;
            self.state = match self.state {
                State::Normal => match b {
                    0x1b => State::Esc,
                    0x0d => {
                        out.push(0x0a);
                        State::Normal
                    },
                    _ => {
                        out.push(b);
                        State::Normal
                    },
                },
                State::Esc => match b {
                    0x5b => State::Csi,
                    0x5d | 0x50 | 0x58 | 0x5e | 0x5f => State::StringSeq,
                    0x1b => State::Esc,
                    _ => State::Normal,
                },
                State::Csi => {
                    if 0x40 <= b && b <= 0x7e {
                        State::Normal
                    } else {
                        State::Csi
                    }
                },
                State::StringSeq => match b {
                    0x07 => State::Normal,
                    0x1b => State::StringSeqSawEsc,
                    _ => State::StringSeq,
                },
                State::StringSeqSawEsc => match b {
                    0x5c => State::Normal,
                    0x1b => State::StringSeqSawEsc,
                    _ => State::StringSeq,
                },
            };
            assert(out@ =~= out_now + emitted(state_now, b));
            i = i + 1;
        }
        assert(input@.take(input@.len() as int) =~= input@);
    }
}

/// How a stream is cut into chunks does not matter: filtering `a` and then `b`
/// gives the output and the state of filtering `a + b` at once.
pub proof fn law_chunking(s: State, a: Seq<u8>, b: Seq<u8>)
    ensures
        state_after(s, a + b) == state_after(state_after(s, a), b),
        filtered_from(s, a + b) == filtered_from(s, a) + filtered_from(state_after(s, a), b),
    decreases b.len(),
{
    if b.len() == 0 {
        assert(a + b =~= a);
        assert(filtered_from(s, a) + Seq::<u8>::empty() =~= filtered_from(s, a));
    } else {
        law_chunking(s, a, b.drop_last());
        assert((a + b).drop_last() =~= a + b.drop_last());
        assert((a + b).last() == b.last());
    }
}

/// No ESC byte and no carriage return reaches the output.
pub proof fn law_output_is_clean(s: State, input: Seq<u8>)
    ensures
        forall|i: int|
            0 <= i < filtered_from(s, input).len() ==> #[trigger] filtered_from(s, input)[i] != ESC
                && filtered_from(s, input)[i] != 0x0d,
    decreases input.len(),
{
    if input.len() > 0 {
        law_output_is_clean(s, input.drop_last());
        let head = filtered_from(s, input.drop_last());
        let out = filtered_from(s, input);
        assert forall|i: int| 0 <= i < out.len() implies #[trigger] out[i] != ESC && out[i]
            != 0x0d by {
            if i < head.len() {
                assert(out[i] == head[i]);
            }
        }
    }
}

/// Text without ESC bytes passes through, each carriage return becoming a line
/// feed and every other byte unchanged.
pub proof fn law_plain_text_passes(input: Seq<u8>)
    requires
        !input.contains(ESC),
    ensures
        state_after(State::Normal, input) is Normal,
        filtered(input) == line_feeds(input),
    decreases input.len(),
{
    if input.len() > 0 {
        assert(input.contains(input.last()));
        assert forall|b: u8| input.drop_last().contains(b) implies input.contains(b) by {
            let k = choose|k: int| 0 <= k < input.drop_last().len() && input.drop_last()[k] == b;
            assert(input[k] == b);
        }
        law_plain_text_passes(input.drop_last());
        assert(line_feeds(input) =~= line_feeds(input.drop_last()) + emitted(
            State::Normal,
            input.last(),
        ));
    } else {
        assert(filtered(input) =~= line_feeds(input));
    }
}

/// `input` with a line feed for each carriage return.
pub open spec fn line_feeds(input: Seq<u8>) -> Seq<u8> {
    input.map_values(
        |b: u8|
            if b == 0x0d {
                0x0au8
            } else {
                b
            },
    )
}

/// Whether `part` is what is left of `whole` when some items are taken out.
pub open spec fn is_subsequence(part: Seq<u8>, whole: Seq<u8>) -> bool
    decreases whole.len(),
{
    if part.len() == 0 {
        true
    } else if whole.len() == 0 {
        false
    } else {
        ||| is_subsequence(part, whole.drop_last())
        ||| part.last() == whole.last() && is_subsequence(part.drop_last(), whole.drop_last())
    }
}

/// The filter only takes bytes out and turns carriage returns into line feeds: it
/// adds nothing, and its output is no longer than its input.
pub proof fn law_output_is_what_is_left(s: State, input: Seq<u8>)
    ensures
        filtered_from(s, input).len() <= input.len(),
        is_subsequence(filtered_from(s, input), line_feeds(input)),
    decreases input.len(),
{
    if input.len() > 0 {
        let head = input.drop_last();
        law_output_is_what_is_left(s, head);
        assert(line_feeds(input).drop_last() =~= line_feeds(head));
        let before = filtered_from(s, head);
        let now = filtered_from(s, input);
        let new = emitted(state_after(s, head), input.last());
        if new.len() == 0 {
            assert(now =~= before);
        } else {
            assert(now.drop_last() =~= before);
            assert(now.last() == line_feeds(input).last());
        }
    }
}

/// Filtering what the filter put out changes nothing.
pub proof fn law_filtering_twice(input: Seq<u8>)
    ensures
        filtered(filtered(input)) == filtered(input),
{
    let out = filtered(input);
    law_output_is_clean(State::Normal, input);
    law_plain_text_passes(out);
    assert(filtered(out) =~= out);
}

/// A complete CSI sequence (`ESC [`, bytes that do not end it, a final byte)
/// leaves no trace.
pub proof fn law_csi_is_removed(params: Seq<u8>, end: u8)
    requires
        ends_csi(end),
        forall|i: int| 0 <= i < params.len() ==> !ends_csi(#[trigger] params[i]),
    ensures
        state_after(State::Normal, seq![ESC, 0x5bu8] + params + seq![end]) is Normal,
        filtered(seq![ESC, 0x5bu8] + params + seq![end]) == Seq::<u8>::empty(),
{
    lemma_opening(0x5b);
    lemma_csi_body(params);
    lemma_one_byte(State::Csi, end);
    law_chunking(State::Normal, seq![ESC, 0x5bu8], params);
    law_chunking(State::Normal, seq![ESC, 0x5bu8] + params, seq![end]);
}

/// A complete control string that BEL ends leaves no trace.
pub proof fn law_string_ended_by_bel_is_removed(kind: u8, body: Seq<u8>)
    requires
        opens_string(kind),
        !body.contains(BEL),
        !body.contains(ESC),
    ensures
        state_after(State::Normal, seq![ESC, kind] + body + seq![BEL]) is Normal,
        filtered(seq![ESC, kind] + body + seq![BEL]) == Seq::<u8>::empty(),
{
    lemma_opening(kind);
    lemma_string_body(body);
    lemma_one_byte(State::StringSeq, BEL);
    law_chunking(State::Normal, seq![ESC, kind], body);
    law_chunking(State::Normal, seq![ESC, kind] + body, seq![BEL]);
}

/// A complete control string that ST (`ESC \`) ends leaves no trace.
pub proof fn law_string_ended_by_st_is_removed(kind: u8, body: Seq<u8>)
    requires
        opens_string(kind),
        !body.contains(BEL),
        !body.contains(ESC),
    ensures
        state_after(State::Normal, seq![ESC, kind] + body + seq![ESC, 0x5cu8]) is Normal,
        filtered(seq![ESC, kind] + body + seq![ESC, 0x5cu8]) == Seq::<u8>::empty(),
{
    lemma_opening(kind);
    lemma_string_body(body);
    lemma_one_byte(State::StringSeq, ESC);
    lemma_one_byte(State::StringSeqSawEsc, 0x5c);
    assert(seq![ESC] + seq![0x5cu8] =~= seq![ESC, 0x5cu8]);
    law_chunking(State::StringSeq, seq![ESC], seq![0x5cu8]);
    law_chunking(State::Normal, seq![ESC, kind], body);
    law_chunking(State::Normal, seq![ESC, kind] + body, seq![ESC, 0x5cu8]);
}

/// ESC with one further byte that opens nothing leaves no trace.
pub proof fn law_single_escape_is_removed(b: u8)
    requires
        b != 0x5b,
        b != ESC,
        !opens_string(b),
    ensures
        state_after(State::Normal, seq![ESC, b]) is Normal,
        filtered(seq![ESC, b]) == Seq::<u8>::empty(),
{
    lemma_opening(b);
}

/// A byte outside control sequences is shown before all that follows: itself, or a
/// line feed for a carriage return.
pub proof fn law_plain_byte_is_shown(b: u8, rest: Seq<u8>)
    requires
        b != 0x1b,
    ensures
        filtered(seq![b] + rest) == seq![
            if b == 0x0d {
                0x0au8
            } else {
                b
            },
        ] + filtered(rest),
{
    lemma_one_byte(State::Normal, b);
    law_chunking(State::Normal, seq![b], rest);
}

/// A CSI sequence goes from ESC and a bracket to the first byte from 0x40 to 0x7e,
/// and leaves no trace: what follows it is shown as if it stood alone.
pub proof fn law_nothing_is_shown_of_csi(params: Seq<u8>, end: u8, rest: Seq<u8>)
    requires
        0x40 <= end <= 0x7e,
        forall|i: int|
            0 <= i < params.len() ==> (#[trigger] params[i]) < 0x40 || params[i] > 0x7e,
    ensures
        filtered(seq![0x1bu8, 0x5b] + params + seq![end] + rest) == filtered(rest),
        filtered(seq![0x1bu8, 0x5b] + params) == Seq::<u8>::empty(),
{
    lemma_opening(0x5b);
    lemma_csi_body(params);
    law_chunking(State::Normal, seq![0x1bu8, 0x5b], params);
    law_csi_is_removed(params, end);
    law_chunking(State::Normal, seq![0x1bu8, 0x5b] + params + seq![end], rest);
    assert(filtered(rest) =~= Seq::<u8>::empty() + filtered(rest));
}

/// All text behind a CSI sequence is shown: every byte up to the next ESC, with line
/// feeds for carriage returns.
pub proof fn law_text_behind_csi_is_shown(params: Seq<u8>, end: u8, text: Seq<u8>)
    requires
        0x40 <= end <= 0x7e,
        forall|i: int|
            0 <= i < params.len() ==> (#[trigger] params[i]) < 0x40 || params[i] > 0x7e,
        forall|i: int| 0 <= i < text.len() ==> #[trigger] text[i] != 0x1b,
    ensures
        ({
            let shown = filtered(seq![0x1bu8, 0x5b] + params + seq![end] + text);
            &&& shown.len() == text.len()
            &&& forall|i: int|
                0 <= i < text.len() ==> #[trigger] shown[i] == if text[i] == 0x0d {
                    0x0au8
                } else {
                    text[i]
                }
        }),
{
    law_nothing_is_shown_of_csi(params, end, text);
    law_plain_text_passes(text);
}

/// Whether nothing in `body` ends the control string that it stands in: no BEL, unless
/// directly behind an ESC, and no backslash directly behind an ESC.
pub open spec fn string_goes_on(body: Seq<u8>) -> bool {
    forall|i: int|
        0 <= i < body.len() ==> {
            &&& #[trigger] body[i] == 0x07 ==> i > 0 && body[i - 1] == 0x1b
            &&& body[i] == 0x5c ==> !(i > 0 && body[i - 1] == 0x1b)
        }
}

/// A control string goes from ESC and one of `]`, `P`, `X`, `^` and `_` to a BEL that
/// does not stand behind an ESC, or to a backslash that does. It leaves no trace: what
/// follows it is shown as if it stood alone.
pub proof fn law_nothing_is_shown_of_string(kind: u8, body: Seq<u8>, end: u8, rest: Seq<u8>)
    requires
        kind == 0x5d || kind == 0x50 || kind == 0x58 || kind == 0x5e || kind == 0x5f,
        string_goes_on(body),
        if body.len() > 0 && body.last() == 0x1b {
            end == 0x5c
        } else {
            end == 0x07
        },
    ensures
        filtered(seq![0x1bu8, kind] + body + seq![end] + rest) == filtered(rest),
        filtered(seq![0x1bu8, kind] + body) == Seq::<u8>::empty(),
{
    lemma_opening(kind);
    lemma_string_goes_on(body);
    law_chunking(State::Normal, seq![0x1bu8, kind], body);
    lemma_one_byte(state_after(State::StringSeq, body), end);
    law_chunking(State::Normal, seq![0x1bu8, kind] + body, seq![end]);
    law_chunking(State::Normal, seq![0x1bu8, kind] + body + seq![end], rest);
    assert(filtered(rest) =~= Seq::<u8>::empty() + filtered(rest));
}

/// ESC with any other byte leaves no trace either, except that a further ESC begins
/// anew.
pub proof fn law_nothing_is_shown_of_single_escape(b: u8, rest: Seq<u8>)
    requires
        b != 0x5b,
        b != 0x5d && b != 0x50 && b != 0x58 && b != 0x5e && b != 0x5f,
    ensures
        b != 0x1b ==> filtered(seq![0x1bu8, b] + rest) == filtered(rest),
        b == 0x1b ==> filtered(seq![0x1bu8, b] + rest) == filtered(seq![0x1bu8] + rest),
        filtered(seq![0x1bu8]) == Seq::<u8>::empty(),
{
    lemma_opening(b);
    lemma_one_byte(State::Normal, 0x1b);
    law_chunking(State::Normal, seq![0x1bu8, b], rest);
    law_chunking(State::Normal, seq![0x1bu8], rest);
    assert(filtered(rest) =~= Seq::<u8>::empty() + filtered(rest));
}

/// Pushing a stream in two pieces puts out what pushing it at once does, and leaves the
/// filter in the same place.
pub proof fn law_pieces_make_up_the_stream(
    first: &mut OutputFilter,
    second: &mut OutputFilter,
    whole: &mut OutputFilter,
    a: &[u8],
    b: &[u8],
    ab: &[u8],
    out_a: &mut Vec<u8>,
    out_b: &mut Vec<u8>,
    out: &mut Vec<u8>,
)
    requires
        call_ensures(OutputFilter::push, (first, a, out_a), ()),
        call_ensures(OutputFilter::push, (second, b, out_b), ()),
        call_ensures(OutputFilter::push, (whole, ab, out), ()),
        ab@ == a@ + b@,
        *old(second) == *final(first),
        old(out_b)@ == final(out_a)@,
        *old(whole) == *old(first),
        old(out)@ == old(out_a)@,
    ensures
        final(out)@ == final(out_b)@,
        *final(whole) == *final(second),
{
    law_chunking(old(first).state, a@, b@);
    assert(final(out)@ =~= final(out_b)@);
}

/// A filter at the start of a stream puts out all text behind a CSI sequence, behind what
/// was there before, and is again where it began.
pub proof fn law_pushing_a_csi_sequence(
    filter: &mut OutputFilter,
    input: &[u8],
    out: &mut Vec<u8>,
    params: Seq<u8>,
    end: u8,
    text: Seq<u8>,
)
    requires
        call_ensures(OutputFilter::push, (filter, input, out), ()),
        call_ensures(OutputFilter::new, (), *old(filter)),
        input@ == seq![0x1bu8, 0x5b] + params + seq![end] + text,
        0x40 <= end <= 0x7e,
        forall|i: int|
            0 <= i < params.len() ==> (#[trigger] params[i]) < 0x40 || params[i] > 0x7e,
        forall|i: int| 0 <= i < text.len() ==> #[trigger] text[i] != 0x1b,
    ensures
        final(out)@.len() == old(out)@.len() + text.len(),
        final(out)@.take(old(out)@.len() as int) == old(out)@,
        forall|i: int|
            0 <= i < text.len() ==> final(out)@[old(out)@.len() + i] == if #[trigger] text[i]
                == 0x0d {
                0x0au8
            } else {
                text[i]
            },
        *final(filter) == *old(filter),
{
    law_text_behind_csi_is_shown(params, end, text);
    law_csi_is_removed(params, end);
    law_plain_text_passes(text);
    law_chunking(State::Normal, seq![0x1bu8, 0x5b] + params + seq![end], text);
    assert(final(out)@.take(old(out)@.len() as int) =~= old(out)@);
    let shown = filtered(input@);
    assert forall|i: int| 0 <= i < text.len() implies final(out)@[old(out)@.len() + i]
        == if #[trigger] text[i] == 0x0d {
        0x0au8
    } else {
        text[i]
    } by {
        assert(final(out)@[old(out)@.len() + i] == shown[i]);
    }
}

proof fn lemma_string_goes_on(body: Seq<u8>)
    requires
        string_goes_on(body),
    ensures
        filtered_from(State::StringSeq, body) == Seq::<u8>::empty(),
        if body.len() > 0 && body.last() == 0x1b {
            state_after(State::StringSeq, body) is StringSeqSawEsc
        } else {
            state_after(State::StringSeq, body) is StringSeq
        },
    decreases body.len(),
{
    if body.len() > 0 {
        let head = body.drop_last();
        assert forall|i: int| 0 <= i < head.len() implies {
            &&& #[trigger] head[i] == 0x07 ==> i > 0 && head[i - 1] == 0x1b
            &&& head[i] == 0x5c ==> !(i > 0 && head[i - 1] == 0x1b)
        } by {
            assert(body[i] == head[i]);
        }
        lemma_string_goes_on(head);
        assert(body[body.len() - 1] == body.last());
        if head.len() > 0 {
            assert(head.last() == body[body.len() - 2]);
        }
    }
}

proof fn lemma_one_byte(s: State, b: u8)
    ensures
        state_after(s, seq![b]) == next_state(s, b),
        filtered_from(s, seq![b]) == emitted(s, b),
{
    assert(seq![b].drop_last() =~= Seq::<u8>::empty());
    assert(state_after(s, Seq::<u8>::empty()) == s);
    assert(filtered_from(s, Seq::<u8>::empty()) == Seq::<u8>::empty());
    assert(Seq::<u8>::empty() + emitted(s, b) =~= emitted(s, b));
}

proof fn lemma_opening(b: u8)
    ensures
        state_after(State::Normal, seq![ESC, b]) == next_state(State::Esc, b),
        filtered(seq![ESC, b]) == Seq::<u8>::empty(),
{
    lemma_one_byte(State::Normal, ESC);
    lemma_one_byte(State::Esc, b);
    assert(seq![ESC] + seq![b] =~= seq![ESC, b]);
    law_chunking(State::Normal, seq![ESC], seq![b]);
}

proof fn lemma_csi_body(params: Seq<u8>)
    requires
        forall|i: int| 0 <= i < params.len() ==> !ends_csi(#[trigger] params[i]),
    ensures
        state_after(State::Csi, params) is Csi,
        filtered_from(State::Csi, params) == Seq::<u8>::empty(),
    decreases params.len(),
{
    if params.len() > 0 {
        lemma_csi_body(params.drop_last());
        assert(!ends_csi(params[params.len() - 1]));
    }
}

proof fn lemma_string_body(body: Seq<u8>)
    requires
        !body.contains(BEL),
        !body.contains(ESC),
    ensures
        state_after(State::StringSeq, body) is StringSeq,
        filtered_from(State::StringSeq, body) == Seq::<u8>::empty(),
    decreases body.len(),
{
    if body.len() > 0 {
        assert(body.contains(body.last()));
        assert forall|b: u8| body.drop_last().contains(b) implies body.contains(b) by {
            let k = choose|k: int| 0 <= k < body.drop_last().len() && body.drop_last()[k] == b;
            assert(body[k] == b);
        }
        lemma_string_body(body.drop_last());
    }
}

} // verus!
