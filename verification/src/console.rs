//! The host's console: one command at a time, in the order of arrival.

use vstd::prelude::*;
use vstd::utf8::encode_utf8;

use crate::output::{append_bytes, PtyBuffer};
use crate::protocol::Request;
use crate::shell::{
    command_words, law_command_words_read_back, push_command_words, read_words,
};
use crate::text::{
    decimal_text, law_numeral_stands_for_its_number, number_of, push_decimal, texts,
};

verus! {

/// Whether a request has to wait while `next` requests have printed.
pub open spec fn waits(next: nat, seq: nat) -> bool {
    next < seq
}

/// Who may print. Requests are numbered from zero in the order of their arrival,
/// and print in this order.
#[derive(Debug)]
pub struct PrintQueue {
    /// How many requests have printed.
    pub next: u64,
}

impl PrintQueue {
    /// A queue in which nobody has printed.
    pub fn new() -> (r: Self)
        ensures
            r.next == 0,
    {
        PrintQueue { next: 0 }
    }

    /// Whether the request with this number must still wait for its turn.
    pub fn must_wait(&self, seq: u64) -> (r: bool)
        ensures
            r == waits(self.next as nat, seq as nat),
    {
        self.next < seq
    }

    /// Passes the turn on to the next request.
    pub fn release(&mut self)
        requires
            old(self).next < u64::MAX,
        ensures
            final(self).next == old(self).next + 1,
    {
        self.next = self.next + 1;
    }
}

/// A history of the console: the queue, and which requests began to print and
/// which have ended.
pub struct ConsoleHistory {
    pub next: nat,
    pub begun: Set<nat>,
    pub ended: Set<nat>,
}

impl ConsoleHistory {
    /// Nobody has printed.
    pub open spec fn start() -> ConsoleHistory {
        ConsoleHistory { next: 0, begun: Set::empty(), ended: Set::empty() }
    }

    /// Whether the request `seq` may begin to print: it has not yet, and the queue
    /// does not make it wait.
    pub open spec fn may_begin(self, seq: nat) -> bool {
        !self.begun.contains(seq) && !waits(self.next, seq)
    }

    /// The request `seq` begins to print.
    pub open spec fn begin(self, seq: nat) -> ConsoleHistory {
        ConsoleHistory { begun: self.begun.insert(seq), ..self }
    }

    /// Whether the request `seq` is printing.
    pub open spec fn printing(self, seq: nat) -> bool {
        self.begun.contains(seq) && !self.ended.contains(seq)
    }

    /// The request `seq` ends printing and passes the turn on.
    pub open spec fn end(self, seq: nat) -> ConsoleHistory {
        ConsoleHistory { next: self.next + 1, ended: self.ended.insert(seq), ..self }
    }

    /// What holds of every history: the requests before the queue's number have
    /// printed, and of the others only the one with that number may have begun.
    pub open spec fn orderly(self) -> bool {
        &&& forall|seq: nat| #[trigger] self.ended.contains(seq) <==> seq < self.next
        &&& forall|seq: nat| #[trigger] self.begun.contains(seq) ==> seq <= self.next
        &&& forall|seq: nat| seq < self.next ==> #[trigger] self.begun.contains(seq)
    }
}

/// A history starts orderly and stays so, whoever begins or ends.
pub proof fn law_console_stays_orderly(h: ConsoleHistory, seq: nat)
    ensures
        ConsoleHistory::start().orderly(),
        h.orderly() && h.may_begin(seq) ==> h.begin(seq).orderly(),
        h.orderly() && h.printing(seq) ==> h.end(seq).orderly(),
{
    if h.orderly() && h.may_begin(seq) {
        assert(h.begin(seq).orderly());
    }
    if h.orderly() && h.printing(seq) {
        assert(!h.ended.contains(seq) && h.begun.contains(seq));
        assert(seq == h.next);
        assert(h.end(seq).orderly());
    }
}

/// The console belongs to one request at a time: two that print are the same.
pub proof fn law_one_printer_at_a_time(h: ConsoleHistory, a: nat, b: nat)
    requires
        h.orderly(),
        h.printing(a),
        h.printing(b),
    ensures
        a == b,
{
    assert(!h.ended.contains(a) && !h.ended.contains(b));
    assert(h.begun.contains(a) && h.begun.contains(b));
}

/// A request prints only after every earlier one has ended.
pub proof fn law_printing_in_order_of_arrival(h: ConsoleHistory, seq: nat, earlier: nat)
    requires
        h.orderly(),
        h.may_begin(seq),
        earlier < seq,
    ensures
        h.ended.contains(earlier),
{
    assert(!h.begun.contains(seq));
}

/// Nobody is kept waiting for longer than the earlier requests print: once all of
/// them have ended, a request may begin.
pub proof fn law_turn_comes(h: ConsoleHistory, seq: nat)
    requires
        h.orderly(),
        !h.begun.contains(seq),
        forall|earlier: nat| earlier < seq ==> #[trigger] h.ended.contains(earlier),
    ensures
        h.may_begin(seq),
{
    if h.next < seq {
        assert(h.ended.contains(h.next));
    }
}

/// What happens on the console.
pub enum ConsoleEvent {
    /// The request with this number begins to print.
    Begin(nat),
    /// The request with this number ends, and passes the turn on.
    End(nat),
}

/// The history behind some events.
pub open spec fn console_after(events: Seq<ConsoleEvent>) -> ConsoleHistory
    decreases events.len(),
{
    if events.len() == 0 {
        ConsoleHistory::start()
    } else {
        let before = console_after(events.drop_last());
        match events.last() {
            ConsoleEvent::Begin(seq) => before.begin(seq),
            ConsoleEvent::End(seq) => before.end(seq),
        }
    }
}

/// Whether the queue lets these events happen: a request begins once and only when
/// it need not wait, and ends once and only when it prints.
pub open spec fn console_allows(events: Seq<ConsoleEvent>) -> bool
    decreases events.len(),
{
    events.len() > 0 ==> {
        let before = console_after(events.drop_last());
        &&& console_allows(events.drop_last())
        &&& match events.last() {
            ConsoleEvent::Begin(seq) => before.may_begin(seq),
            ConsoleEvent::End(seq) => before.printing(seq),
        }
    }
}

/// In whatever order requests queue up, they print one after the other: request zero
/// begins and ends, then request one, and so on, each once and never two at a time.
/// The queue then counts those that have ended.
pub proof fn law_requests_print_one_by_one(events: Seq<ConsoleEvent>)
    requires
        console_allows(events),
    ensures
        forall|i: int|
            0 <= i < events.len() ==> #[trigger] events[i] == if i % 2 == 0 {
                ConsoleEvent::Begin((i / 2) as nat)
            } else {
                ConsoleEvent::End((i / 2) as nat)
            },
        console_after(events).next == events.len() / 2,
        console_after(events).orderly(),
        console_after(events).begun.contains(console_after(events).next) <==> events.len() % 2 == 1,
    decreases events.len(),
{
    if events.len() > 0 {
        let head = events.drop_last();
        let last = events.len() - 1;
        let before = console_after(head);
        law_requests_print_one_by_one(head);
        match events.last() {
            ConsoleEvent::Begin(seq) => {
                law_console_stays_orderly(before, seq);
                if seq < before.next {
                    assert(before.begun.contains(seq));
                }
                assert(seq == before.next);
            },
            ConsoleEvent::End(seq) => {
                law_console_stays_orderly(before, seq);
                assert(before.begun.contains(seq) && !before.ended.contains(seq));
                assert(seq == before.next);
                assert(!before.begun.contains(seq + 1));
            },
        }
        assert forall|i: int| 0 <= i < events.len() implies #[trigger] events[i] == if i % 2 == 0 {
            ConsoleEvent::Begin((i / 2) as nat)
        } else {
            ConsoleEvent::End((i / 2) as nat)
        } by {
            if i < last {
                assert(events[i] == head[i]);
            }
        }
    } else {
        assert(ConsoleHistory::start().orderly());
    }
}

/// The line above a command's output: when it came, who sent it, its directory,
/// its timeout and the command.
pub open spec fn banner_text(
    time: Seq<char>,
    whoami: Seq<char>,
    dir: Seq<char>,
    timeout: u64,
    argv: Seq<Seq<char>>,
) -> Seq<char> {
    "["@ + time + "] "@ + whoami + ":"@ + dir + " $ TO="@ + decimal_text(timeout as nat)
        + command_words(argv) + "\n"@
}

/// The banner of a request.
pub fn banner(request: &Request, time: &str) -> (r: String)
    ensures
        r@ == banner_text(
            time@,
            request@.whoami,
            request@.dir,
            request@.timeout,
            request@.argv,
        ),
{
    let mut s = "[".to_owned();
    s.append(time);
    s.append("] ");
    s.append(request.whoami.as_str());
    s.append(":");
    s.append(request.dir.as_str());
    s.append(" $ TO=");
    push_decimal(&mut s, request.timeout);
    push_command_words(&mut s, &request.argv);
    s.append("\n");
    s
}

/// What the console shows of a command: its banner, its output as it is, and a line
/// feed. A silent host shows nothing.
pub open spec fn console_bytes(silent: bool, banner: Seq<char>, raw: Seq<u8>) -> Seq<u8> {
    if silent {
        Seq::empty()
    } else {
        encode_utf8(banner) + raw + seq![0x0au8]
    }
}

/// How far the printing of a command has come.
#[derive(Clone, Copy, Debug, PartialEq, Eq, Structural)]
pub enum JobStage {
    /// Nothing was printed.
    Banner,
    /// The banner was printed, and some of the output.
    Output,
    /// Everything was printed.
    Done,
}

/// What to print next.
#[derive(Debug)]
pub enum ConsoleStep {
    /// Print these bytes, and go on.
    Print(Vec<u8>),
    /// Wait for output.
    Wait,
    /// Print these bytes, and end.
    Last(Vec<u8>),
}

/// The bytes that a step prints.
pub open spec fn printed_by(step: ConsoleStep) -> Seq<u8> {
    match step {
        ConsoleStep::Print(bytes) => bytes@,
        ConsoleStep::Wait => Seq::empty(),
        ConsoleStep::Last(bytes) => bytes@,
    }
}

/// The printing of one command.
pub struct ConsoleJob {
    silent: bool,
    banner: String,
    stage: JobStage,
    shown: Ghost<Seq<u8>>,
}

impl ConsoleJob {
    /// Whether the host is silent.
    pub closed spec fn is_silent(&self) -> bool {
        self.silent
    }

    /// The banner of the command.
    pub closed spec fn heading(&self) -> Seq<char> {
        self.banner@
    }

    /// How far the printing has come.
    pub closed spec fn stage(&self) -> JobStage {
        self.stage
    }

    /// The bytes that were printed.
    pub closed spec fn shown(&self) -> Seq<u8> {
        self.shown@
    }

    /// Whether this is the printing of the command with the given output: the console
    /// shows that output, and what was printed is what was taken of it, behind the
    /// banner.
    pub open spec fn prints(&self, buffer: PtyBuffer) -> bool {
        &&& buffer.on_console() == !self.is_silent()
        &&& self.stage() is Banner ==> self.shown().len() == 0 && buffer.printed().len() == 0
        &&& self.stage() is Output ==> !self.is_silent() && self.shown() == encode_utf8(
            self.heading(),
        ) + buffer.printed()
    }

    /// The printing of a command of which nothing was printed.
    pub fn new(silent: bool, request: &Request, time: &str) -> (r: Self)
        ensures
            r.is_silent() == silent,
            r.heading() == banner_text(
                time@,
                request@.whoami,
                request@.dir,
                request@.timeout,
                request@.argv,
            ),
            r.stage() is Banner,
            r.shown().len() == 0,
    {
        ConsoleJob {
            silent,
            banner: banner(request, time),
            stage: JobStage::Banner,
            shown: Ghost(Seq::empty()),
        }
    }

    /// What to print next of a command with the given output: first its banner, then
    /// its output as it comes, and with the last of it a line feed. A silent host
    /// ends at once. When the printing ends, the console has shown all that it is to
    /// show of the command.
    pub fn next(&mut self, buffer: &mut PtyBuffer) -> (r: ConsoleStep)
        requires
            old(self).prints(*old(buffer)),
            !(old(self).stage() is Done),
        ensures
            final(self).prints(*final(buffer)),
            final(self).is_silent() == old(self).is_silent(),
            final(self).heading() == old(self).heading(),
            final(self).shown() == old(self).shown() + printed_by(r),
            final(buffer).raw() == old(buffer).raw(),
            final(buffer).ended() == old(buffer).ended(),
            final(self).stage() is Done <==> r is Last,
            r is Last <==> old(self).is_silent() || (old(self).stage() is Output && old(
                buffer,
            ).ended()),
            r is Last ==> final(self).shown() == console_bytes(
                final(self).is_silent(),
                final(self).heading(),
                final(buffer).raw(),
            ),
            r is Wait <==> old(self).stage() is Output && old(buffer).pending().len() == 0 && !old(
                buffer,
            ).ended(),
            r is Print && old(self).stage() is Banner ==> printed_by(r) == encode_utf8(
                old(self).heading(),
            ),
            r is Print && old(self).stage() is Output ==> printed_by(r) == old(buffer).pending(),
    {
        if self.silent {
            self.stage = JobStage::Done;
            assert(self.shown() =~= Seq::empty());
            return ConsoleStep::Last(Vec::new());
        }
        match self.stage {
            JobStage::Banner => {
                let mut bytes: Vec<u8> = Vec::new();
                append_bytes(&mut bytes, self.banner.as_str().as_bytes());
                self.stage = JobStage::Output;
                self.shown = Ghost(self.shown@ + bytes@);
                proof {
                    assert(bytes@ =~= encode_utf8(self.banner@));
                    assert(self.shown@ =~= encode_utf8(self.banner@) + buffer.printed());
                }
                ConsoleStep::Print(bytes)
            },
            _ => {
                if !buffer.has_news() {
                    assert(self.shown() =~= self.shown() + Seq::<u8>::empty());
                    return ConsoleStep::Wait;
                }
                let (mut bytes, ended) = buffer.take_pending();
                if ended {
                    let ghost chunk = bytes@;
                    bytes.push(0x0a);
                    self.stage = JobStage::Done;
                    self.shown = Ghost(self.shown@ + bytes@);
                    proof {
                        assert(bytes@ =~= chunk + seq![0x0au8]);
                        assert(buffer.printed() + buffer.pending() =~= buffer.printed());
                        assert(self.shown@ =~= console_bytes(false, self.banner@, buffer.raw()));
                    }
                    ConsoleStep::Last(bytes)
                } else {
                    self.shown = Ghost(self.shown@ + bytes@);
                    proof {
                        assert(self.shown@ =~= encode_utf8(self.banner@) + buffer.printed());
                    }
                    ConsoleStep::Print(bytes)
                }
            },
        }
    }
}

/// Printing and new output may take turns in any order: output that comes between two
/// steps, and the end of the output, leave a command's printing as it was.
pub proof fn law_new_output_keeps_printing(job: ConsoleJob, before: PtyBuffer, after: PtyBuffer)
    requires
        job.prints(before),
        after.printed() == before.printed(),
        after.on_console() == before.on_console(),
    ensures
        job.prints(after),
{
}

/// A request waits for its turn exactly as long as requests with lower numbers have not
/// printed.
pub proof fn law_turns_go_by_number(queue: PrintQueue, seq: u64, wait: bool)
    requires
        call_ensures(PrintQueue::must_wait, (&queue, seq), wait),
    ensures
        wait <==> queue.next < seq,
{
}

/// A banner is one line that tells the time, the agent, the directory, the timeout in
/// decimal digits, and a command line that reads back as the command.
pub proof fn law_banner_tells_the_command(request: Request, time: &str, line: String)
    requires
        call_ensures(banner, (&request, time), line),
    ensures
        exists|digits: Seq<char>, words: Seq<char>|
            {
                &&& line@ == "["@ + time@ + "] "@ + request.whoami@ + ":"@ + request.dir@
                    + " $ TO="@ + #[trigger] (digits + words) + "\n"@
                &&& number_of(digits) == request.timeout
                &&& forall|i: int| 0 <= i < digits.len() ==> '0' <= #[trigger] digits[i] <= '9'
                &&& read_words(words) == Some(texts(request.argv@))
            },
{
    let digits = decimal_text(request.timeout as nat);
    let words = command_words(texts(request.argv@));
    law_numeral_stands_for_its_number(request.timeout as nat);
    law_command_words_read_back(texts(request.argv@));
    let top = "["@ + time@ + "] "@ + request.whoami@ + ":"@ + request.dir@ + " $ TO="@;
    assert(top + digits + words =~= top + (digits + words));
}

/// The console shows a command's banner, all of its output as it came, and one line feed.
/// A silent host shows nothing of it.
pub proof fn law_console_shows_everything(banner: Seq<char>, raw: Seq<u8>)
    ensures
        ({
            let shown = console_bytes(false, banner, raw);
            let top = encode_utf8(banner).len() as int;
            &&& shown.len() == top + raw.len() + 1
            &&& shown.take(top) == encode_utf8(banner)
            &&& shown.subrange(top, top + raw.len()) == raw
            &&& shown.last() == 0x0a
        }),
        console_bytes(true, banner, raw).len() == 0,
{
    let shown = console_bytes(false, banner, raw);
    let top = encode_utf8(banner).len() as int;
    assert(shown.take(top) =~= encode_utf8(banner));
    assert(shown.subrange(top, top + raw.len()) =~= raw);
}

/// When a request passes its turn on, the one with the next number need not wait any
/// more, and no other that had to wait before.
pub proof fn law_turn_is_passed_to_the_next(
    queue: &mut PrintQueue,
    seq: u64,
    before: bool,
    after: bool,
)
    requires
        call_ensures(PrintQueue::must_wait, (&*old(queue), seq), before),
        call_ensures(PrintQueue::release, (queue,), ()),
        call_ensures(PrintQueue::must_wait, (&*final(queue), seq), after),
    ensures
        after ==> before,
        before && !after <==> seq == old(queue).next + 1,
        final(queue).next == old(queue).next + 1,
{
}

/// A step of printing prints the next piece of what the console shows of a command, and
/// the last step the last of it.
pub proof fn law_steps_print_the_command(
    job: &mut ConsoleJob,
    buffer: &mut PtyBuffer,
    step: ConsoleStep,
)
    requires
        old(job).prints(*old(buffer)),
        !(old(job).stage() is Done),
        call_ensures(ConsoleJob::next, (job, buffer), step),
    ensures
        step matches ConsoleStep::Print(bytes) ==> final(job).shown() == old(job).shown() + bytes@,
        step matches ConsoleStep::Last(bytes) ==> {
            let all = old(job).shown() + bytes@;
            if old(job).is_silent() {
                all == old(job).shown()
            } else {
                all == encode_utf8(old(job).heading()) + final(buffer).raw() + seq![0x0au8]
            }
        },
        step is Wait ==> final(job).shown() == old(job).shown() && !old(buffer).ended(),
{
    if step is Wait {
        assert(old(job).shown() + Seq::<u8>::empty() =~= old(job).shown());
    }
    if old(job).is_silent() {
        assert(final(job).shown().len() == 0);
        assert(old(job).shown() + printed_by(step) =~= old(job).shown());
    }
}

/// The printing of a request begins with nothing printed, under its banner, and fits the
/// output of a command that has put out nothing.
pub proof fn law_printing_begins_with_the_banner(
    silent: bool,
    request: Request,
    time: &str,
    line: String,
    job: ConsoleJob,
    buffer: PtyBuffer,
)
    requires
        call_ensures(banner, (&request, time), line),
        call_ensures(ConsoleJob::new, (silent, &request, time), job),
        call_ensures(PtyBuffer::new, (!silent,), buffer),
    ensures
        job.heading() == line@,
        job.is_silent() == silent,
        job.stage() is Banner,
        job.prints(buffer),
{
}

} // verus!
