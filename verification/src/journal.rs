//! The order in which completed commands enter the transcript.
//!
//! Commands run side by side and complete in any order. Each holds a number, and
//! the transcript takes them by number: a command that completes early waits
//! until all earlier ones have completed.

use std::collections::BTreeMap;

use vstd::prelude::*;

use crate::command::{law_every_run_has_one_entry, run_phase, RunHistory};
use crate::lists::{keep, kept, law_marked_items_keep_their_places};
use crate::protocol::{EntryView, TranscriptEntry};
use crate::text::{law_texts_are_those_of_the_list, texts};

verus! {

/// A completed command.
#[derive(Debug)]
pub struct TranscriptRecord {
    /// What the transcript gets.
    pub entry: TranscriptEntry,
    /// The output with its control sequences.
    pub raw_output: String,
}

/// A client that follows the transcript.
#[derive(Debug)]
pub struct TranscriptSubscriber<S> {
    /// Whether it wants output with control sequences.
    pub ansi: bool,
    /// Where its entries go.
    pub sender: S,
}

/// The first number from `next` on that no waiting record has.
pub open spec fn run_end<R>(waiting: Map<u64, R>, next: nat) -> nat
    decreases u64::MAX + 1 - next,
{
    if next <= u64::MAX && waiting.contains_key(next as u64) {
        run_end(waiting, next + 1)
    } else {
        next
    }
}

/// The waiting records whose turn it is: those numbered from `next` on without a
/// gap, in order.
pub open spec fn ready<R>(waiting: Map<u64, R>, next: nat) -> Seq<R> {
    Seq::new((run_end(waiting, next) - next) as nat, |i: int| waiting[(next + i) as u64])
}

/// The waiting records whose turn it is not.
pub open spec fn still_waiting<R>(waiting: Map<u64, R>, next: nat) -> Map<u64, R> {
    waiting.remove_keys(Set::new(|k: u64| next <= k < run_end(waiting, next)))
}

/// Completed commands on their way to the transcript, and who follows it.
pub struct TranscriptQueue<S> {
    next: u64,
    waiting: BTreeMap<u64, TranscriptRecord>,
    subscribers: Vec<TranscriptSubscriber<S>>,
}

impl<S> TranscriptQueue<S> {
    /// How many records have entered the transcript.
    pub closed spec fn next(&self) -> nat {
        self.next as nat
    }

    /// The completed records that wait, by number.
    pub closed spec fn waiting(&self) -> Map<u64, TranscriptRecord> {
        self.waiting@
    }

    /// Who follows the transcript.
    pub closed spec fn following(&self) -> Seq<TranscriptSubscriber<S>> {
        self.subscribers@
    }

    #[verifier::type_invariant]
    spec fn bounded(&self) -> bool {
        !self.waiting@.contains_key(u64::MAX)
    }

    /// A transcript without entries that nobody follows.
    pub fn new() -> (r: Self)
        ensures
            r.next() == 0,
            r.waiting() == Map::<u64, TranscriptRecord>::empty(),
            r.following() == Seq::<TranscriptSubscriber<S>>::empty(),
    {
        TranscriptQueue { next: 0, waiting: BTreeMap::new(), subscribers: Vec::new() }
    }

    /// Takes the record of the command `seq`. Returns the records that enter the
    /// transcript now, in order.
    pub fn submit(&mut self, seq: u64, entry: TranscriptEntry, raw_output: String) -> (r: Vec<
        TranscriptRecord,
    >)
        requires
            seq < u64::MAX,
        ensures
            ({
                let record = TranscriptRecord { entry, raw_output };
                let all = old(self).waiting().insert(seq, record);
                &&& r@ == ready(all, old(self).next())
                &&& final(self).next() == run_end(all, old(self).next())
                &&& final(self).waiting() == still_waiting(all, old(self).next())
            }),
            final(self).following() == old(self).following(),
    {
        proof {
            use_type_invariant(&*self);
        }
        let mut waiting: BTreeMap<u64, TranscriptRecord> = BTreeMap::new();
        std::mem::swap(&mut self.waiting, &mut waiting);
        let _ = waiting.insert(seq, TranscriptRecord { entry, raw_output });
        let ghost all = waiting@;
        let ghost start = self.next as nat;
        let mut out: Vec<TranscriptRecord> = Vec::new();
        let mut next: u64 = self.next;
        proof {
            assert(all.remove_keys(Set::new(|k: u64| start <= k < next)) =~= all);
        }
        loop
            invariant
                start <= next,
                run_end(all, next as nat) == run_end(all, start),
                out@.len() == next - start,
                forall|i: int| 0 <= i < out@.len() ==> out@[i] == all[(start + i) as u64],
                !all.contains_key(u64::MAX),
                waiting@ == all.remove_keys(Set::new(|k: u64| start <= k < next)),
            ensures
                !all.contains_key(next),
            decreases u64::MAX - next,
        {
            let ghost before = waiting@;
            match waiting.remove(&next) {
                None => {
                    assert(waiting@ =~= before);
                    break;
                },
                Some(record) => {
                    assert(before.contains_key(next));
                    out.push(record);
                    proof {
                        assert(before.remove(next) =~= all.remove_keys(
                            Set::new(|k: u64| start <= k < next + 1),
                        ));
                    }
                    next = next + 1;
                },
            }
        }
        proof {
            assert(run_end(all, start) == next);
            assert(out@ =~= ready(all, start));
            assert(waiting@ =~= still_waiting(all, start));
        }
        self.next = next;
        self.waiting = waiting;
        out
    }

    /// Adds a follower. It gets the records that enter the transcript from now on.
    pub fn subscribe(&mut self, ansi: bool, sender: S)
        ensures
            final(self).following() == old(self).following().push(
                TranscriptSubscriber { ansi, sender },
            ),
            final(self).next() == old(self).next(),
            final(self).waiting() == old(self).waiting(),
    {
        proof {
            use_type_invariant(&*self);
        }
        let mut subscribers: Vec<TranscriptSubscriber<S>> = Vec::new();
        std::mem::swap(&mut self.subscribers, &mut subscribers);
        subscribers.push(TranscriptSubscriber { ansi, sender });
        self.subscribers = subscribers;
    }

    /// Who follows the transcript, in the order of subscription.
    pub fn subscribers(&self) -> (r: &Vec<TranscriptSubscriber<S>>)
        ensures
            r@ == self.following(),
    {
        &self.subscribers
    }

    /// What each follower gets of a record, in the order of subscription.
    pub fn deliveries(&self, record: &TranscriptRecord) -> (r: Vec<TranscriptEntry>)
        ensures
            r@.len() == self.following().len(),
            forall|i: int|
                0 <= i < r@.len() ==> (#[trigger] r@[i])@ == delivered_entry(
                    record.entry@,
                    record.raw_output@,
                    self.following()[i].ansi,
                ),
    {
        let mut entries: Vec<TranscriptEntry> = Vec::new();
        let mut i: usize = 0;
        while i < self.subscribers.len()
            invariant
                i <= self.subscribers.len(),
                entries@.len() == i,
                forall|k: int|
                    0 <= k < i ==> (#[trigger] entries@[k])@ == delivered_entry(
                        record.entry@,
                        record.raw_output@,
                        self.subscribers@[k].ansi,
                    ),
            decreases self.subscribers.len() - i,
        {
            entries.push(delivery(record, self.subscribers[i].ansi));
            i = i + 1;
        }
        entries
    }

    /// Drops the followers to whom an entry could not be delivered.
    pub fn retain_delivered(&mut self, delivered: &Vec<bool>)
        requires
            delivered@.len() == old(self).following().len(),
        ensures
            final(self).following() == kept(old(self).following(), delivered@),
            final(self).next() == old(self).next(),
            final(self).waiting() == old(self).waiting(),
    {
        proof {
            use_type_invariant(&*self);
        }
        let mut subscribers: Vec<TranscriptSubscriber<S>> = Vec::new();
        std::mem::swap(&mut self.subscribers, &mut subscribers);
        self.subscribers = keep(subscribers, delivered);
    }

    /// Lets all followers go.
    pub fn close_subscriptions(&mut self)
        ensures
            final(self).following() == Seq::<TranscriptSubscriber<S>>::empty(),
            final(self).next() == old(self).next(),
            final(self).waiting() == old(self).waiting(),
    {
        proof {
            use_type_invariant(&*self);
        }
        self.subscribers = Vec::new();
    }
}

/// What a follower gets of a record: the transcript's entry, with raw output if
/// the follower wants control sequences.
pub open spec fn delivered_entry(entry: EntryView, raw_output: Seq<char>, ansi: bool) -> EntryView {
    if ansi {
        EntryView { output: raw_output, ..entry }
    } else {
        entry
    }
}

/// The entry for a follower.
pub fn delivery(record: &TranscriptRecord, ansi: bool) -> (r: TranscriptEntry)
    ensures
        r@ == delivered_entry(record.entry@, record.raw_output@, ansi),
{
    let mut entry = record.entry.clone();
    if ansi {
        entry.output = record.raw_output.clone();
    }
    entry
}

/// Whether a transcript with the given entries, and with the given queue behind
/// it, is that of the submitted records: it holds those numbered before `next`,
/// each once and in order, and the rest wait.
pub open spec fn is_transcript_of<R>(
    submitted: Map<u64, R>,
    entries: Seq<R>,
    next: nat,
    waiting: Map<u64, R>,
) -> bool {
    &&& entries.len() == next
    &&& forall|k: u64| k < next ==> #[trigger] submitted.contains_key(k)
    &&& forall|i: int| 0 <= i < next ==> #[trigger] entries[i] == submitted[i as u64]
    &&& forall|k: u64| #[trigger]
        waiting.contains_key(k) <==> submitted.contains_key(k) && k >= next
    &&& forall|k: u64| #[trigger] waiting.contains_key(k) ==> waiting[k] == submitted[k]
    &&& !waiting.contains_key(next as u64)
}

/// A transcript starts as that of no records.
pub proof fn law_transcript_starts_empty<R>()
    ensures
        is_transcript_of(Map::<u64, R>::empty(), Seq::<R>::empty(), 0, Map::<u64, R>::empty()),
{
}

/// In whatever order commands complete, the transcript holds them in the order
/// of their numbers, each once: submitting the record of a further command keeps
/// the transcript that of all submitted records.
pub proof fn law_transcript_in_order_of_arrival<R>(
    submitted: Map<u64, R>,
    entries: Seq<R>,
    next: nat,
    waiting: Map<u64, R>,
    seq: u64,
    record: R,
)
    requires
        next <= u64::MAX,
        is_transcript_of(submitted, entries, next, waiting),
        !submitted.contains_key(seq),
        seq < u64::MAX,
        !submitted.contains_key(u64::MAX),
    ensures
        is_transcript_of(
            submitted.insert(seq, record),
            entries + ready(waiting.insert(seq, record), next),
            run_end(waiting.insert(seq, record), next),
            still_waiting(waiting.insert(seq, record), next),
        ),
{
    let all = waiting.insert(seq, record);
    let now = submitted.insert(seq, record);
    let end = run_end(all, next);
    lemma_run_end(all, next);
    assert(next <= seq) by {
        if seq < next {
            assert(submitted.contains_key(seq));
        }
    }
    assert(end <= u64::MAX) by {
        if end == u64::MAX + 1 {
            assert(all.contains_key(u64::MAX));
            assert(waiting.contains_key(u64::MAX));
        }
    }
    let log = entries + ready(all, next);
    assert forall|k: u64| k < end implies #[trigger] now.contains_key(k) by {
        if k < next {
            assert(submitted.contains_key(k));
        } else {
            assert(all.contains_key(k));
            assert(k == seq || waiting.contains_key(k));
        }
    }
    assert forall|i: int| 0 <= i < end implies #[trigger] log[i] == now[i as u64] by {
        if i < next {
            assert(entries[i] == submitted[i as u64]);
            assert(submitted.contains_key(i as u64));
        } else {
            assert(all.contains_key(i as u64));
            assert(log[i] == all[i as u64]);
            assert(i as u64 == seq || waiting.contains_key(i as u64));
        }
    }
    let rest = still_waiting(all, next);
    assert forall|k: u64| #[trigger]
        rest.contains_key(k) <==> now.contains_key(k) && k >= end by {
        assert(waiting.contains_key(k) <==> submitted.contains_key(k) && k >= next);
        if next <= k < end {
            assert(all.contains_key(k));
        }
    }
    assert forall|k: u64| #[trigger] rest.contains_key(k) implies rest[k] == now[k] by {
        assert(k == seq || waiting.contains_key(k));
    }
}

/// No completed command is left out: once the first `n` commands have completed,
/// the transcript holds all of them.
pub proof fn law_transcript_is_complete<R>(
    submitted: Map<u64, R>,
    entries: Seq<R>,
    next: nat,
    waiting: Map<u64, R>,
    n: nat,
)
    requires
        next <= u64::MAX,
        n <= u64::MAX,
        is_transcript_of(submitted, entries, next, waiting),
        forall|k: u64| #[trigger] submitted.contains_key(k) <==> k < n,
    ensures
        next == n,
        waiting == Map::<u64, R>::empty(),
        entries == Seq::new(n, |i: int| submitted[i as u64]),
{
    if next < n {
        assert(submitted.contains_key(next as u64));
        assert(waiting.contains_key(next as u64));
    }
    if n < next {
        assert(submitted.contains_key(n as u64));
    }
    assert(waiting =~= Map::<u64, R>::empty()) by {
        assert forall|k: u64| !waiting.contains_key(k) by {
            assert(waiting.contains_key(k) <==> submitted.contains_key(k) && k >= next);
        }
    }
    assert(entries =~= Seq::new(n, |i: int| submitted[i as u64]));
}

proof fn lemma_run_end<R>(waiting: Map<u64, R>, next: nat)
    requires
        next <= u64::MAX + 1,
    ensures
        next <= run_end(waiting, next) <= u64::MAX + 1,
        forall|k: u64| next <= k < run_end(waiting, next) ==> #[trigger] waiting.contains_key(k),
        run_end(waiting, next) <= u64::MAX ==> !waiting.contains_key(
            run_end(waiting, next) as u64,
        ),
    decreases u64::MAX + 1 - next,
{
    if next <= u64::MAX && waiting.contains_key(next as u64) {
        lemma_run_end(waiting, next + 1);
        assert forall|k: u64| next <= k < run_end(waiting, next) implies
            #[trigger] waiting.contains_key(k) by {
            if k == next {
                assert(k == next as u64);
            }
        }
    }
}

/// A transcript and the queue behind it.
#[verifier::ext_equal]
pub struct Journal<R> {
    pub entries: Seq<R>,
    pub next: nat,
    pub waiting: Map<u64, R>,
}

/// The records that enter the transcript when a record is submitted.
pub open spec fn entering<R>(journal: Journal<R>, seq: u64, record: R) -> Seq<R> {
    ready(journal.waiting.insert(seq, record), journal.next)
}

/// The transcript and its queue behind some submissions, each a number and a record.
pub open spec fn journal_after<R>(submissions: Seq<(u64, R)>) -> Journal<R>
    decreases submissions.len(),
{
    if submissions.len() == 0 {
        Journal { entries: Seq::empty(), next: 0, waiting: Map::empty() }
    } else {
        let before = journal_after(submissions.drop_last());
        let (seq, record) = submissions.last();
        let all = before.waiting.insert(seq, record);
        Journal {
            entries: before.entries + entering(before, seq, record),
            next: run_end(all, before.next),
            waiting: still_waiting(all, before.next),
        }
    }
}

/// The submitted records by number.
pub open spec fn submitted<R>(submissions: Seq<(u64, R)>) -> Map<u64, R>
    decreases submissions.len(),
{
    if submissions.len() == 0 {
        Map::empty()
    } else {
        submitted(submissions.drop_last()).insert(submissions.last().0, submissions.last().1)
    }
}

/// Whether no number was submitted twice, nor the largest that there is.
pub open spec fn numbered_once<R>(submissions: Seq<(u64, R)>) -> bool {
    &&& forall|i: int| 0 <= i < submissions.len() ==> (#[trigger] submissions[i]).0 < u64::MAX
    &&& forall|i: int, j: int|
        0 <= i < j < submissions.len() ==> (#[trigger] submissions[i]).0 != (
        #[trigger] submissions[j]).0
}

/// After any submissions, in whatever order, the transcript holds the records
/// numbered from zero to the first number that is missing, in order and each once.
/// The others wait.
pub proof fn law_transcript_holds_first_numbers<R>(submissions: Seq<(u64, R)>)
    requires
        numbered_once(submissions),
    ensures
        ({
            let journal = journal_after(submissions);
            let records = submitted(submissions);
            &&& is_transcript_of(records, journal.entries, journal.next, journal.waiting)
            &&& journal.next <= u64::MAX
            &&& !records.contains_key(journal.next as u64)
        }),
    decreases submissions.len(),
{
    if submissions.len() > 0 {
        let head = submissions.drop_last();
        let before = journal_after(head);
        let (seq, record) = submissions.last();
        assert forall|i: int| 0 <= i < head.len() implies (#[trigger] head[i]).0 < u64::MAX by {
            assert(submissions[i].0 < u64::MAX);
        }
        assert forall|i: int, j: int| 0 <= i < j < head.len() implies (#[trigger] head[i]).0 != (
        #[trigger] head[j]).0 by {
            assert(submissions[i].0 != submissions[j].0);
        }
        law_transcript_holds_first_numbers(head);
        lemma_submitted(head);
        assert forall|i: int| 0 <= i < head.len() implies (#[trigger] head[i]).0 != seq by {
            assert(submissions[i].0 != submissions[submissions.len() - 1].0);
        }
        law_transcript_in_order_of_arrival(
            submitted(head),
            before.entries,
            before.next,
            before.waiting,
            seq,
            record,
        );
        lemma_run_end(before.waiting.insert(seq, record), before.next);
        lemma_submitted(submissions);
        let journal = journal_after(submissions);
        if journal.next > u64::MAX {
            assert(before.waiting.insert(seq, record).contains_key(u64::MAX));
            assert(before.waiting.contains_key(u64::MAX));
            assert(submitted(head).contains_key(u64::MAX));
        }
        if submitted(submissions).contains_key(journal.next as u64) {
            assert(journal.waiting.contains_key(journal.next as u64));
        }
    }
}

proof fn lemma_submitted<R>(submissions: Seq<(u64, R)>)
    ensures
        forall|k: u64| #[trigger]
            submitted(submissions).contains_key(k) <==> exists|i: int|
                0 <= i < submissions.len() && (#[trigger] submissions[i]).0 == k,
        numbered_once(submissions) ==> forall|i: int|
            0 <= i < submissions.len() ==> submitted(submissions)[(#[trigger] submissions[i]).0]
                == submissions[i].1,
    decreases submissions.len(),
{
    if submissions.len() > 0 {
        let head = submissions.drop_last();
        let last = submissions.len() - 1;
        lemma_submitted(head);
        assert forall|k: u64| #[trigger]
            submitted(submissions).contains_key(k) <==> exists|i: int|
                0 <= i < submissions.len() && (#[trigger] submissions[i]).0 == k by {
            if submitted(head).contains_key(k) {
                let i = choose|i: int| 0 <= i < head.len() && (#[trigger] head[i]).0 == k;
                assert(submissions[i].0 == k);
            }
            if submissions.last().0 == k {
                assert(submissions[last].0 == k);
            }
            if exists|i: int| 0 <= i < submissions.len() && (#[trigger] submissions[i]).0 == k {
                let i = choose|i: int|
                    0 <= i < submissions.len() && (#[trigger] submissions[i]).0 == k;
                if i < last {
                    assert(head[i].0 == k);
                }
            }
        }
        if numbered_once(submissions) {
            assert(numbered_once(head)) by {
                assert forall|i: int| 0 <= i < head.len() implies (#[trigger] head[i]).0
                    < u64::MAX by {
                    assert(submissions[i].0 < u64::MAX);
                }
                assert forall|i: int, j: int| 0 <= i < j < head.len() implies (
                #[trigger] head[i]).0 != (#[trigger] head[j]).0 by {
                    assert(submissions[i].0 != submissions[j].0);
                }
            }
            assert forall|i: int| 0 <= i < submissions.len() implies submitted(submissions)[(
            #[trigger] submissions[i]).0] == submissions[i].1 by {
                if i < last {
                    assert(submissions[i].0 != submissions[last].0);
                    assert(head[i] == submissions[i]);
                }
            }
        }
    }
}

/// Every run is in the transcript: when the first `n` runs are over, and the entry of
/// each was submitted under its number, in whatever order, the transcript holds the
/// entries of all of them, in the order of their numbers.
pub proof fn law_every_run_is_in_the_transcript(
    runs: Seq<RunHistory>,
    submissions: Seq<(u64, EntryView)>,
)
    requires
        runs.len() <= u64::MAX,
        forall|k: int| 0 <= k < runs.len() ==> run_phase((#[trigger] runs[k]).events) is Over,
        numbered_once(submissions),
        forall|i: int|
            0 <= i < submissions.len() ==> (#[trigger] submissions[i]).0 < runs.len()
                && submissions[i].1 == runs[submissions[i].0 as int].entry(),
        forall|k: u64|
            k < runs.len() ==> #[trigger] submitted(submissions).contains_key(k),
    ensures
        journal_after(submissions).entries == Seq::new(runs.len(), |k: int| runs[k].entry()),
        forall|k: int|
            0 <= k < runs.len() ==> #[trigger] runs[k].entries() == seq![
                journal_after(submissions).entries[k],
            ],
{
    let journal = journal_after(submissions);
    let records = submitted(submissions);
    law_transcript_holds_first_numbers(submissions);
    lemma_submitted(submissions);
    assert forall|k: u64| #[trigger] records.contains_key(k) <==> k < runs.len() by {
        if records.contains_key(k) {
            let i = choose|i: int| 0 <= i < submissions.len() && (#[trigger] submissions[i]).0 == k;
            assert(submissions[i].0 < runs.len());
        }
    }
    law_transcript_is_complete(records, journal.entries, journal.next, journal.waiting, runs.len());
    assert forall|k: int| 0 <= k < runs.len() implies journal.entries[k] == runs[k].entry() by {
        let number = k as u64;
        assert(records.contains_key(number));
        let i = choose|i: int|
            0 <= i < submissions.len() && (#[trigger] submissions[i]).0 == number;
        assert(records[submissions[i].0] == submissions[i].1);
    }
    assert(journal.entries =~= Seq::new(runs.len(), |k: int| runs[k].entry()));
    assert forall|k: int| 0 <= k < runs.len() implies #[trigger] runs[k].entries() == seq![
        journal.entries[k],
    ] by {
        law_every_run_has_one_entry(runs[k]);
        assert(runs[k].entries() =~= seq![runs[k].entry()]);
    }
}

/// A record as it is seen: the entry for the transcript, and the raw output.
pub type RecordView = (EntryView, Seq<char>);

/// What a follower gets that joined behind the submissions `before`, while the
/// submissions `later` come.
pub open spec fn follower_feed(
    before: Seq<(u64, RecordView)>,
    later: Seq<(u64, RecordView)>,
    ansi: bool,
) -> Seq<EntryView>
    decreases later.len(),
{
    if later.len() == 0 {
        Seq::empty()
    } else {
        follower_feed(before, later.drop_last(), ansi) + deliveries_of(
            entering(journal_after(before + later.drop_last()), later.last().0, later.last().1),
            ansi,
        )
    }
}

/// What a follower gets of some records.
pub open spec fn deliveries_of(records: Seq<RecordView>, ansi: bool) -> Seq<EntryView> {
    records.map_values(|record: RecordView| delivered_entry(record.0, record.1, ansi))
}

/// A follower gets every entry that enters the transcript after it joined, once and
/// in order, and none that entered before.
pub proof fn law_follower_gets_later_entries(
    before: Seq<(u64, RecordView)>,
    later: Seq<(u64, RecordView)>,
    ansi: bool,
)
    ensures
        journal_after(before).entries.len() <= journal_after(before + later).entries.len(),
        journal_after(before + later).entries.take(
            journal_after(before).entries.len() as int,
        ) == journal_after(before).entries,
        follower_feed(before, later, ansi) == deliveries_of(
            journal_after(before + later).entries.skip(
                journal_after(before).entries.len() as int,
            ),
            ansi,
        ),
    decreases later.len(),
{
    let old_entries = journal_after(before).entries;
    let joined = old_entries.len() as int;
    if later.len() == 0 {
        assert(before + later =~= before);
        assert(old_entries.take(joined) =~= old_entries);
        assert(deliveries_of(old_entries.skip(joined), ansi) =~= Seq::empty());
    } else {
        let head = later.drop_last();
        law_follower_gets_later_entries(before, head, ansi);
        assert((before + later).drop_last() =~= before + head);
        let so_far = journal_after(before + head);
        let new = entering(so_far, later.last().0, later.last().1);
        let now = journal_after(before + later).entries;
        assert(now == so_far.entries + new);
        assert(now.take(joined) =~= so_far.entries.take(joined));
        assert(now.skip(joined) =~= so_far.entries.skip(joined) + new);
        assert(deliveries_of(now.skip(joined), ansi) =~= deliveries_of(
            so_far.entries.skip(joined),
            ansi,
        ) + deliveries_of(new, ansi));
    }
}

/// A follower without colours gets the entry of the transcript. One with colours gets
/// the raw output in it, and nothing else is changed.
pub proof fn law_delivery_changes_output_alone(entry: EntryView, raw_output: Seq<char>)
    ensures
        delivered_entry(entry, raw_output, false) == entry,
        delivered_entry(entry, raw_output, true) == (EntryView { output: raw_output, ..entry }),
{
}

/// What a follower is sent of a record is its entry. Only the output is the raw one for a
/// follower that wants control sequences.
pub proof fn law_delivery_is_the_entry(record: TranscriptRecord, ansi: bool, r: TranscriptEntry)
    requires
        call_ensures(delivery, (&record, ansi), r),
    ensures
        r.output@ == if ansi {
            record.raw_output@
        } else {
            record.entry.output@
        },
        r.whoami@ == record.entry.whoami@,
        r.dir@ == record.entry.dir@,
        r.envs@ == record.entry.envs@,
        r.argv@.len() == record.entry.argv@.len(),
        forall|i: int|
            0 <= i < r.argv@.len() ==> (#[trigger] r.argv@[i])@ == record.entry.argv@[i]@,
        r.timeout == record.entry.timeout,
        r.exit == record.entry.exit,
        r.error is Some <==> record.entry.error is Some,
        r.error is Some ==> r.error->0@ == record.entry.error->0@,
        r.time is Some <==> record.entry.time is Some,
        r.time is Some ==> r.time->0@ == record.entry.time->0@,
{
    law_texts_are_those_of_the_list(r.argv@);
    law_texts_are_those_of_the_list(record.entry.argv@);
    assert forall|i: int| 0 <= i < r.argv@.len() implies (#[trigger] r.argv@[i])@
        == record.entry.argv@[i]@ by {
        assert(r.argv@[i]@ == texts(r.argv@)[i]);
        assert(record.entry.argv@[i]@ == texts(record.entry.argv@)[i]);
    }
}

/// A record that completes a run of numbers from the next one on enters the transcript
/// with all that waited behind it, however many. One that does not only waits.
pub proof fn law_a_gap_holds_the_transcript_up<R>(
    waiting: Map<u64, R>,
    next: nat,
    end: nat,
    seq: u64,
    record: R,
)
    requires
        next <= end < u64::MAX,
        !waiting.contains_key(seq),
        forall|k: u64| next <= k < end ==> k == seq || #[trigger] waiting.contains_key(k),
        end != seq && !waiting.contains_key(end as u64),
    ensures
        ({
            let all = waiting.insert(seq, record);
            &&& ready(all, next).len() == end - next
            &&& forall|i: int| 0 <= i < end - next ==> #[trigger] ready(all, next)[i] == if next + i
                == seq {
                record
            } else {
                waiting[(next + i) as u64]
            }
            &&& forall|k: u64| #[trigger]
                still_waiting(all, next).contains_key(k) <==> !(next <= k < end) && (k == seq
                    || waiting.contains_key(k))
        }),
{
    let all = waiting.insert(seq, record);
    lemma_run_end(all, next);
    assert(run_end(all, next) == end) by {
        if run_end(all, next) < end {
            let k = run_end(all, next) as u64;
            assert(k == seq || waiting.contains_key(k));
        }
        if run_end(all, next) > end {
            assert(all.contains_key(end as u64));
        }
    }
}

/// The transcript takes the next record at once, and then those that waited behind it. It
/// keeps its followers.
pub proof fn law_next_record_enters_at_once<S>(
    queue: &mut TranscriptQueue<S>,
    seq: u64,
    entry: TranscriptEntry,
    raw_output: String,
    records: Vec<TranscriptRecord>,
)
    requires
        seq < u64::MAX,
        call_ensures(TranscriptQueue::<S>::submit, (queue, seq, entry, raw_output), records),
    ensures
        old(queue).next() == seq ==> records@.len() > 0 && records@[0] == (TranscriptRecord {
            entry,
            raw_output,
        }),
        old(queue).next() < seq && !old(queue).waiting().contains_key(old(queue).next() as u64) ==> {
            &&& records@.len() == 0
            &&& final(queue).next() == old(queue).next()
            &&& final(queue).waiting().contains_key(seq)
            &&& final(queue).waiting()[seq] == (TranscriptRecord { entry, raw_output })
        },
        old(queue).next() <= u64::MAX ==> final(queue).next() == old(queue).next() + records@.len(),
        final(queue).following() == old(queue).following(),
{
    let all = old(queue).waiting().insert(seq, TranscriptRecord { entry, raw_output });
    if old(queue).next() <= u64::MAX {
        lemma_run_end(all, old(queue).next());
        if old(queue).next() == seq {
            lemma_run_end(all, seq as nat + 1);
        }
    }
}

/// Followers come and go in order: one that joins stands behind all others, those to whom
/// an entry could not be delivered leave, and at the end all do. The transcript does not
/// change by that.
pub proof fn law_followers_come_and_go<S>(
    queue: &mut TranscriptQueue<S>,
    ansi: bool,
    sender: S,
    later: &mut TranscriptQueue<S>,
    delivered: Vec<bool>,
    last: &mut TranscriptQueue<S>,
)
    requires
        call_ensures(TranscriptQueue::<S>::subscribe, (queue, ansi, sender), ()),
        *old(later) == *final(queue),
        delivered@.len() == old(later).following().len(),
        call_ensures(TranscriptQueue::<S>::retain_delivered, (later, &delivered), ()),
        *old(last) == *final(later),
        call_ensures(TranscriptQueue::<S>::close_subscriptions, (last,), ()),
    ensures
        final(queue).following() == old(queue).following() + seq![
            TranscriptSubscriber { ansi, sender },
        ],
        final(later).following().len() == delivered@.filter(|mark: bool| mark).len(),
        final(last).following().len() == 0,
        final(last).next() == old(queue).next(),
        final(last).waiting() == old(queue).waiting(),
{
    law_marked_items_keep_their_places(old(later).following(), delivered@);
    assert(final(queue).following() =~= old(queue).following() + seq![
        TranscriptSubscriber { ansi, sender },
    ]);
}

} // verus!
