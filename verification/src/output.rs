//! The output of a running command, on its way to the console and the client.

use vstd::prelude::*;

use crate::filter::{filtered, law_chunking, state_after, OutputFilter, State};

verus! {

/// What came of reading from a command's terminal.
#[derive(Debug)]
pub enum PtyRead {
    /// Bytes, at least one.
    Data(Vec<u8>),
    /// The terminal was closed.
    Eof,
    /// The call was interrupted.
    Interrupted,
    /// Reading failed.
    Failed,
}

/// The output of one command.
pub struct PtyBuffer {
    raw_pending: Vec<u8>,
    raw_total: Vec<u8>,
    filtered_total: Vec<u8>,
    filter: OutputFilter,
    eof: bool,
    console_output: bool,
    printed: Ghost<Seq<u8>>,
}

impl PtyBuffer {
    /// All bytes that the command has put out.
    pub closed spec fn raw(&self) -> Seq<u8> {
        self.raw_total@
    }

    /// The bytes that wait to be printed on the console.
    pub closed spec fn pending(&self) -> Seq<u8> {
        self.raw_pending@
    }

    /// The bytes that were handed out for printing on the console.
    pub closed spec fn printed(&self) -> Seq<u8> {
        self.printed@
    }

    /// Whether the command has closed its terminal.
    pub closed spec fn ended(&self) -> bool {
        self.eof
    }

    /// Whether the console shows this command's output.
    pub closed spec fn on_console(&self) -> bool {
        self.console_output
    }

    /// Every byte that a command puts out reaches the console once and in order:
    /// what was printed and what still waits make up the command's output. A
    /// command that is not shown prints nothing.
    pub open spec fn shown_in_order(&self) -> bool {
        &&& self.on_console() ==> self.printed() + self.pending() == self.raw()
        &&& !self.on_console() ==> self.printed().len() == 0 && self.pending().len() == 0
    }

    #[verifier::type_invariant]
    spec fn consistent(&self) -> bool {
        &&& self.filtered_total@ == filtered(self.raw_total@)
        &&& self.filter.state == state_after(State::Normal, self.raw_total@)
        &&& self.console_output ==> self.printed@ + self.raw_pending@ == self.raw_total@
        &&& !self.console_output ==> self.raw_pending@.len() == 0 && self.printed@.len() == 0
    }

    /// The buffer of a command that has put out nothing.
    pub fn new(console_output: bool) -> (r: Self)
        ensures
            r.raw() == Seq::<u8>::empty(),
            r.pending() == Seq::<u8>::empty(),
            r.printed() == Seq::<u8>::empty(),
            !r.ended(),
            r.on_console() == console_output,
            r.shown_in_order(),
    {
        PtyBuffer {
            raw_pending: Vec::new(),
            raw_total: Vec::new(),
            filtered_total: Vec::new(),
            filter: OutputFilter::new(),
            eof: false,
            console_output,
            printed: Ghost(Seq::empty()),
        }
    }

    /// Takes what was read from the terminal. Returns whether to read on.
    pub fn absorb(&mut self, read: PtyRead) -> (more: bool)
        ensures
            final(self).on_console() == old(self).on_console(),
            final(self).printed() == old(self).printed(),
            final(self).shown_in_order(),
            match read {
                PtyRead::Data(chunk) => {
                    &&& more
                    &&& final(self).raw() == old(self).raw() + chunk@
                    &&& final(self).pending() == if old(self).on_console() {
                        old(self).pending() + chunk@
                    } else {
                        old(self).pending()
                    }
                    &&& final(self).ended() == old(self).ended()
                },
                PtyRead::Interrupted => {
                    &&& more
                    &&& final(self).raw() == old(self).raw()
                    &&& final(self).pending() == old(self).pending()
                    &&& final(self).ended() == old(self).ended()
                },
                PtyRead::Eof | PtyRead::Failed => {
                    &&& !more
                    &&& final(self).raw() == old(self).raw()
                    &&& final(self).pending() == old(self).pending()
                    &&& final(self).ended()
                },
            },
    {
        proof {
            use_type_invariant(&*self);
        }
        match read {
            PtyRead::Data(chunk) => {
                let mut next = PtyBuffer::new(self.console_output);
                std::mem::swap(self, &mut next);
                proof {
                    use_type_invariant(&next);
                }
                let PtyBuffer {
                    mut raw_pending,
                    mut raw_total,
                    mut filtered_total,
                    mut filter,
                    eof,
                    console_output,
                    printed,
                } = next;
                let ghost before = raw_total@;
                proof {
                    law_chunking(State::Normal, before, chunk@);
                }
                if console_output {
                    append_bytes(&mut raw_pending, chunk.as_slice());
                }
                append_bytes(&mut raw_total, chunk.as_slice());
                filter.push(chunk.as_slice(), &mut filtered_total);
                proof {
                    assert(printed@ + raw_pending@ =~= if console_output {
                        raw_total@
                    } else {
                        printed@ + raw_pending@
                    });
                    assert(filtered_total@ =~= filtered(raw_total@));
                }
                *self =
                PtyBuffer {
                    raw_pending,
                    raw_total,
                    filtered_total,
                    filter,
                    eof,
                    console_output,
                    printed,
                };
                true
            },
            PtyRead::Interrupted => true,
            PtyRead::Eof | PtyRead::Failed => {
                self.eof = true;
                false
            },
        }
    }

    /// Whether there is anything to print, or nothing more will come.
    pub fn has_news(&self) -> (r: bool)
        ensures
            r == (self.pending().len() > 0 || self.ended()),
    {
        self.raw_pending.len() > 0 || self.eof
    }

    /// Hands out the bytes that wait to be printed, and whether these are the last.
    pub fn take_pending(&mut self) -> (r: (Vec<u8>, bool))
        ensures
            r.0@ == old(self).pending(),
            r.1 == old(self).ended(),
            final(self).pending() == Seq::<u8>::empty(),
            final(self).printed() == old(self).printed() + old(self).pending(),
            final(self).raw() == old(self).raw(),
            final(self).ended() == old(self).ended(),
            final(self).on_console() == old(self).on_console(),
            final(self).shown_in_order(),
    {
        let mut next = PtyBuffer::new(self.console_output);
        std::mem::swap(self, &mut next);
        proof {
            use_type_invariant(&next);
        }
        let PtyBuffer {
            raw_pending,
            raw_total,
            filtered_total,
            filter,
            eof,
            console_output,
            printed,
        } = next;
        let ghost shown = printed@ + raw_pending@;
        proof {
            assert(shown + Seq::<u8>::empty() =~= shown);
        }
        *self =
        PtyBuffer {
            raw_pending: Vec::new(),
            raw_total,
            filtered_total,
            filter,
            eof,
            console_output,
            printed: Ghost(shown),
        };
        (raw_pending, eof)
    }

    /// All bytes that the command has put out.
    pub fn raw_bytes(&self) -> (r: &Vec<u8>)
        ensures
            r@ == self.raw(),
    {
        &self.raw_total
    }

    /// The command's output without control sequences.
    pub fn filtered_bytes(&self) -> (r: &Vec<u8>)
        ensures
            r@ == filtered(self.raw()),
    {
        proof {
            use_type_invariant(self);
        }
        &self.filtered_total
    }
}

/// Appends the bytes of `more`.
pub fn append_bytes(bytes: &mut Vec<u8>, more: &[u8])
    ensures
        final(bytes)@ == old(bytes)@ + more@,
{
    bytes.extend_from_slice(more);
    assert(bytes@ =~= old(bytes)@ + more@);
}

/// What a command puts out is kept as it came, and comes to the console in the same order:
/// what is taken behind a read is what waited, and then what was read.
pub proof fn law_output_is_kept_and_shown(
    buffer: &mut PtyBuffer,
    later: &mut PtyBuffer,
    chunk: Vec<u8>,
    more: bool,
    taken: (Vec<u8>, bool),
    raw: &Vec<u8>,
    clean: &Vec<u8>,
)
    requires
        call_ensures(PtyBuffer::absorb, (buffer, PtyRead::Data(chunk)), more),
        call_ensures(PtyBuffer::take_pending, (later,), taken),
        *old(later) == *final(buffer),
        call_ensures(PtyBuffer::raw_bytes, (&*final(later),), raw),
        call_ensures(PtyBuffer::filtered_bytes, (&*final(later),), clean),
    ensures
        more,
        raw@ == old(buffer).raw() + chunk@,
        clean@ == filtered(old(buffer).raw() + chunk@),
        old(buffer).on_console() ==> taken.0@ == old(buffer).pending() + chunk@,
        !old(buffer).on_console() ==> taken.0@ == old(buffer).pending(),
        taken.1 == old(buffer).ended(),
        final(later).pending().len() == 0,
{
}

/// A terminal is read until it is closed or cannot be read, and nothing of the output is
/// lost by that. An interrupted read changes nothing.
pub proof fn law_terminal_is_read_to_its_end(buffer: &mut PtyBuffer, read: PtyRead, more: bool)
    requires
        call_ensures(PtyBuffer::absorb, (buffer, read), more),
        !(read is Data),
    ensures
        more <==> read is Interrupted,
        final(buffer).raw() == old(buffer).raw(),
        final(buffer).pending() == old(buffer).pending(),
        final(buffer).ended() <==> old(buffer).ended() || !more,
{
}

} // verus!
