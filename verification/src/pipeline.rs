//! The delivery pipeline: a first-in, first-out queue of formatted lines
//! between any number of producers and the one consumer that writes them.
//!
//! The queue itself is sequential. Whoever shares it between threads guards
//! it with a lock, and the order in which the lock is taken is the arrival
//! order that the pipeline keeps.

use std::collections::VecDeque;
use vstd::prelude::*;
use vstd::string::StringExecFns;

use crate::severity::OutputChannel;

verus! {

/// A queued line as contracts see it.
pub struct EntryView {
    pub channel: OutputChannel,
    pub line: Seq<char>,
}

/// A fully formatted line and the stream it is bound for.
#[derive(Debug)]
pub struct QueueEntry {
    pub channel: OutputChannel,
    pub line: String,
}

impl View for QueueEntry {
    type V = EntryView;

    open spec fn view(&self) -> EntryView {
        EntryView { channel: self.channel, line: self.line@ }
    }
}

/// One write of the consumer: `text` goes to the stream `channel`, which is
/// flushed right after.
#[derive(Debug)]
pub struct WriteCommand {
    pub channel: OutputChannel,
    pub text: String,
}

impl View for WriteCommand {
    type V = EntryView;

    open spec fn view(&self) -> EntryView {
        EntryView { channel: self.channel, line: self.text@ }
    }
}

/// What the consumer does next.
#[derive(Debug)]
pub enum ConsumerStep {
    /// Write the line, flush, and ask again.
    Write(WriteCommand),
    /// Nothing is queued: block until an entry arrives or the pipeline is
    /// closed.
    Wait,
    /// The pipeline is closed and drained: the consumer ends.
    Stop,
}

/// The write that delivers `entry`: its line and a line terminator, on its
/// stream.
pub open spec fn command_for(entry: EntryView) -> EntryView {
    EntryView { channel: entry.channel, line: entry.line + seq!['\n'] }
}

/// The queue between the producers and the consumer.
pub struct Pipeline {
    pending: VecDeque<QueueEntry>,
    open: bool,
    accepted: Ghost<Seq<EntryView>>,
    delivered: Ghost<Seq<EntryView>>,
}

impl Pipeline {
    /// The entries queued and not yet handed to the consumer, oldest first.
    pub closed spec fn pending(&self) -> Seq<EntryView> {
        self.pending@.map_values(|entry: QueueEntry| entry@)
    }

    /// Whether producers can still enqueue.
    pub closed spec fn is_open(&self) -> bool {
        self.open
    }

    /// Every entry ever taken in, in arrival order.
    pub closed spec fn accepted(&self) -> Seq<EntryView> {
        self.accepted@
    }

    /// Every entry handed to the consumer so far, in the order of the writes.
    pub closed spec fn delivered(&self) -> Seq<EntryView> {
        self.delivered@
    }

    /// What was taken in is what was delivered followed by what is pending:
    /// nothing is lost, doubled or reordered.
    pub open spec fn wf(&self) -> bool {
        self.accepted() == self.delivered() + self.pending()
    }

    /// An open pipeline that has seen nothing yet.
    pub fn new() -> (pipeline: Pipeline)
        ensures
            pipeline.wf(),
            pipeline.is_open(),
            pipeline.accepted() == Seq::<EntryView>::empty(),
            pipeline.delivered() == Seq::<EntryView>::empty(),
            pipeline.pending() == Seq::<EntryView>::empty(),
    {
        let pipeline = Pipeline {
            pending: VecDeque::new(),
            open: true,
            accepted: Ghost(Seq::empty()),
            delivered: Ghost(Seq::empty()),
        };
        assert(pipeline.pending() =~= Seq::<EntryView>::empty());
        assert(pipeline.accepted() =~= pipeline.delivered() + pipeline.pending());
        pipeline
    }

    /// The number of entries waiting for the consumer.
    pub fn pending_len(&self) -> (count: usize)
        ensures
            count == self.pending().len(),
    {
        self.pending.len()
    }

    /// Queues `entry` behind everything queued before. A closed pipeline
    /// takes nothing; the entry is then dropped and `false` returned.
    pub fn enqueue(&mut self, entry: QueueEntry) -> (taken: bool)
        requires
            old(self).wf(),
        ensures
            final(self).wf(),
            taken == old(self).is_open(),
            final(self).is_open() == old(self).is_open(),
            final(self).delivered() == old(self).delivered(),
            taken ==> final(self).accepted() == old(self).accepted().push(entry@)
                && final(self).pending() == old(self).pending().push(entry@),
            !taken ==> final(self).accepted() == old(self).accepted() && final(self).pending()
                == old(self).pending(),
    {
        if !self.open {
            return false;
        }
        let ghost view = entry@;
        self.pending.push_back(entry);
        proof {
            self.accepted@ = self.accepted@.push(view);
            assert(self.pending() =~= old(self).pending().push(view));
            assert(self.accepted() =~= self.delivered() + self.pending());
        }
        true
    }

    /// Closes the pipeline: what is queued is still delivered, and nothing
    /// more is taken in.
    pub fn close(&mut self)
        requires
            old(self).wf(),
        ensures
            final(self).wf(),
            !final(self).is_open(),
            final(self).accepted() == old(self).accepted(),
            final(self).delivered() == old(self).delivered(),
            final(self).pending() == old(self).pending(),
    {
        self.open = false;
    }

    /// The consumer's next step. The oldest pending entry, if there is one,
    /// leaves the queue as a write of its line and a line terminator on its
    /// stream. With nothing pending the consumer waits while the pipeline is
    /// open and stops once it is closed.
    pub fn next_step(&mut self) -> (step: ConsumerStep)
        requires
            old(self).wf(),
        ensures
            final(self).wf(),
            final(self).is_open() == old(self).is_open(),
            final(self).accepted() == old(self).accepted(),
            old(self).pending().len() > 0 ==> (step matches ConsumerStep::Write(command)
                && command@ == command_for(old(self).pending()[0])
                && final(self).pending() == old(self).pending().drop_first()
                && final(self).delivered() == old(self).delivered().push(old(self).pending()[0])),
            old(self).pending().len() == 0 ==> final(self).pending() == old(self).pending()
                && final(self).delivered() == old(self).delivered(),
            old(self).pending().len() == 0 && old(self).is_open() ==> step is Wait,
            old(self).pending().len() == 0 && !old(self).is_open() ==> step is Stop,
    {
        match self.pending.pop_front() {
            Some(entry) => {
                proof {
                    reveal_strlit("\n");
                    self.delivered@ = self.delivered@.push(entry@);
                    assert(entry@ == old(self).pending()[0]);
                    assert(self.pending() =~= old(self).pending().drop_first());
                    assert(self.accepted() =~= self.delivered() + self.pending());
                }
                let QueueEntry { channel, line } = entry;
                let mut text = line;
                text.append("\n");
                assert(text@ =~= line@ + seq!['\n']);
                ConsumerStep::Write(WriteCommand { channel, text })
            },
            None => {
                assert(self.pending() =~= old(self).pending());
                if self.open {
                    ConsumerStep::Wait
                } else {
                    ConsumerStep::Stop
                }
            },
        }
    }
}

/// In every state of a pipeline the writes follow the arrivals: the k-th
/// entry handed to the consumer is the k-th entry that was taken in, and the
/// entries still pending are the arrivals after those, in the same order.
/// Every entry taken in is thus written once, after all that arrived before
/// it and before all that arrived after it, whichever stream it goes to.
pub proof fn lemma_writes_follow_arrivals(pipeline: &Pipeline)
    requires
        pipeline.wf(),
    ensures
        pipeline.accepted().len() == pipeline.delivered().len() + pipeline.pending().len(),
        pipeline.delivered().is_prefix_of(pipeline.accepted()),
        forall|k: int|
            0 <= k < pipeline.delivered().len() ==> pipeline.delivered()[k]
                == pipeline.accepted()[k],
        forall|k: int|
            0 <= k < pipeline.pending().len() ==> pipeline.pending()[k]
                == pipeline.accepted()[pipeline.delivered().len() + k],
{
    assert(pipeline.delivered() =~= pipeline.accepted().subrange(
        0,
        pipeline.delivered().len() as int,
    ));
}

/// No two entries change places: of two arrivals, once the later one has
/// been written, the earlier one has been written too, and before it. This
/// holds in particular of two entries of one producer.
pub proof fn lemma_order_of_two_kept(pipeline: &Pipeline, earlier: int, later: int)
    requires
        pipeline.wf(),
        0 <= earlier < later < pipeline.accepted().len(),
        later < pipeline.delivered().len(),
    ensures
        earlier < pipeline.delivered().len(),
        pipeline.delivered()[earlier] == pipeline.accepted()[earlier],
        pipeline.delivered()[later] == pipeline.accepted()[later],
{
    lemma_writes_follow_arrivals(pipeline);
}

/// Once the queue is drained, the writes are exactly the arrivals.
pub proof fn lemma_drained_delivers_all(pipeline: &Pipeline)
    requires
        pipeline.wf(),
        pipeline.pending().len() == 0,
    ensures
        pipeline.delivered() == pipeline.accepted(),
{
    assert(pipeline.delivered() + pipeline.pending() =~= pipeline.delivered());
}

} // verus!
