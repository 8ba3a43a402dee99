//! The staged pipeline: three actors that hand messages on over one channel.

use crate::counter::{count_words, word_counts};
use crate::document::{
    all_readable, collect_texts, first_unreadable, texts_of, Document, DocumentReadFailure,
};
use crate::frequency::{representable, FrequencyMap};
use crate::merger::{merge_all, sum_of};
use crate::parallel::par_map;
use crate::strategy::{countable, counts_of_each, expected};
use std::collections::VecDeque;
use vstd::multiset::Multiset;
use vstd::prelude::*;

verus! {

/// What the actors send each other.
pub enum Message {
    /// The raw texts of all documents.
    FileContents(Vec<String>),
    /// One partial table per text.
    WordCounts(Vec<FrequencyMap>),
    /// The table of the whole corpus.
    CombinedCount(FrequencyMap),
    /// The request to stop; no stage expects it.
    Shutdown,
}

/// The tag of a message.
#[derive(Clone, Copy, Debug, PartialEq, Eq, Structural)]
pub enum MessageKind {
    FileContents,
    WordCounts,
    CombinedCount,
    Shutdown,
}

/// A message as plain values.
pub enum MessageView {
    FileContents(Seq<Seq<char>>),
    WordCounts(Seq<Multiset<Seq<char>>>),
    CombinedCount(Multiset<Seq<char>>),
    Shutdown,
}

impl MessageView {
    /// The tag of the message.
    pub open spec fn kind(self) -> MessageKind {
        match self {
            MessageView::FileContents(_) => MessageKind::FileContents,
            MessageView::WordCounts(_) => MessageKind::WordCounts,
            MessageView::CombinedCount(_) => MessageKind::CombinedCount,
            MessageView::Shutdown => MessageKind::Shutdown,
        }
    }
}

impl View for Message {
    type V = MessageView;

    open spec fn view(&self) -> MessageView {
        match self {
            Message::FileContents(texts) => MessageView::FileContents(texts.deep_view()),
            Message::WordCounts(parts) => MessageView::WordCounts(parts.deep_view()),
            Message::CombinedCount(total) => MessageView::CombinedCount(total@),
            Message::Shutdown => MessageView::Shutdown,
        }
    }
}

impl DeepView for Message {
    type V = MessageView;

    open spec fn deep_view(&self) -> MessageView {
        self@
    }
}

impl Message {
    /// The tag of the message.
    pub fn kind(&self) -> (k: MessageKind)
        ensures
            k == self@.kind(),
    {
        match self {
            Message::FileContents(_) => MessageKind::FileContents,
            Message::WordCounts(_) => MessageKind::WordCounts,
            Message::CombinedCount(_) => MessageKind::CombinedCount,
            Message::Shutdown => MessageKind::Shutdown,
        }
    }
}

/// The one channel of a run: messages leave it in the order in which they
/// were sent.
pub struct Channel {
    queue: VecDeque<Message>,
}

impl View for Channel {
    type V = Seq<MessageView>;

    closed spec fn view(&self) -> Seq<MessageView> {
        self.queue.deep_view()
    }
}

impl Channel {
    /// A channel that holds no message.
    pub fn new() -> (channel: Self)
        ensures
            channel@ == Seq::<MessageView>::empty(),
    {
        let channel = Channel { queue: VecDeque::new() };
        assert(channel@ =~= Seq::<MessageView>::empty());
        channel
    }

    /// Puts `message` behind the messages that wait.
    pub fn send(&mut self, message: Message)
        ensures
            final(self)@ == old(self)@.push(message@),
    {
        self.queue.push_back(message);
        assert(self@ =~= old(self)@.push(message@));
    }

    /// Takes the message that has waited longest, or `None` where none waits.
    pub fn recv(&mut self) -> (message: Option<Message>)
        ensures
            match message {
                Some(m) => old(self)@.len() > 0 && m@ == old(self)@[0] && final(self)@ == old(
                    self,
                )@.drop_first(),
                None => old(self)@.len() == 0 && final(self)@ == old(self)@,
            },
    {
        let message = self.queue.pop_front();
        assert(message is Some ==> self@ =~= old(self)@.drop_first());
        message
    }

    /// The number of messages that wait.
    pub fn len(&self) -> (n: usize)
        ensures
            n == self@.len(),
    {
        self.queue.len()
    }
}

/// The receiving parties of a run.
#[derive(Clone, Copy, Debug, PartialEq, Eq, Structural)]
pub enum Stage {
    Count,
    Combine,
    Driver,
}

/// A stage did not find the message that it waits for.
#[derive(Clone, Copy, Debug, PartialEq, Eq)]
pub struct ProtocolViolation {
    /// The stage that received.
    pub stage: Stage,
    /// The kind of message that the stage waits for.
    pub expected: MessageKind,
    /// The kind of message that came, or `None` where the channel held none.
    pub received: Option<MessageKind>,
}

/// Why a run of the pipeline failed.
#[derive(Clone, Debug, PartialEq, Eq)]
pub enum PipelineError {
    DocumentReadFailure(DocumentReadFailure),
    ProtocolViolation(ProtocolViolation),
}

/// The kind of the message at the head of `queue`.
pub open spec fn head_kind(queue: Seq<MessageView>) -> Option<MessageKind> {
    if queue.len() > 0 {
        Some(queue[0].kind())
    } else {
        None
    }
}

/// What is left of `queue` once its head was taken.
pub open spec fn after_recv(queue: Seq<MessageView>) -> Seq<MessageView> {
    if queue.len() > 0 {
        queue.drop_first()
    } else {
        queue
    }
}

/// What a stage that waits for `expected` returns when it takes the head of
/// `queue`.
pub open spec fn verdict(stage: Stage, expected: MessageKind, queue: Seq<MessageView>) -> Result<
    (),
    ProtocolViolation,
> {
    if head_kind(queue) == Some(expected) {
        Ok(())
    } else {
        Err(ProtocolViolation { stage, expected, received: head_kind(queue) })
    }
}

/// The stage that hands the texts of the documents to the pipeline.
pub struct ReadActor {}

/// The stage that counts the words of each text.
pub struct CountActor {}

/// The stage that folds the partial tables into one.
pub struct CombineActor {}

impl ReadActor {
    /// A fresh actor for one run.
    pub fn new() -> (actor: Self) {
        ReadActor {  }
    }

    /// Sends the texts of `docs` as one `FileContents` message. Where a
    /// document could not be read, the stage sends nothing and reports the
    /// first such document.
    pub fn read(self, channel: &mut Channel, docs: Vec<Document>) -> (r: Result<
        (),
        DocumentReadFailure,
    >)
        ensures
            match r {
                Ok(_) => all_readable(docs@) && final(channel)@ == old(channel)@.push(
                    MessageView::FileContents(texts_of(docs@)),
                ),
                Err(e) => !all_readable(docs@) && e.path@ == docs[first_unreadable(docs@)].path@
                    && final(channel)@ == old(channel)@,
            },
    {
        match collect_texts(docs) {
            Ok(texts) => {
                channel.send(Message::FileContents(texts));
                Ok(())
            },
            Err(e) => Err(e),
        }
    }
}

impl CountActor {
    /// A fresh actor for one run.
    pub fn new() -> (actor: Self) {
        CountActor {  }
    }

    /// Takes the next message. Where it is `FileContents`, counts the words
    /// of each text in a task of its own and sends the partial tables as one
    /// `WordCounts` message. Any other message, or none, is a violation: the
    /// stage then sends nothing.
    pub fn count(self, channel: &mut Channel) -> (r: Result<(), ProtocolViolation>)
        ensures
            r == verdict(Stage::Count, MessageKind::FileContents, old(channel)@),
            final(channel)@ == (match r {
                Ok(_) => after_recv(old(channel)@).push(
                    MessageView::WordCounts(counts_of_each(old(channel)@[0]->FileContents_0)),
                ),
                Err(_) => after_recv(old(channel)@),
            }),
    {
        match channel.recv() {
            Some(Message::FileContents(texts)) => {
                let count = |text: String| -> (part: FrequencyMap)
                    ensures
                        part@ == word_counts(text@),
                    {
                        count_words(text.as_str())
                    };
                let parts = par_map(texts, count);
                proof {
                    assert(parts.deep_view() == counts_of_each(texts.deep_view()));
                }
                channel.send(Message::WordCounts(parts));
                Ok(())
            },
            Some(other) => Err(
                ProtocolViolation {
                    stage: Stage::Count,
                    expected: MessageKind::FileContents,
                    received: Some(other.kind()),
                },
            ),
            None => Err(
                ProtocolViolation {
                    stage: Stage::Count,
                    expected: MessageKind::FileContents,
                    received: None,
                },
            ),
        }
    }
}

impl CombineActor {
    /// A fresh actor for one run.
    pub fn new() -> (actor: Self) {
        CombineActor {  }
    }

    /// Takes the next message. Where it is `WordCounts`, folds the partial
    /// tables into one and sends it as one `CombinedCount` message. Any other
    /// message, or none, is a violation: the stage then sends nothing.
    pub fn combine(self, channel: &mut Channel) -> (r: Result<(), ProtocolViolation>)
        requires
            old(channel)@.len() > 0 && old(channel)@[0] is WordCounts ==> representable(
                sum_of(old(channel)@[0]->WordCounts_0),
            ),
        ensures
            r == verdict(Stage::Combine, MessageKind::WordCounts, old(channel)@),
            final(channel)@ == (match r {
                Ok(_) => after_recv(old(channel)@).push(
                    MessageView::CombinedCount(sum_of(old(channel)@[0]->WordCounts_0)),
                ),
                Err(_) => after_recv(old(channel)@),
            }),
    {
        match channel.recv() {
            Some(Message::WordCounts(parts)) => {
                let total = merge_all(parts);
                channel.send(Message::CombinedCount(total));
                Ok(())
            },
            Some(other) => Err(
                ProtocolViolation {
                    stage: Stage::Combine,
                    expected: MessageKind::WordCounts,
                    received: Some(other.kind()),
                },
            ),
            None => Err(
                ProtocolViolation {
                    stage: Stage::Combine,
                    expected: MessageKind::WordCounts,
                    received: None,
                },
            ),
        }
    }
}

/// Takes the next message for the driver: the table of a `CombinedCount`
/// message is the result of the run, any other message, or none, is a
/// violation.
pub fn receive_result(channel: &mut Channel) -> (r: Result<FrequencyMap, ProtocolViolation>)
    ensures
        final(channel)@ == after_recv(old(channel)@),
        match r {
            Ok(total) => old(channel)@.len() > 0 && old(channel)@[0]
                == MessageView::CombinedCount(total@),
            Err(e) => Err::<(), ProtocolViolation>(e) == verdict(
                Stage::Driver,
                MessageKind::CombinedCount,
                old(channel)@,
            ),
        },
{
    match channel.recv() {
        Some(Message::CombinedCount(total)) => Ok(total),
        Some(other) => Err(
            ProtocolViolation {
                stage: Stage::Driver,
                expected: MessageKind::CombinedCount,
                received: Some(other.kind()),
            },
        ),
        None => Err(
            ProtocolViolation {
                stage: Stage::Driver,
                expected: MessageKind::CombinedCount,
                received: None,
            },
        ),
    }
}

/// What a run of the pipeline returned, as plain values.
pub open spec fn pipeline_outcome(r: Result<FrequencyMap, PipelineError>) -> Option<
    Result<Multiset<Seq<char>>, Seq<char>>,
> {
    match r {
        Ok(m) => Some(Ok(m@)),
        Err(PipelineError::DocumentReadFailure(e)) => Some(Err(e.path@)),
        Err(PipelineError::ProtocolViolation(_)) => None,
    }
}

/// The pipeline strategy: a fresh channel and fresh actors for one run, each
/// stage started as soon as its predecessor has sent.
pub fn pipelineparalelism(docs: Vec<Document>) -> (r: Result<FrequencyMap, PipelineError>)
    requires
        countable(docs@),
    ensures
        pipeline_outcome(r) == Some(expected(docs@)),
{
    let mut channel = Channel::new();
    let read = ReadActor::new();
    let count = CountActor::new();
    let combine = CombineActor::new();
    match read.read(&mut channel, docs) {
        Ok(_) => {},
        Err(e) => {
            return Err(PipelineError::DocumentReadFailure(e));
        },
    }
    match count.count(&mut channel) {
        Ok(_) => {},
        Err(e) => {
            return Err(PipelineError::ProtocolViolation(e));
        },
    }
    match combine.combine(&mut channel) {
        Ok(_) => {},
        Err(e) => {
            return Err(PipelineError::ProtocolViolation(e));
        },
    }
    match receive_result(&mut channel) {
        Ok(total) => Ok(total),
        Err(e) => Err(PipelineError::ProtocolViolation(e)),
    }
}

} // verus!
