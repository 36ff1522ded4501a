//! The shared message log and the per-connection fan-out cursor.
//!
//! The log is strictly append-only: an entry, once appended at an index, is
//! never mutated, removed, or displaced. Each connection tracks the next log
//! index it has not yet sent with a [`Cursor`]; collecting the unsent suffix
//! advances the cursor past everything it returns, so every entry is delivered
//! to a given connection at most once and in log order.

use vstd::prelude::*;

verus! {

/// One chat message: who sent it and what they said.
pub struct ChatMessage {
    pub username: String,
    pub text: String,
}

/// The mathematical value of a [`ChatMessage`]: its two fields as character
/// sequences.
pub struct ChatMessageView {
    pub username: Seq<char>,
    pub text: Seq<char>,
}

impl View for ChatMessage {
    type V = ChatMessageView;

    open spec fn view(&self) -> ChatMessageView {
        ChatMessageView { username: self.username@, text: self.text@ }
    }
}

impl Clone for ChatMessage {
    fn clone(&self) -> (r: Self)
        ensures
            r@ == self@,
    {
        ChatMessage { username: self.username.clone(), text: self.text.clone() }
    }
}

impl ChatMessage {
    pub fn new(username: String, text: String) -> (r: ChatMessage)
        ensures
            r@ == (ChatMessageView { username: username@, text: text@ }),
    {
        ChatMessage { username, text }
    }
}

/// The shared, append-only sequence of chat messages. One instance lives for
/// the whole process, behind whatever mutual exclusion the caller provides;
/// every operation here relates the new contents to the old, so a holder of
/// the lock can only ever extend it.
pub struct MessageLog {
    entries: Vec<ChatMessage>,
}

impl View for MessageLog {
    type V = Seq<ChatMessageView>;

    closed spec fn view(&self) -> Seq<ChatMessageView> {
        self.entries@.map_values(|m: ChatMessage| m@)
    }
}

impl MessageLog {
    /// An empty log.
    pub fn new() -> (r: MessageLog)
        ensures
            r@ == Seq::<ChatMessageView>::empty(),
    {
        let r = MessageLog { entries: Vec::new() };
        proof {
            assert(r@ =~= Seq::<ChatMessageView>::empty());
        }
        r
    }

    /// How many messages have ever been appended.
    pub fn len(&self) -> (n: usize)
        ensures
            n == self@.len(),
    {
        self.entries.len()
    }

    /// Appends one message at the end. Every existing entry keeps its index
    /// and its value: the log is strictly append-only.
    pub fn append(&mut self, m: ChatMessage)
        ensures
            final(self)@ == old(self)@.push(m@),
    {
        let ghost before = self@;
        let ghost mv = m@;
        self.entries.push(m);
        proof {
            assert(self@ =~= before.push(mv));
        }
    }

    /// The message at an index.
    pub fn get(&self, i: usize) -> (r: &ChatMessage)
        requires
            i < self@.len(),
        ensures
            r@ == self@[i as int],
    {
        &self.entries[i]
    }
}

/// One connection's pointer into the shared log: the next log index this
/// connection has not yet been sent. It starts at zero and only ever moves
/// forward.
pub struct Cursor {
    pub last_sent: usize,
}

impl Cursor {
    /// A cursor for a connection that has been sent nothing yet.
    pub fn new() -> (r: Cursor)
        ensures
            r.last_sent == 0,
    {
        Cursor { last_sent: 0 }
    }
}

impl MessageLog {
    /// Collects every entry this connection has not yet been sent, in log
    /// order, and advances the cursor past all of them: each entry is
    /// returned for a given cursor at most once.
    pub fn collect_unsent(&self, cursor: &mut Cursor) -> (out: Vec<ChatMessage>)
        requires
            old(cursor).last_sent <= self@.len(),
        ensures
            final(cursor).last_sent == self@.len(),
            out@.map_values(|m: ChatMessage| m@) == self@.subrange(
                old(cursor).last_sent as int,
                self@.len() as int,
            ),
    {
        let ghost start = cursor.last_sent as int;
        let len = self.len();
        let mut out: Vec<ChatMessage> = Vec::new();
        while cursor.last_sent < len
            invariant
                start <= cursor.last_sent <= len,
                len == self@.len(),
                out@.len() == cursor.last_sent - start,
                forall|j: int| 0 <= j < out@.len() ==> #[trigger] out@[j]@ == self@[start + j],
            decreases len - cursor.last_sent,
        {
            let m = self.get(cursor.last_sent).clone();
            out.push(m);
            cursor.last_sent = cursor.last_sent + 1;
        }
        proof {
            assert(out@.map_values(|m: ChatMessage| m@) =~= self@.subrange(
                start,
                self@.len() as int,
            ));
        }
        out
    }
}

/// The log that results from appending a batch of messages one at a time, in
/// the batch's order.
pub open spec fn append_all(base: Seq<ChatMessageView>, batch: Seq<ChatMessageView>) -> Seq<
    ChatMessageView,
>
    decreases batch.len(),
{
    if batch.len() == 0 {
        base
    } else {
        append_all(base.push(batch[0]), batch.drop_first())
    }
}

/// Append-only ordering: appending any batch of messages one at a time leaves
/// the log's length equal to the old length plus the number of appends, keeps
/// every earlier entry at its index, and places the appended messages at
/// consecutive indices in the order they were submitted. In particular, for
/// any interleaving of several producers' appends, each producer's messages
/// appear in the log in that producer's submission order.
pub proof fn lemma_append_only_order(base: Seq<ChatMessageView>, batch: Seq<ChatMessageView>)
    ensures
        append_all(base, batch) == base + batch,
        append_all(base, batch).len() == base.len() + batch.len(),
        forall|i: int| 0 <= i < base.len() ==> append_all(base, batch)[i] == base[i],
        forall|j: int|
            0 <= j < batch.len() ==> append_all(base, batch)[base.len() + j] == batch[j],
    decreases batch.len(),
{
    if batch.len() == 0 {
        assert(append_all(base, batch) =~= base + batch);
    } else {
        lemma_append_only_order(base.push(batch[0]), batch.drop_first());
        assert(base.push(batch[0]) + batch.drop_first() =~= base + batch);
    }
}

/// Fan-out is complete and exactly-once: when a connection's cursor stands at
/// `k` against a log `earlier`, and the log has since grown into an extension
/// `later`, the batch collected against `earlier` followed by the batch
/// collected against `later` is exactly the log's suffix from `k` — every
/// entry from index `k` on is delivered once each, in ascending index order,
/// however the growth and the collections interleave.
pub proof fn lemma_fanout_exactly_once(
    earlier: Seq<ChatMessageView>,
    later: Seq<ChatMessageView>,
    k: int,
)
    requires
        0 <= k <= earlier.len(),
        earlier.len() <= later.len(),
        later.subrange(0, earlier.len() as int) == earlier,
    ensures
        earlier.subrange(k, earlier.len() as int) + later.subrange(
            earlier.len() as int,
            later.len() as int,
        ) == later.subrange(k, later.len() as int),
{
    assert(earlier.subrange(k, earlier.len() as int) + later.subrange(
        earlier.len() as int,
        later.len() as int,
    ) =~= later.subrange(k, later.len() as int)) by {
        assert(forall|i: int|
            0 <= i < earlier.len() ==> earlier[i] == #[trigger] later.subrange(
                0,
                earlier.len() as int,
            )[i]);
    }
}

} // verus!
