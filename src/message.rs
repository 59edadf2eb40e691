//! Messages of a room and the buffer that holds them without duplicates.

use vstd::prelude::*;
use crate::error::SeError;
use crate::event::ChatEventType;

verus! {

/// One message of a room. `timestamp` is in seconds since the Unix epoch.
#[derive(Debug, Clone)]
pub struct Message {
    pub id: u64,
    pub content: String,
    pub user_id: u64,
    pub room_id: u64,
    pub username: String,
    pub timestamp: u64,
}

/// Two messages are the same message when their ids match, or when both
/// their content and their author's name match. The second rule folds a
/// message shown before the service confirmed it into the confirmed one.
pub open spec fn same_message(a: Message, b: Message) -> bool {
    a.id == b.id || (a.content@ == b.content@ && a.username@ == b.username@)
}

impl PartialEq for Message {
    fn eq(&self, other: &Message) -> (r: bool) {
        self.id == other.id || (self.content == other.content && self.username == other.username)
    }
}

impl vstd::std_specs::cmp::PartialEqSpecImpl for Message {
    open spec fn obeys_eq_spec() -> bool {
        true
    }

    open spec fn eq_spec(&self, other: &Message) -> bool {
        same_message(*self, *other)
    }
}

/// The message that a posted event carries; other events carry none.
pub open spec fn message_of(e: ChatEventType) -> Option<Message> {
    match e {
        ChatEventType::Message { event, content } => Some(
            Message {
                id: event.message_id,
                content,
                user_id: event.user_id,
                room_id: event.room_id,
                username: event.username,
                timestamp: event.timestamp,
            },
        ),
        _ => None,
    }
}

impl Message {
    /// The message of a posted event; an edit or a deletion is refused with
    /// the event itself.
    pub fn try_from(event: ChatEventType) -> (r: Result<Message, SeError>)
        ensures
            match message_of(event) {
                Some(m) => r == Ok::<Message, SeError>(m),
                None => r == Err::<Message, SeError>(SeError::ExpectedPostedEvent(event)),
            },
    {
        match event {
            ChatEventType::Message { event, content } => Ok(
                Message {
                    id: event.message_id,
                    content,
                    user_id: event.user_id,
                    room_id: event.room_id,
                    username: event.username,
                    timestamp: event.timestamp,
                },
            ),
            _ => Err(SeError::ExpectedPostedEvent(event)),
        }
    }

    /// A copy with the same fields.
    pub fn duplicate(&self) -> (r: Message)
        ensures
            r == *self,
    {
        Message {
            id: self.id,
            content: self.content.clone(),
            user_id: self.user_id,
            room_id: self.room_id,
            username: self.username.clone(),
            timestamp: self.timestamp,
        }
    }
}

/// Some message of `s` is the same message as `m`.
pub open spec fn has_same(s: Seq<Message>, m: Message) -> bool {
    exists|i: int| 0 <= i < s.len() && same_message(#[trigger] s[i], m)
}

/// No two messages of `s` are the same message.
pub open spec fn no_duplicates(s: Seq<Message>) -> bool {
    forall|i: int, j: int| 0 <= i < j < s.len() ==> !same_message(#[trigger] s[i], #[trigger] s[j])
}

/// The buffer after a message arrives from the stream: it is added at the
/// end unless the buffer already holds the same message.
pub open spec fn with_arrival(buf: Seq<Message>, m: Message) -> Seq<Message> {
    if has_same(buf, m) {
        buf
    } else {
        buf.push(m)
    }
}

/// The buffer after a history fetch: the messages that the batch does not
/// hold the same of stay in their order, then the whole batch follows in
/// its order.
pub open spec fn merged(buf: Seq<Message>, batch: Seq<Message>) -> Seq<Message> {
    buf.filter(|m: Message| !has_same(batch, m)) + batch
}

/// Whether some message of `s` is the same message as `m`.
pub fn contains_same(s: &Vec<Message>, m: &Message) -> (r: bool)
    ensures
        r == has_same(s@, *m),
{
    let mut i: usize = 0;
    while i < s.len()
        invariant
            i <= s.len(),
            forall|j: int| 0 <= j < i ==> !same_message(#[trigger] s@[j], *m),
        decreases s.len() - i,
    {
        if s[i] == *m {
            return true;
        }
        i = i + 1;
    }
    false
}

/// Adds a message that arrived from the stream, unless the buffer already
/// holds the same message.
pub fn add_arrival(buf: &mut Vec<Message>, m: Message)
    ensures
        final(buf)@ == with_arrival(old(buf)@, m),
{
    if !contains_same(buf, &m) {
        buf.push(m);
    }
}

/// Merges a fetched batch into the buffer: the fetched copies win over the
/// buffered ones.
pub fn merge_batch(buf: &mut Vec<Message>, batch: Vec<Message>)
    ensures
        final(buf)@ == merged(old(buf)@, batch@),
{
    let ghost pred = |m: Message| !has_same(batch@, m);
    let mut kept: Vec<Message> = Vec::new();
    let mut i: usize = 0;
    while i < buf.len()
        invariant
            i <= buf.len(),
            pred == (|m: Message| !has_same(batch@, m)),
            kept@ == buf@.take(i as int).filter(pred),
        decreases buf.len() - i,
    {
        proof {
            reveal(Seq::filter);
            assert(buf@.take(i + 1).drop_last() =~= buf@.take(i as int));
            assert(buf@.take(i + 1).last() == buf@[i as int]);
        }
        let keep = !contains_same(&batch, &buf[i]);
        assert(pred(buf@[i as int]) == keep);
        if keep {
            kept.push(buf[i].duplicate());
        }
        assert(kept@ == buf@.take(i + 1).filter(pred));
        i = i + 1;
    }
    assert(buf@.take(buf.len() as int) =~= buf@);
    let mut j: usize = 0;
    let ghost base = kept@;
    while j < batch.len()
        invariant
            j <= batch.len(),
            kept@ == base + batch@.take(j as int),
        decreases batch.len() - j,
    {
        kept.push(batch[j].duplicate());
        assert(base + batch@.take(j + 1) =~= (base + batch@.take(j as int)).push(batch@[j as int]));
        j = j + 1;
    }
    assert(batch@.take(batch.len() as int) =~= batch@);
    *buf = kept;
}

proof fn lemma_filter_no_duplicates(s: Seq<Message>, p: spec_fn(Message) -> bool)
    requires
        no_duplicates(s),
    ensures
        no_duplicates(s.filter(p)),
    decreases s.len(),
{
    reveal(Seq::filter);
    if s.len() > 0 {
        let rest = s.drop_last();
        assert(no_duplicates(rest));
        lemma_filter_no_duplicates(rest, p);
        if p(s.last()) {
            let f = rest.filter(p);
            assert forall|i: int| 0 <= i < f.len() implies !same_message(f[i], s.last()) by {
                assert(f.contains(f[i]));
                rest.lemma_filter_contains_rev(p, f[i]);
                let k = choose|k: int| 0 <= k < rest.len() && rest[k] == f[i];
                assert(s[k] == f[i]);
            }
            assert(no_duplicates(f.push(s.last())));
        }
    }
}

/// A merge keeps the buffer free of duplicates, when the buffer and the
/// batch each are.
pub proof fn lemma_merge_no_duplicates(buf: Seq<Message>, batch: Seq<Message>)
    requires
        no_duplicates(buf),
        no_duplicates(batch),
    ensures
        no_duplicates(merged(buf, batch)),
{
    let p = |m: Message| !has_same(batch, m);
    let kept = buf.filter(p);
    lemma_filter_no_duplicates(buf, p);
    let r = kept + batch;
    assert forall|i: int, j: int| 0 <= i < j < r.len() implies !same_message(#[trigger] r[i], #[trigger] r[j]) by {
        if i < kept.len() && j >= kept.len() {
            buf.lemma_filter_pred(p, i);
            assert(batch[j - kept.len()] == r[j]);
        }
    }
}

/// An arrival keeps the buffer free of duplicates.
pub proof fn lemma_arrival_no_duplicates(buf: Seq<Message>, m: Message)
    requires
        no_duplicates(buf),
    ensures
        no_duplicates(with_arrival(buf, m)),
{
    if !has_same(buf, m) {
        let r = buf.push(m);
        assert forall|i: int, j: int| 0 <= i < j < r.len() implies !same_message(#[trigger] r[i], #[trigger] r[j]) by {
            if j == buf.len() {
                assert(r[i] == buf[i]);
            }
        }
    }
}

/// The buffer after a run of history fetches, from first to last.
pub open spec fn merged_all(buf: Seq<Message>, batches: Seq<Seq<Message>>) -> Seq<Message>
    decreases batches.len(),
{
    if batches.len() == 0 {
        buf
    } else {
        merged(merged_all(buf, batches.drop_last()), batches.last())
    }
}

/// After any run of history fetches, starting from a buffer without
/// duplicates, the buffer holds no two entries that are the same message,
/// provided that no fetched batch holds two such entries itself.
pub proof fn lemma_merges_no_duplicates(buf: Seq<Message>, batches: Seq<Seq<Message>>)
    requires
        no_duplicates(buf),
        forall|k: int| 0 <= k < batches.len() ==> no_duplicates(#[trigger] batches[k]),
    ensures
        no_duplicates(merged_all(buf, batches)),
    decreases batches.len(),
{
    if batches.len() > 0 {
        let rest = batches.drop_last();
        assert forall|k: int| 0 <= k < rest.len() implies no_duplicates(#[trigger] rest[k]) by {
            assert(rest[k] == batches[k]);
        }
        lemma_merges_no_duplicates(buf, rest);
        lemma_merge_no_duplicates(merged_all(buf, rest), batches.last());
    }
}

} // verus!
