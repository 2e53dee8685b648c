//! Conversation bodies: one record per line, appended to without losing what was there.

use std::sync::Arc;
use vstd::prelude::*;

use crate::error::{corrupt, invalid_data, invalid_input, malformed, Refusal, StorageResult};
use crate::message::{
    calls_are_paired, distinct_messages, messages_are_distinct, share, tool_exchanges_are_paired,
    ConversationMessage, Messages,
};

verus! {

/// The byte that ends a record.
pub const NEWLINE: u8 = 10;

/// A message with the JSON text that stands for it in a body.
#[derive(Debug, PartialEq, Eq)]
pub struct RecordedMessage {
    pub record: Vec<u8>,
    pub message: Arc<ConversationMessage>,
}

/// The bytes of records: each followed by a newline.
pub open spec fn framed(records: Seq<Seq<u8>>) -> Seq<u8>
    decreases records.len(),
{
    if records.len() == 0 {
        Seq::empty()
    } else {
        records[0].push(NEWLINE) + framed(records.drop_first())
    }
}

/// The place of the first newline at or after `from`, or the length of the bytes.
pub open spec fn newline_at(bytes: Seq<u8>, from: int) -> int
    decreases bytes.len() - from,
{
    if from >= bytes.len() {
        bytes.len() as int
    } else if bytes[from] == NEWLINE {
        from
    } else {
        newline_at(bytes, from + 1)
    }
}

proof fn newline_is_after(bytes: Seq<u8>, from: int)
    requires
        0 <= from <= bytes.len(),
    ensures
        from <= newline_at(bytes, from) <= bytes.len(),
        newline_at(bytes, from) < bytes.len() ==> bytes[newline_at(bytes, from)] == NEWLINE,
        forall|i: int| from <= i < newline_at(bytes, from) ==> bytes[i] != NEWLINE,
    decreases bytes.len() - from,
{
    if from < bytes.len() && bytes[from] != NEWLINE {
        newline_is_after(bytes, from + 1);
    }
}

/// The records that the bytes hold; `None` where the last one lacks its newline.
pub open spec fn records_of(bytes: Seq<u8>) -> Option<Seq<Seq<u8>>>
    decreases bytes.len(),
{
    if bytes.len() == 0 {
        Some(Seq::empty())
    } else {
        let end = newline_at(bytes, 0);
        if 0 <= end < bytes.len() {
            match records_of(bytes.skip(end + 1)) {
                Some(rest) => Some(seq![bytes.take(end)] + rest),
                None => None,
            }
        } else {
            None
        }
    }
}

/// A record that fits on one line.
pub open spec fn one_line(record: Seq<u8>) -> bool {
    !record.contains(NEWLINE)
}

/// Records that each fit on one line are read back from their frame as they are.
pub proof fn framed_records_are_read_back(records: Seq<Seq<u8>>)
    requires
        forall|i: int| 0 <= i < records.len() ==> one_line(#[trigger] records[i]),
    ensures
        records_of(framed(records)) == Some(records),
    decreases records.len(),
{
    if records.len() > 0 {
        let first = records[0];
        let rest = records.drop_first();
        let bytes = framed(records);
        assert forall|i: int| 0 <= i < rest.len() implies one_line(#[trigger] rest[i]) by {
            assert(rest[i] == records[i + 1]);
        }
        framed_records_are_read_back(rest);
        newline_is_after(bytes, 0);
        let end = newline_at(bytes, 0);
        assert(bytes[first.len() as int] == NEWLINE);
        assert(end == first.len()) by {
            if end < first.len() {
                assert(bytes[end] == first[end]);
                assert(first.contains(first[end]));
            }
        }
        assert(bytes.take(end) =~= first);
        assert(bytes.skip(end + 1) =~= framed(rest));
        assert(seq![first] + rest =~= records);
    } else {
        assert(records =~= Seq::empty());
    }
}

/// Bodies that both end with complete records hold, one after the other, the records of both.
pub proof fn records_of_joined_bodies(head: Seq<u8>, tail: Seq<u8>)
    requires
        records_of(head) is Some,
    ensures
        records_of(head + tail) == match records_of(tail) {
            Some(rest) => Some(records_of(head)->0 + rest),
            None => None,
        },
    decreases head.len(),
{
    if head.len() == 0 {
        assert(head + tail =~= tail);
        if records_of(tail) is Some {
            assert(records_of(head)->0 + records_of(tail)->0 =~= records_of(tail)->0);
        }
    } else {
        let bytes = head + tail;
        newline_is_after(head, 0);
        newline_is_after(bytes, 0);
        let end = newline_at(head, 0);
        assert(bytes[end] == NEWLINE);
        assert(newline_at(bytes, 0) == end) by {
            let place = newline_at(bytes, 0);
            if place < end {
                assert(bytes[place] == head[place]);
            }
        }
        records_of_joined_bodies(head.skip(end + 1), tail);
        assert(bytes.skip(end + 1) =~= head.skip(end + 1) + tail);
        assert(bytes.take(end) =~= head.take(end));
        if records_of(tail) is Some {
            assert(seq![head.take(end)] + (records_of(head.skip(end + 1))->0 + records_of(tail)->0)
                =~= (seq![head.take(end)] + records_of(head.skip(end + 1))->0)
                + records_of(tail)->0);
        }
    }
}

/// The message that the first matching entry gives for a record.
pub open spec fn message_of(
    known: Seq<Arc<RecordedMessage>>,
    record: Seq<u8>,
) -> Option<Arc<ConversationMessage>>
    decreases known.len(),
{
    if known.len() == 0 {
        None
    } else if known[0].record@ == record {
        Some(known[0].message)
    } else {
        message_of(known.drop_first(), record)
    }
}

/// The messages of records, where each of them is known.
pub open spec fn messages_of(
    known: Seq<Arc<RecordedMessage>>,
    records: Seq<Seq<u8>>,
) -> Option<Seq<Arc<ConversationMessage>>>
    decreases records.len(),
{
    if records.len() == 0 {
        Some(Seq::empty())
    } else {
        match (messages_of(known, records.drop_last()), message_of(known, records.last())) {
            (Some(earlier), Some(message)) => Some(earlier.push(message)),
            _ => None,
        }
    }
}

/// The conversation that a body holds, or why it holds none.
pub open spec fn conversation_of(
    known: Seq<Arc<RecordedMessage>>,
    bytes: Seq<u8>,
) -> Result<Seq<Arc<ConversationMessage>>, Refusal> {
    match records_of(bytes) {
        None => Err(corrupt("conversation record is incomplete"@)),
        Some(records) => match messages_of(known, records) {
            None => Err(corrupt("conversation record is invalid"@)),
            Some(messages) => if !distinct_messages(messages) {
                Err(corrupt("conversation message id is duplicated"@))
            } else if !calls_are_paired(messages) {
                Err(corrupt("conversation tool exchange is incomplete"@))
            } else {
                Ok(messages)
            },
        },
    }
}

/// Whether two byte strings are the same.
pub fn same_bytes(left: &Vec<u8>, right: &Vec<u8>) -> (result: bool)
    ensures
        result == (left@ == right@),
{
    if left.len() != right.len() {
        return false;
    }
    let mut i: usize = 0;
    while i < left.len()
        invariant
            i <= left@.len(),
            left@.len() == right@.len(),
            forall|j: int| 0 <= j < i ==> left@[j] == right@[j],
        decreases left@.len() - i,
    {
        if left[i] != right[i] {
            return false;
        }
        i += 1;
    }
    proof {
        assert(left@ =~= right@);
    }
    true
}

/// The bytes of `source` from `from` to before `to`.
fn part_of(source: &Vec<u8>, from: usize, to: usize) -> (part: Vec<u8>)
    requires
        from <= to <= source@.len(),
    ensures
        part@ == source@.subrange(from as int, to as int),
{
    let mut part: Vec<u8> = Vec::new();
    let mut i: usize = from;
    while i < to
        invariant
            from <= i <= to <= source@.len(),
            part@ =~= source@.subrange(from as int, i as int),
        decreases to - i,
    {
        part.push(source[i]);
        i += 1;
    }
    part
}

/// A copy of bytes.
pub fn copied_bytes(source: &Vec<u8>) -> (copy: Vec<u8>)
    ensures
        copy@ == source@,
{
    let copy = part_of(source, 0, source.len());
    proof {
        assert(source@.subrange(0, source@.len() as int) =~= source@);
    }
    copy
}

/// The byte strings of a list.
pub open spec fn byte_strings(list: Seq<Vec<u8>>) -> Seq<Seq<u8>> {
    list.map_values(|bytes: Vec<u8>| bytes@)
}

spec fn after(done: Seq<Seq<u8>>, rest: Option<Seq<Seq<u8>>>) -> Option<Seq<Seq<u8>>> {
    match rest {
        Some(rest) => Some(done + rest),
        None => None,
    }
}

/// Splits a body into its records; `None` where the last one lacks its newline.
pub fn split_records(bytes: &Vec<u8>) -> (records: Option<Vec<Vec<u8>>>)
    ensures
        match records {
            Some(records) => records_of(bytes@) == Some(byte_strings(records@)),
            None => records_of(bytes@) is None,
        },
{
    let mut records: Vec<Vec<u8>> = Vec::new();
    let mut start: usize = 0;
    proof {
        assert(bytes@.skip(0) =~= bytes@);
        if records_of(bytes@) is Some {
            assert(byte_strings(records@) + records_of(bytes@)->0 =~= records_of(bytes@)->0);
        }
    }
    while start < bytes.len()
        invariant
            start <= bytes@.len(),
            records_of(bytes@) == after(
                byte_strings(records@),
                records_of(bytes@.skip(start as int)),
            ),
        decreases bytes@.len() - start,
    {
        let ghost rest = bytes@.skip(start as int);
        let mut end: usize = start;
        while end < bytes.len() && bytes[end] != NEWLINE
            invariant
                start <= end <= bytes@.len(),
                rest == bytes@.skip(start as int),
                newline_at(rest, 0) == newline_at(rest, end - start),
            decreases bytes@.len() - end,
        {
            end += 1;
        }
        if end == bytes.len() {
            return None;
        }
        let ghost before = records@;
        records.push(part_of(bytes, start, end));
        proof {
            let place = end - start;
            assert(newline_at(rest, 0) == place);
            assert(rest.take(place) =~= bytes@.subrange(start as int, end as int));
            assert(rest.skip(place + 1) =~= bytes@.skip(end + 1));
            assert(byte_strings(records@) =~= byte_strings(before).push(rest.take(place)));
            match records_of(rest.skip(place + 1)) {
                Some(further) => {
                    assert(byte_strings(before) + (seq![rest.take(place)] + further)
                        =~= byte_strings(records@) + further);
                },
                None => {},
            }
        }
        start = end + 1;
    }
    proof {
        assert(bytes@.skip(start as int) =~= Seq::empty());
        assert(byte_strings(records@) + Seq::<Seq<u8>>::empty() =~= byte_strings(records@));
    }
    Some(records)
}

/// The message that is known for `record`.
pub fn known_message(
    known: &Vec<Arc<RecordedMessage>>,
    record: &Vec<u8>,
) -> (message: Option<Arc<ConversationMessage>>)
    ensures
        message == message_of(known@, record@),
{
    let mut i: usize = 0;
    proof {
        assert(known@.skip(0) =~= known@);
    }
    while i < known.len()
        invariant
            i <= known@.len(),
            message_of(known@, record@) == message_of(known@.skip(i as int), record@),
        decreases known@.len() - i,
    {
        proof {
            assert(known@.skip(i as int).drop_first() =~= known@.skip(i + 1));
        }
        if same_bytes(&known[i].record, record) {
            return Some(share(&known[i].message));
        }
        i += 1;
    }
    None
}

proof fn unknown_record_spoils_all(
    known: Seq<Arc<RecordedMessage>>,
    records: Seq<Seq<u8>>,
    n: int,
)
    requires
        0 <= n <= records.len(),
        messages_of(known, records.take(n)) is None,
    ensures
        messages_of(known, records) is None,
    decreases records.len() - n,
{
    if n < records.len() {
        assert(records.take(n + 1).drop_last() =~= records.take(n));
        unknown_record_spoils_all(known, records, n + 1);
    } else {
        assert(records.take(n) =~= records);
    }
}

/// The conversation in a body. Every record has to be complete and known, no message may occur
/// twice, and every tool call has to have its result.
pub fn decode(known: &Vec<Arc<RecordedMessage>>, bytes: &Vec<u8>) -> (result: StorageResult<Messages>)
    ensures
        match conversation_of(known@, bytes@) {
            Ok(messages) => result is Ok && result->Ok_0@ == messages,
            Err(error) => result is Err && result->Err_0@ == error,
        },
{
    let records = match split_records(bytes) {
        Some(records) => records,
        None => {
            return Err(invalid_data("conversation record is incomplete"));
        },
    };
    let ghost all = byte_strings(records@);
    let mut messages: Messages = Vec::new();
    let mut i: usize = 0;
    proof {
        assert(all.take(0) =~= Seq::empty());
    }
    while i < records.len()
        invariant
            i <= records@.len(),
            all == byte_strings(records@),
            records_of(bytes@) == Some(all),
            messages_of(known@, all.take(i as int)) == Some(messages@),
        decreases records@.len() - i,
    {
        proof {
            assert(all.take(i + 1).drop_last() =~= all.take(i as int));
            assert(all.take(i + 1).last() == records@[i as int]@);
            if message_of(known@, records@[i as int]@) is None {
                unknown_record_spoils_all(known@, all, i + 1);
            }
        }
        match known_message(known, &records[i]) {
            Some(message) => messages.push(message),
            None => {
                return Err(invalid_data("conversation record is invalid"));
            },
        }
        i += 1;
    }
    proof {
        assert(all.take(all.len() as int) =~= all);
    }
    if !messages_are_distinct(&messages) {
        return Err(invalid_data("conversation message id is duplicated"));
    }
    if !tool_exchanges_are_paired(&messages) {
        return Err(invalid_data("conversation tool exchange is incomplete"));
    }
    Ok(messages)
}

/// The records of a batch.
pub open spec fn batch_records(batch: Seq<Arc<RecordedMessage>>) -> Seq<Seq<u8>> {
    batch.map_values(|entry: Arc<RecordedMessage>| entry.record@)
}

/// The messages of a batch.
pub open spec fn batch_messages(batch: Seq<Arc<RecordedMessage>>) -> Seq<Arc<ConversationMessage>> {
    batch.map_values(|entry: Arc<RecordedMessage>| entry.message)
}

/// Whether each record of a batch fits on one line.
pub open spec fn encodable(batch: Seq<Arc<RecordedMessage>>) -> bool {
    forall|i: int| 0 <= i < batch.len() ==> one_line((#[trigger] batch[i]).record@)
}

proof fn framed_push(records: Seq<Seq<u8>>, record: Seq<u8>)
    ensures
        framed(records.push(record)) == framed(records) + record.push(NEWLINE),
    decreases records.len(),
{
    if records.len() == 0 {
        assert(records.push(record).drop_first() =~= records);
        assert(framed(records.push(record)) =~= framed(records) + record.push(NEWLINE));
    } else {
        assert(records.push(record).drop_first() =~= records.drop_first().push(record));
        framed_push(records.drop_first(), record);
        assert(framed(records.push(record)) =~= framed(records) + record.push(NEWLINE));
    }
}

/// The bytes of a batch. A record that would break out of its line is refused.
pub fn encode_messages(batch: &Vec<Arc<RecordedMessage>>) -> (result: StorageResult<Vec<u8>>)
    ensures
        encodable(batch@) ==> result is Ok && result->Ok_0@ == framed(batch_records(batch@)),
        !encodable(batch@) ==> result is Err && result->Err_0@ == malformed(
            "conversation message could not be encoded"@,
        ),
{
    let mut bytes: Vec<u8> = Vec::new();
    let mut i: usize = 0;
    proof {
        assert(batch_records(batch@).take(0) =~= Seq::empty());
        assert(bytes@ =~= framed(batch_records(batch@).take(0)));
    }
    while i < batch.len()
        invariant
            i <= batch@.len(),
            forall|j: int| 0 <= j < i ==> one_line((#[trigger] batch@[j]).record@),
            bytes@ == framed(batch_records(batch@).take(i as int)),
        decreases batch@.len() - i,
    {
        let ghost before = bytes@;
        let mut j: usize = 0;
        while j < batch[i].record.len()
            invariant
                i < batch@.len(),
                j <= batch@[i as int].record@.len(),
                bytes@ =~= before + batch@[i as int].record@.take(j as int),
                !batch@[i as int].record@.take(j as int).contains(NEWLINE),
            decreases batch@[i as int].record@.len() - j,
        {
            let byte: u8 = batch[i].record[j];
            if byte == NEWLINE {
                proof {
                    assert(batch@[i as int].record@[j as int] == NEWLINE);
                    assert(!one_line(batch@[i as int].record@));
                }
                return Err(invalid_input("conversation message could not be encoded"));
            }
            bytes.push(byte);
            proof {
                let record = batch@[i as int].record@;
                assert(record.take(j + 1) =~= record.take(j as int).push(byte));
                if record.take(j + 1).contains(NEWLINE) {
                    let k = record.take(j + 1).index_of(NEWLINE);
                    assert(record.take(j as int)[k] == NEWLINE);
                }
            }
            j += 1;
        }
        bytes.push(NEWLINE);
        proof {
            let record = batch@[i as int].record@;
            assert(record.take(record.len() as int) =~= record);
            let records = batch_records(batch@);
            assert(records.take(i + 1) =~= records.take(i as int).push(record));
            framed_push(records.take(i as int), record);
            assert(bytes@ =~= before + record.push(NEWLINE));
        }
        i += 1;
    }
    proof {
        assert(batch_records(batch@).take(batch@.len() as int) =~= batch_records(batch@));
    }
    Ok(bytes)
}

/// Why a batch cannot follow a conversation: a message would occur twice, or a tool call would
/// be left without its result.
pub open spec fn candidate_refusal(
    current: Seq<Arc<ConversationMessage>>,
    batch: Seq<Arc<ConversationMessage>>,
) -> Option<Refusal> {
    if !distinct_messages(current + batch) {
        Some(malformed("conversation message id is duplicated"@))
    } else if !calls_are_paired(current + batch) {
        Some(malformed("conversation tool exchange is incomplete"@))
    } else {
        None
    }
}

/// Whether a batch can follow a conversation.
pub fn validate_candidate(current: &Messages, batch: &Vec<Arc<RecordedMessage>>) -> (result:
    StorageResult<()>)
    ensures
        match candidate_refusal(current@, batch_messages(batch@)) {
            Some(error) => result is Err && result->Err_0@ == error,
            None => result is Ok,
        },
{
    let mut all: Messages = Vec::new();
    let mut i: usize = 0;
    while i < current.len()
        invariant
            i <= current@.len(),
            all@ =~= current@.take(i as int),
        decreases current@.len() - i,
    {
        all.push(share(&current[i]));
        i += 1;
    }
    let mut j: usize = 0;
    while j < batch.len()
        invariant
            j <= batch@.len(),
            all@ =~= current@ + batch_messages(batch@).take(j as int),
        decreases batch@.len() - j,
    {
        all.push(share(&batch[j].message));
        j += 1;
    }
    proof {
        assert(all@ =~= current@ + batch_messages(batch@));
    }
    if !messages_are_distinct(&all) {
        return Err(invalid_input("conversation message id is duplicated"));
    }
    if !tool_exchanges_are_paired(&all) {
        return Err(invalid_input("conversation tool exchange is incomplete"));
    }
    Ok(())
}

/// The body after a staged append: what was there before it, then its payload. `None` where the
/// body is shorter than it was at staging, or continues otherwise than the payload.
pub open spec fn reconciled(body: Seq<u8>, base: nat, payload: Seq<u8>) -> Option<Seq<u8>> {
    if base <= body.len() && body.skip(base as int).is_prefix_of(payload) {
        Some(body.take(base as int) + payload)
    } else {
        None
    }
}

/// Brings a body to its state after a staged append, whatever part of the payload was already
/// written. A body that does not fit the append is left as it is.
pub fn reconcile_append(body: &Vec<u8>, base: u64, payload: &Vec<u8>) -> (result: StorageResult<
    Vec<u8>,
>)
    ensures
        match reconciled(body@, base as nat, payload@) {
            Some(bytes) => result is Ok && result->Ok_0@ == bytes,
            None => result is Err && result->Err_0@ == corrupt(
                "conversation tail conflicts with staged append"@,
            ),
        },
{
    if base > body.len() as u64 {
        return Err(invalid_data("conversation tail conflicts with staged append"));
    }
    let start: usize = base as usize;
    let ghost tail = body@.skip(start as int);
    if body.len() - start > payload.len() {
        return Err(invalid_data("conversation tail conflicts with staged append"));
    }
    let mut i: usize = start;
    while i < body.len()
        invariant
            start <= i <= body@.len(),
            start == base,
            tail == body@.skip(start as int),
            body@.len() - start <= payload@.len(),
            forall|j: int| 0 <= j < i - start ==> tail[j] == payload@[j],
        decreases body@.len() - i,
    {
        if body[i] != payload[i - start] {
            proof {
                assert(tail[i - start] == body@[i as int]);
                assert(!tail.is_prefix_of(payload@));
            }
            return Err(invalid_data("conversation tail conflicts with staged append"));
        }
        i += 1;
    }
    let mut bytes = part_of(body, 0, start);
    let mut k: usize = 0;
    while k < payload.len()
        invariant
            k <= payload@.len(),
            start <= body@.len(),
            bytes@ =~= body@.take(start as int) + payload@.take(k as int),
        decreases payload@.len() - k,
    {
        bytes.push(payload[k]);
        k += 1;
    }
    proof {
        assert(tail =~= payload@.take(tail.len() as int));
        assert(payload@.take(payload@.len() as int) =~= payload@);
    }
    Ok(bytes)
}

/// A crash may leave any part of a payload behind the base: the append comes out the same.
pub proof fn interrupted_append_is_completed(base: Seq<u8>, payload: Seq<u8>, written: int)
    requires
        0 <= written <= payload.len(),
    ensures
        reconciled(base + payload.take(written), base.len(), payload) == Some(base + payload),
{
    let body = base + payload.take(written);
    assert(body.skip(base.len() as int) =~= payload.take(written));
    assert(body.take(base.len() as int) =~= base);
}

/// Completing an append once more changes nothing.
pub proof fn completed_append_is_stable(body: Seq<u8>, base: nat, payload: Seq<u8>)
    requires
        reconciled(body, base, payload) is Some,
    ensures
        reconciled(reconciled(body, base, payload)->0, base, payload) == reconciled(
            body,
            base,
            payload,
        ),
{
    let head = body.take(base as int);
    interrupted_append_is_completed(head, payload, payload.len() as int);
    assert(payload.take(payload.len() as int) =~= payload);
}

/// A body that goes on otherwise than the payload is never accepted.
pub proof fn conflicting_tail_is_refused(body: Seq<u8>, base: nat, payload: Seq<u8>, place: int)
    requires
        base <= body.len(),
        base <= place < body.len(),
        place - base >= payload.len() || body[place] != payload[place - base],
    ensures
        reconciled(body, base, payload) is None,
{
    assert(body.skip(base as int)[place - base] == body[place]);
}

/// Encoding a batch of messages that the engine knows by these records, and reading the bytes
/// back, gives the messages.
pub proof fn encoded_messages_are_read_back(
    known: Seq<Arc<RecordedMessage>>,
    batch: Seq<Arc<RecordedMessage>>,
)
    requires
        encodable(batch),
        forall|i: int|
            0 <= i < batch.len() ==> message_of(known, (#[trigger] batch[i]).record@) == Some(
                batch[i].message,
            ),
        distinct_messages(batch_messages(batch)),
        calls_are_paired(batch_messages(batch)),
    ensures
        conversation_of(known, framed(batch_records(batch))) == Ok::<_, Refusal>(
            batch_messages(batch),
        ),
{
    let records = batch_records(batch);
    assert forall|i: int| 0 <= i < records.len() implies one_line(#[trigger] records[i]) by {
        assert(records[i] == batch[i].record@);
    }
    framed_records_are_read_back(records);
    known_batch_is_found(known, batch);
}

proof fn known_batch_is_found(known: Seq<Arc<RecordedMessage>>, batch: Seq<Arc<RecordedMessage>>)
    requires
        forall|i: int|
            0 <= i < batch.len() ==> message_of(known, (#[trigger] batch[i]).record@) == Some(
                batch[i].message,
            ),
    ensures
        messages_of(known, batch_records(batch)) == Some(batch_messages(batch)),
    decreases batch.len(),
{
    if batch.len() == 0 {
        assert(batch_messages(batch) =~= Seq::empty());
    } else {
        let shorter = batch.drop_last();
        assert forall|i: int| 0 <= i < shorter.len() implies message_of(
            known,
            (#[trigger] shorter[i]).record@,
        ) == Some(shorter[i].message) by {
            assert(shorter[i] == batch[i]);
        }
        known_batch_is_found(known, shorter);
        assert(batch_records(batch).drop_last() =~= batch_records(shorter));
        assert(batch_records(batch).last() == batch.last().record@);
        assert(batch[batch.len() - 1] == batch.last());
        assert(batch_messages(batch) =~= batch_messages(shorter).push(batch.last().message));
    }
}

} // verus!
