//! How texts are compared, and numbers, names and states written and read.

use vstd::prelude::*;

use crate::engine::{bodies, session_body_path, StorageEngine};
use crate::message::ImageMediaType;
use crate::recall::is_head_of;
use crate::recovery::{switched, ReplacementPlan};
use crate::relations::{leader_is_found, leads, none_of, session_stands_where_found, stands_at};
use crate::resource_laws::{
    head_at, indexes, is_to_be_built, replaced_conversations_are_indexed_anew,
};
use crate::rewriting_laws::body_file;
use crate::rows::{ConversationOwner, PendingState, RecallHeadRow, SessionRole, SessionRow};
use crate::stored_columns::{
    append_columns_refusal, append_in, pending_state_in, pending_state_text, role_text,
    AppendColumns,
};
use crate::table::first;
use crate::text::{
    decimal, decimal_digits_value, digits_value, extension_of, last_place, text_before,
    unsigned_value, white_space,
};
use crate::tool_images::image_type_of;
use crate::worker::{
    admission, after_sending, after_taking, opening_step, step_of_worker, QueuedCommand, StoreQueue,
};

verus! {

/// Two texts are alike up to a place.
pub open spec fn alike_up_to(left: Seq<char>, right: Seq<char>, n: int) -> bool {
    &&& 0 <= n <= left.len()
    &&& n <= right.len()
    &&& left.take(n) == right.take(n)
}

/// A text comes before another where they are alike up to a place at which it ends and the other does
/// not, or has the lesser character.
pub proof fn texts_are_ordered_by_their_first_difference(left: Seq<char>, right: Seq<char>)
    ensures
        text_before(left, right) <==> exists|n: int|
            {
                &&& #[trigger] alike_up_to(left, right, n)
                &&& n < right.len()
                &&& n == left.len() || (left[n] as int) < (right[n] as int)
            },
    decreases left.len(),
{
    if right.len() > 0 && left.len() > 0 && left[0] == right[0] {
        let l = left.drop_first();
        let r = right.drop_first();
        texts_are_ordered_by_their_first_difference(l, r);
        if text_before(left, right) {
            let n = choose|n: int|
                {
                    &&& #[trigger] alike_up_to(l, r, n)
                    &&& n < r.len()
                    &&& n == l.len() || (l[n] as int) < (r[n] as int)
                };
            assert(left.take(n + 1) =~= right.take(n + 1)) by {
                assert forall|i: int| 0 <= i < n + 1 implies left[i] == right[i] by {
                    if i > 0 {
                        assert(l.take(n)[i - 1] == r.take(n)[i - 1]);
                    }
                }
            }
            assert(alike_up_to(left, right, n + 1));
        }
        if exists|n: int|
            {
                &&& #[trigger] alike_up_to(left, right, n)
                &&& n < right.len()
                &&& n == left.len() || (left[n] as int) < (right[n] as int)
            } {
            let n = choose|n: int|
                {
                    &&& #[trigger] alike_up_to(left, right, n)
                    &&& n < right.len()
                    &&& n == left.len() || (left[n] as int) < (right[n] as int)
                };
            assert(n > 0);
            assert(l.take(n - 1) =~= r.take(n - 1)) by {
                assert forall|i: int| 0 <= i < n - 1 implies l[i] == r[i] by {
                    assert(left.take(n)[i + 1] == right.take(n)[i + 1]);
                }
            }
            assert(alike_up_to(l, r, n - 1));
        }
    } else {
        if text_before(left, right) {
            assert(left.take(0) =~= right.take(0));
            assert(alike_up_to(left, right, 0));
        }
        if exists|n: int|
            {
                &&& #[trigger] alike_up_to(left, right, n)
                &&& n < right.len()
                &&& n == left.len() || (left[n] as int) < (right[n] as int)
            } {
            let n = choose|n: int|
                {
                    &&& #[trigger] alike_up_to(left, right, n)
                    &&& n < right.len()
                    &&& n == left.len() || (left[n] as int) < (right[n] as int)
                };
            if n > 0 {
                assert(left.take(n)[0] == right.take(n)[0]);
            }
        }
    }
}

/// A number is read back as it is written, with or without a plus sign, unless it is too large.
pub proof fn numbers_are_read_as_written(n: nat)
    ensures
        n <= u64::MAX ==> unsigned_value(decimal(n)) == Some(n as u64),
        n <= u64::MAX ==> unsigned_value(seq!['+'] + decimal(n)) == Some(n as u64),
        n > u64::MAX ==> unsigned_value(decimal(n)) is None,
        n < 10 ==> decimal(n).len() == 1 && decimal(n)[0] as int == '0' as int + n,
        n >= 10 ==> decimal(n).drop_last() == decimal(n / 10) && decimal(n).last() as int
            == '0' as int + n % 10,
{
    decimal_digits_value(n);
    let signed = seq!['+'] + decimal(n);
    assert(signed[0] == '+');
    assert(signed.skip(1) =~= decimal(n));
    if n >= 10 {
        assert(decimal(n).drop_last() =~= decimal(n / 10));
    }
}

/// A text with a character that is no digit is no number, but for a plus sign before the digits; nor
/// is one without digits.
pub proof fn only_digits_make_a_number(text: Seq<char>, i: int)
    requires
        0 <= i < text.len(),
        !('0' <= text[i] <= '9'),
        i > 0 || text[i] != '+',
    ensures
        unsigned_value(text) is None,
        unsigned_value(Seq::empty()) is None,
        unsigned_value(seq!['+']) is None,
{
    let plus = seq!['+'];
    assert(plus[0] == '+');
    assert(plus.skip(1) =~= Seq::empty());
    if text[0] == '+' {
        assert(text.skip(1)[i - 1] == text[i]);
        no_number_with_other_characters(text.skip(1), i - 1);
    } else {
        no_number_with_other_characters(text, i);
    }
}

proof fn no_number_with_other_characters(text: Seq<char>, i: int)
    requires
        0 <= i < text.len(),
        !('0' <= text[i] <= '9'),
    ensures
        digits_value(text) is None,
    decreases text.len(),
{
    if i < text.len() - 1 {
        assert(text.drop_last()[i] == text[i]);
        no_number_with_other_characters(text.drop_last(), i);
    } else {
        assert(text.last() == text[i]);
    }
}

/// A text is blank where each character is one of the spaces, among them the tab, the ends of lines
/// and the wide and narrow spaces; letters, digits and signs are none.
pub proof fn spaces_are_no_letters(c: char)
    ensures
        c == ' ' || c == '\t' || c == '\n' || c == '\r' ==> white_space(c),
        '!' <= c <= '~' ==> !white_space(c),
        white_space(c) ==> (c as int) <= 32 || c as int == 133 || c as int == 160 || c as int == 5760
            || 8192 <= c as int <= 8202 || c as int == 8232 || c as int == 8233 || c as int == 8239
            || c as int == 8287 || c as int == 12288,
        (9 <= c as int <= 13 || c as int == 32 || c as int == 133 || c as int == 160 || c as int
            == 5760 || 8192 <= c as int <= 8202 || c as int == 8232 || c as int == 8233 || c as int
            == 8239 || c as int == 8287 || c as int == 12288) ==> white_space(c),
        (c as int) < 9 || 13 < c as int && (c as int) < 32 ==> !white_space(c),
{
}

/// The extension of a name is what stands behind its last dot, where something stands before it.
pub proof fn extensions_stand_behind_the_last_dot(name: Seq<char>, place: int)
    requires
        0 <= place < name.len(),
        name[place] == '.',
        forall|i: int| place < i < name.len() ==> #[trigger] name[i] != '.',
    ensures
        place > 0 ==> extension_of(name) == Some(name.subrange(place + 1, name.len() as int)),
        place == 0 ==> extension_of(name) is None,
{
    last_is_found(name, '.', place, name.len() as int);
    assert(name.skip(place + 1) =~= name.subrange(place + 1, name.len() as int));
}

proof fn last_is_found(text: Seq<char>, c: char, place: int, end: int)
    requires
        0 <= place < end <= text.len(),
        text[place] == c,
        forall|i: int| place < i < end ==> #[trigger] text[i] != c,
    ensures
        last_place(text, c, end) == Some(place),
    decreases end,
{
    if end - 1 > place {
        assert(text[end - 1] != c);
        last_is_found(text, c, place, end - 1);
    }
}

/// The type of an image is told by the extension of its name.
pub proof fn image_types_have_their_extensions(name: Seq<char>)
    ensures
        extension_of(name) == Some("jpg"@) <==> image_type_of(name) == Some(ImageMediaType::Jpeg),
        extension_of(name) == Some("png"@) <==> image_type_of(name) == Some(ImageMediaType::Png),
        extension_of(name) == Some("webp"@) <==> image_type_of(name) == Some(ImageMediaType::WebP),
        extension_of(name) == Some("gif"@) <==> image_type_of(name) == Some(ImageMediaType::Gif),
        extension_of(name) is None ==> image_type_of(name) is None,
{
    reveal_strlit("jpg");
    reveal_strlit("png");
    reveal_strlit("webp");
    reveal_strlit("gif");
    assert("jpg"@.len() == 3 && "png"@.len() == 3 && "webp"@.len() == 4 && "gif"@.len() == 3);
    assert("jpg"@[0] == 'j' && "png"@[0] == 'p' && "gif"@[0] == 'g');
}

/// States of exchanges and roles of sessions are written in one word each.
pub proof fn states_and_roles_are_one_word(state: PendingState, role: SessionRole, text: Seq<char>)
    ensures
        state is Begun <==> pending_state_text(state) == "begun"@,
        state is Ready <==> pending_state_text(state) == "ready"@,
        role is Standard <==> role_text(role) == "standard"@,
        role is Controller <==> role_text(role) == "controller"@,
        pending_state_in(text) == Some(PendingState::Begun) <==> text == "begun"@,
        pending_state_in(text) == Some(PendingState::Ready) <==> text == "ready"@,
{
    reveal_strlit("begun");
    reveal_strlit("ready");
    reveal_strlit("standard");
    reveal_strlit("controller");
    assert("begun"@[0] == 'b' && "ready"@[0] == 'r');
    assert("standard"@.len() == 8 && "controller"@.len() == 10);
}

/// An announced append is read from its columns exactly where they count: a generation and a number of
/// messages from one on, a length from none on. It says what they say.
pub proof fn columns_say_what_was_announced(columns: AppendColumns)
    ensures
        append_columns_refusal(columns) is None <==> columns.body_generation >= 1
            && columns.base_byte_length >= 0 && columns.message_count_delta >= 1,
        append_columns_refusal(columns) is None ==> {
            let row = append_in(columns);
            &&& row.operation_id == columns.operation_id
            &&& row.target == columns.target
            &&& row.body_generation == columns.body_generation
            &&& row.base_byte_length == columns.base_byte_length
            &&& row.payload == columns.payload
            &&& row.message_count_delta == columns.message_count_delta
            &&& row.message_step == columns.message_step
            &&& row.created_at_ms == columns.created_at_ms
            &&& row.purpose == columns.purpose
        },
{
}

/// When a written conversation takes the place of the one that counted, the session has its generation
/// and its count, and nothing else of the session or of another changes. The old body goes, and the
/// index is to be built anew.
pub proof fn replaced_conversations_count(
    before: StorageEngine,
    after: StorageEngine,
    plan: ReplacementPlan,
    s: int,
)
    requires
        switched(before, after, plan),
        stands_at(before.sessions@, s, plan.session_id@),
    ensures
        after == (StorageEngine {
            files: after.files,
            sessions: after.sessions,
            request_records: after.request_records,
            session_usage: after.session_usage,
            recall_heads: after.recall_heads,
            ..before
        }),
        after.sessions@.len() == before.sessions@.len(),
        after.sessions@[s] == (SessionRow {
            body_generation: plan.new_generation,
            message_count: plan.message_count,
            ..before.sessions@[s]
        }),
        forall|j: int|
            0 <= j < before.sessions@.len() && j != s ==> #[trigger] after.sessions@[j]
                == before.sessions@[j],
        bodies(after.files@) == bodies(before.files@).remove(
            body_file(
                before.sessions_directory@,
                plan.session_id@,
                plan.previous_generation,
            ),
        ),
        exists|h: int|
            0 <= h < after.recall_heads@.len() && indexes(
                #[trigger] after.recall_heads@[h],
                ConversationOwner::MainSession { session_id: plan.session_id },
            ) && is_to_be_built(after.recall_heads@[h], plan.new_generation),
{
    session_stands_where_found(before.sessions@, plan.session_id@);
    let owner = ConversationOwner::MainSession { session_id: plan.session_id };
    replaced_conversations_are_indexed_anew(before.recall_heads@, owner, plan.new_generation);
    let plain = |head: RecallHeadRow| indexes(head, owner);
    leader_is_found(before.recall_heads@, is_head_of(owner), plain);
    match first(before.recall_heads@, is_head_of(owner)) {
        Some(h) => {
            assert(leads(before.recall_heads@, h, plain));
            assert(plain(before.recall_heads@[h]));
            assert(head_at(before.recall_heads@, h, owner));
            assert(indexes(after.recall_heads@[h], owner));
        },
        None => {
            let h = before.recall_heads@.len() as int;
            assert(none_of(before.recall_heads@, plain));
            assert(indexes(after.recall_heads@[h], owner));
        },
    }
    assert(session_body_path(
        before.sessions_directory@,
        plan.session_id@,
        plan.previous_generation,
    ) =~= body_file(before.sessions_directory@, plan.session_id@, plan.previous_generation));
}

/// Commands are taken in until the end is asked for. The worker carries out what it is handed, ends
/// with a reply where it is told to, and without one where nobody can send.
pub proof fn workers_do_what_they_are_handed(queue: StoreQueue, delivered: bool)
    ensures
        admission(queue) is Ok <==> !queue.is_closing,
        opening_step(queue) is Join <==> queue.is_closing,
        opening_step(queue) is Send <==> !queue.is_closing,
        after_sending(queue, delivered).is_closing <==> queue.is_closing || delivered,
        after_sending(queue, delivered).has_worker == queue.has_worker,
        !after_taking(queue).has_worker,
        after_taking(queue).is_closing == queue.is_closing,
        step_of_worker(Some(QueuedCommand::Work)) is CarryOut,
        step_of_worker(Some(QueuedCommand::End)) is ReplyAndEnd,
        step_of_worker(None) is End,
{
}

} // verus!
