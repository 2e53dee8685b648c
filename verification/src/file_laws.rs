//! Which files of a session stay and which go.

use vstd::prelude::*;

use std::sync::Arc;

use crate::append_effect::ConversationStorageTarget;
use crate::clear_cleanup::{
    body_part, entry_name, is_cleanup, is_old_body, CleanupPlan, DirectoryEntry, SessionListing,
};
use crate::engine::{conversation_at, StorageEngine};
use crate::message::{held, ConversationMessage, ImageMediaType, ToolResultContent, ToolResultPart};
use crate::recovery::main_target;
use crate::relations::{filtered_rows, found_leads, kept_is_filtered};
use crate::rows::ChildTaskRow;
use crate::table::some_row;
use crate::text::{between, lists, unsigned_value};
use crate::tool_images::{
    all_readable, conversation_shows, goes, image_in, image_type_of, is_image, is_suspect, is_sweep,
    message_shows, missing_image, part_shows, session_shows, task_is_readable, task_shows,
    task_target, unreadable_conversation, ImageFile, ImageSweep,
};

verus! {

/// A name ends in a dot and some letters.
pub open spec fn ends_in(name: Seq<char>, extension: Seq<char>) -> bool {
    &&& extension.len() <= name.len()
    &&& name.skip(name.len() - extension.len()) == extension
}

/// An image that messages show: its name and type stand in the result of a tool.
pub open spec fn is_shown_in(
    message: ConversationMessage,
    name: Seq<char>,
    media_type: ImageMediaType,
) -> bool {
    match message {
        ConversationMessage::Tool(message) => match message.result.content {
            ToolResultContent::Parts(parts) => exists|p: int|
                0 <= p < parts@.len() && is_image_part(#[trigger] parts@[p], name, media_type),
            _ => false,
        },
        _ => false,
    }
}

/// A part that is an image of a name and a type.
pub open spec fn is_image_part(
    part: ToolResultPart,
    name: Seq<char>,
    media_type: ImageMediaType,
) -> bool {
    match part {
        ToolResultPart::Image(image) => image.file_name@ == name && image.media_type == media_type,
        _ => false,
    }
}

/// An image stands in a conversation.
pub open spec fn stands_in(
    messages: Seq<Arc<ConversationMessage>>,
    name: Seq<char>,
    media_type: ImageMediaType,
) -> bool {
    exists|m: int|
        0 <= m < messages.len() && is_shown_in(held(#[trigger] messages[m]), name, media_type)
}

proof fn shown_images_stand_in_messages(
    messages: Seq<Arc<ConversationMessage>>,
    name: Seq<char>,
    media_type: ImageMediaType,
)
    ensures
        conversation_shows(messages, name, media_type) == stands_in(messages, name, media_type),
{
    assert forall|m: int| 0 <= m < messages.len() implies message_shows(
        held(#[trigger] messages[m]),
        name,
        media_type,
    ) == is_shown_in(held(messages[m]), name, media_type) by {
        match held(messages[m]) {
            ConversationMessage::Tool(message) => match message.result.content {
                ToolResultContent::Parts(parts) => {
                    if message_shows(held(messages[m]), name, media_type) {
                        let p = choose|p: int|
                            0 <= p < parts@.len() && part_shows(
                                #[trigger] parts@[p],
                                name,
                                media_type,
                            );
                        assert(is_image_part(parts@[p], name, media_type));
                    }
                    if is_shown_in(held(messages[m]), name, media_type) {
                        let p = choose|p: int|
                            0 <= p < parts@.len() && is_image_part(
                                #[trigger] parts@[p],
                                name,
                                media_type,
                            );
                        assert(part_shows(parts@[p], name, media_type));
                    }
                },
                _ => {},
            },
            _ => {},
        }
    }
    if conversation_shows(messages, name, media_type) {
        let m = choose|m: int|
            0 <= m < messages.len() && message_shows(*#[trigger] messages[m], name, media_type);
        assert(message_shows(held(messages[m]), name, media_type));
        assert(is_shown_in(held(messages[m]), name, media_type));
    }
    if stands_in(messages, name, media_type) {
        let m = choose|m: int|
            0 <= m < messages.len() && is_shown_in(held(#[trigger] messages[m]), name, media_type);
        assert(message_shows(held(messages[m]), name, media_type));
    }
}

/// The conversation of a session can be read.
pub open spec fn can_be_read(engine: StorageEngine, session_id: String, generation: u64) -> bool {
    &&& forall|i: int|
        0 <= i < engine.unavailable_sessions@.len() ==> (
        #[trigger] engine.unavailable_sessions@[i])@ != session_id@
    &&& conversation_at(
        engine,
        ConversationStorageTarget::Session { session_id, run_id: session_id },
        generation,
    ) is Ok
}

/// The conversation of a task can be read.
pub open spec fn task_can_be_read(engine: StorageEngine, task: ChildTaskRow) -> bool {
    &&& forall|i: int|
        0 <= i < engine.unavailable_child_tasks@.len() ==> (
        #[trigger] engine.unavailable_child_tasks@[i])@ != task.child_task_id@
    &&& conversation_at(
        engine,
        ConversationStorageTarget::ChildTask {
            session_id: task.session_id,
            child_task_id: task.child_task_id,
        },
        task.body_generation,
    ) is Ok
}

/// An image is needed: it stands in a conversation of the session, or of a task of it, that can be
/// read.
pub open spec fn is_needed(
    engine: StorageEngine,
    session_id: String,
    generation: u64,
    name: Seq<char>,
    media_type: ImageMediaType,
) -> bool {
    ||| can_be_read(engine, session_id, generation) && stands_in(
        conversation_at(
            engine,
            ConversationStorageTarget::Session { session_id, run_id: session_id },
            generation,
        )->Ok_0,
        name,
        media_type,
    )
    ||| exists|t: int|
        0 <= t < engine.child_tasks@.len() && is_needed_by_task(
            engine,
            #[trigger] engine.child_tasks@[t],
            session_id@,
            name,
            media_type,
        )
}

/// An image stands in the conversation of a task that can be read.
pub open spec fn is_needed_by_task(
    engine: StorageEngine,
    task: ChildTaskRow,
    session_id: Seq<char>,
    name: Seq<char>,
    media_type: ImageMediaType,
) -> bool {
    &&& task.session_id@ == session_id
    &&& task_can_be_read(engine, task)
    &&& stands_in(
        conversation_at(
            engine,
            ConversationStorageTarget::ChildTask {
                session_id: task.session_id,
                child_task_id: task.child_task_id,
            },
            task.body_generation,
        )->Ok_0,
        name,
        media_type,
    )
}

/// What is needed is what a session's conversations show.
proof fn needed_images_are_shown(
    engine: StorageEngine,
    session_id: String,
    generation: u64,
    name: Seq<char>,
    media_type: ImageMediaType,
)
    ensures
        session_shows(engine, session_id, generation, name, media_type) == is_needed(
            engine,
            session_id,
            generation,
            name,
            media_type,
        ),
{
    let target = ConversationStorageTarget::Session { session_id, run_id: session_id };
    assert(main_target(session_id) == target);
    shown_images_stand_in_messages(
        conversation_at(engine, target, generation)->Ok_0,
        name,
        media_type,
    );
    assert forall|t: int| 0 <= t < engine.child_tasks@.len() implies task_shows(
        engine,
        session_id@,
        #[trigger] engine.child_tasks@[t],
        name,
        media_type,
    ) == is_needed_by_task(
        engine,
        engine.child_tasks@[t],
        session_id@,
        name,
        media_type,
    ) by {
        let task = engine.child_tasks@[t];
        shown_images_stand_in_messages(
            conversation_at(engine, task_target(task), task.body_generation)->Ok_0,
            name,
            media_type,
        );
    }
    if exists|t: int|
        0 <= t < engine.child_tasks@.len() && task_shows(
            engine,
            session_id@,
            #[trigger] engine.child_tasks@[t],
            name,
            media_type,
        ) {
        let t = choose|t: int|
            0 <= t < engine.child_tasks@.len() && task_shows(
                engine,
                session_id@,
                #[trigger] engine.child_tasks@[t],
                name,
                media_type,
            );
        assert(is_needed_by_task(
            engine,
            engine.child_tasks@[t],
            session_id@,
            name,
            media_type,
        ));
    }
    if exists|t: int|
        0 <= t < engine.child_tasks@.len() && is_needed_by_task(
            engine,
            #[trigger] engine.child_tasks@[t],
            session_id@,
            name,
            media_type,
        ) {
        let t = choose|t: int|
            0 <= t < engine.child_tasks@.len() && is_needed_by_task(
                engine,
                #[trigger] engine.child_tasks@[t],
                session_id@,
                name,
                media_type,
            );
        assert(task_shows(engine, session_id@, engine.child_tasks@[t], name, media_type));
    }
}

/// All conversations of a session can be read, its own and those of its tasks.
pub open spec fn all_can_be_read(engine: StorageEngine, session_id: String, generation: u64) -> bool {
    &&& can_be_read(engine, session_id, generation)
    &&& forall|t: int|
        0 <= t < engine.child_tasks@.len() && engine.child_tasks@[t].session_id@ == session_id@
            ==> task_can_be_read(engine, #[trigger] engine.child_tasks@[t])
}

/// A file left behind by a write that was cut off.
pub open spec fn is_cut_off(file: ImageFile) -> bool {
    file.entry.name is Some && ends_in(file.entry.name->0@, ".part"@) && file.entry.kind is File
}

/// A file that goes in a sweep: one left behind by a write that was cut off, or an image that no
/// message needs, where all messages can be read.
pub open spec fn is_swept(
    engine: StorageEngine,
    session_id: String,
    generation: u64,
    file: ImageFile,
) -> bool {
    ||| is_cut_off(file)
    ||| {
        &&& file.entry.name is Some
        &&& file.accepted
        &&& file.entry.kind is File
        &&& file.intact
        &&& image_type_of(file.entry.name->0@) is Some
        &&& all_can_be_read(engine, session_id, generation)
        &&& !is_needed(
            engine,
            session_id,
            generation,
            file.entry.name->0@,
            image_type_of(file.entry.name->0@)->0,
        )
    }
}

/// A sweep removes exactly the files that are to go: what messages need stays, and where some messages
/// cannot be read all images stay.
pub proof fn sweeps_remove_what_is_not_needed(
    engine: StorageEngine,
    session_id: String,
    generation: u64,
    files: Seq<ImageFile>,
    sweep: ImageSweep,
)
    requires
        is_sweep(engine, session_id, generation, files, sweep),
    ensures
        forall|f: int|
            0 <= f < files.len() && is_swept(engine, session_id, generation, #[trigger] files[f])
                ==> lists(sweep.removed@, files[f].entry.name->0@),
        forall|k: int|
            0 <= k < sweep.removed@.len() ==> exists|f: int|
                0 <= f < files.len() && is_swept(
                    engine,
                    session_id,
                    generation,
                    #[trigger] files[f],
                ) && files[f].entry.name == Some(#[trigger] sweep.removed@[k]),
        sweep.removed@.len() <= files.len(),
{
    let plain = |file: ImageFile| is_swept(engine, session_id, generation, file);
    let condition = goes(engine, session_id, generation);
    assert forall|f: int| 0 <= f < files.len() implies condition(#[trigger] files[f]) == plain(
        files[f],
    ) by {
        if image_in(files[f]) is Some {
            needed_images_are_shown(
                engine,
                session_id,
                generation,
                files[f].entry.name->0@,
                image_in(files[f])->0,
            );
        }
        all_conversations_are_readable(engine, session_id, generation);
    }
    kept_is_filtered(files, condition, plain);
    filtered_rows(files, plain);
    let swept = files.filter(plain);
    assert forall|f: int|
        0 <= f < files.len() && is_swept(engine, session_id, generation, #[trigger] files[f]) implies lists(
        sweep.removed@,
        files[f].entry.name->0@,
    ) by {
        assert(plain(files[f]));
        assert(files.contains(files[f]));
        assert(swept.contains(files[f]));
        let k = swept.index_of(files[f]);
        assert(sweep.removed@[k] == files[f].entry.name->0);
    }
    assert forall|k: int| 0 <= k < sweep.removed@.len() implies exists|f: int|
        0 <= f < files.len() && is_swept(engine, session_id, generation, #[trigger] files[f])
            && files[f].entry.name == Some(#[trigger] sweep.removed@[k]) by {
        assert(swept.contains(swept[k]));
        let f = files.index_of(swept[k]);
        assert(plain(files[f]));
        assert(files[f] == swept[k]);
        assert(is_swept(engine, session_id, generation, files[f]));
        assert(sweep.removed@[k] == files[f].entry.name->0);
    }
}

proof fn all_conversations_are_readable(
    engine: StorageEngine,
    session_id: String,
    generation: u64,
)
    ensures
        all_readable(engine, session_id, generation) == all_can_be_read(
            engine,
            session_id,
            generation,
        ),
{
    assert(main_target(session_id) == (ConversationStorageTarget::Session {
        session_id,
        run_id: session_id,
    }));
    assert forall|t: int| 0 <= t < engine.child_tasks@.len() implies task_is_readable(
        engine,
        #[trigger] engine.child_tasks@[t],
    ) == task_can_be_read(engine, engine.child_tasks@[t]) by {}
    if all_readable(engine, session_id, generation) {
        assert forall|t: int|
            0 <= t < engine.child_tasks@.len() && engine.child_tasks@[t].session_id@
                == session_id@ implies task_can_be_read(
            engine,
            #[trigger] engine.child_tasks@[t],
        ) by {
            assert(task_is_readable(engine, engine.child_tasks@[t]));
        }
    }
    if all_can_be_read(engine, session_id, generation) {
        assert forall|t: int|
            0 <= t < engine.child_tasks@.len() && engine.child_tasks@[t].session_id@
                == session_id@ implies task_is_readable(
            engine,
            #[trigger] engine.child_tasks@[t],
        ) by {
            assert(task_can_be_read(engine, engine.child_tasks@[t]));
        }
    }
}

/// A sweep reports trouble where a file is neither an image nor left behind by a cut off write, or
/// where an image that messages need is not among the files.
pub proof fn sweeps_report_what_is_missing(
    engine: StorageEngine,
    session_id: String,
    generation: u64,
    files: Seq<ImageFile>,
    sweep: ImageSweep,
)
    requires
        is_sweep(engine, session_id, generation, files, sweep),
    ensures
        (exists|f: int|
            0 <= f < files.len() && is_foreign(#[trigger] files[f])) ==> sweep.diagnostic,
        (exists|name: Seq<char>, media_type: ImageMediaType|
            #[trigger] is_needed(engine, session_id, generation, name, media_type) && forall|f: int|
                0 <= f < files.len() ==> !holds_image(#[trigger] files[f], name, media_type))
            ==> sweep.diagnostic,
        sweep.diagnostic ==> {
            ||| exists|f: int| 0 <= f < files.len() && is_foreign(#[trigger] files[f])
            ||| exists|name: Seq<char>, media_type: ImageMediaType|
                #[trigger] is_needed(engine, session_id, generation, name, media_type) && forall|
                    f: int,
                |
                    0 <= f < files.len() ==> !holds_image(#[trigger] files[f], name, media_type)
            ||| unreadable_conversation(engine, session_id, generation)
        },
{
    let foreign = |file: ImageFile| is_foreign(file);
    found_leads(files, is_suspect(), foreign);
    if exists|f: int| 0 <= f < files.len() && is_foreign(#[trigger] files[f]) {
        let f = choose|f: int| 0 <= f < files.len() && is_foreign(#[trigger] files[f]);
        assert(is_suspect()(files[f]));
    }
    if some_row(files, is_suspect()) {
        let f = choose|f: int| 0 <= f < files.len() && is_suspect()(#[trigger] files[f]);
        assert(is_foreign(files[f]));
    }
    assert forall|name: Seq<char>, media_type: ImageMediaType|
        some_row(files, #[trigger] is_image(name, media_type)) == (exists|f: int|
            0 <= f < files.len() && holds_image(#[trigger] files[f], name, media_type)) by {
        if some_row(files, is_image(name, media_type)) {
            let f = choose|f: int|
                0 <= f < files.len() && is_image(name, media_type)(#[trigger] files[f]);
            assert(holds_image(files[f], name, media_type));
        }
        if exists|f: int| 0 <= f < files.len() && holds_image(#[trigger] files[f], name, media_type) {
            let f = choose|f: int|
                0 <= f < files.len() && holds_image(#[trigger] files[f], name, media_type);
            assert(is_image(name, media_type)(files[f]));
        }
    }
    if exists|name: Seq<char>, media_type: ImageMediaType|
        #[trigger] is_needed(engine, session_id, generation, name, media_type) && forall|f: int|
            0 <= f < files.len() ==> !holds_image(#[trigger] files[f], name, media_type) {
        let (name, media_type) = choose|name: Seq<char>, media_type: ImageMediaType|
            #[trigger] is_needed(engine, session_id, generation, name, media_type) && forall|f: int|
                0 <= f < files.len() ==> !holds_image(#[trigger] files[f], name, media_type);
        needed_images_are_shown(engine, session_id, generation, name, media_type);
        assert(!some_row(files, is_image(name, media_type)));
        assert(session_shows(engine, session_id, generation, name, media_type));
    }
    if missing_image(engine, session_id, generation, files) {
        let (name, media_type) = choose|name: Seq<char>, media_type: ImageMediaType| #[trigger]
            session_shows(engine, session_id, generation, name, media_type) && !some_row(
                files,
                is_image(name, media_type),
            );
        needed_images_are_shown(engine, session_id, generation, name, media_type);
        assert(is_needed(engine, session_id, generation, name, media_type));
    }
}

/// A file that is neither an image nor left behind by a write that was cut off.
pub open spec fn is_foreign(file: ImageFile) -> bool {
    &&& !is_cut_off(file)
    &&& !(file.entry.name is Some && file.accepted && file.entry.kind is File && file.intact
        && image_type_of(file.entry.name->0@) is Some)
}

/// A file that holds an image of a name and a type.
pub open spec fn holds_image(file: ImageFile, name: Seq<char>, media_type: ImageMediaType) -> bool {
    &&& file.entry.name is Some
    &&& file.entry.name->0@ == name
    &&& file.accepted
    &&& file.entry.kind is File
    &&& file.intact
    &&& image_type_of(name) == Some(media_type)
}

/// The number in the name of a body, from one on.
pub open spec fn is_numbered(part: Seq<char>, generation: u64) -> bool {
    generation >= 1 && unsigned_value(part) == Some(generation)
}

/// A clean up takes away the old bodies of a conversation, and no other file of its session: those
/// whose names hold the number of another generation than the one that counts.
pub proof fn cleanups_take_old_bodies_only(
    listing: SessionListing,
    result_generation: u64,
    plan: CleanupPlan,
)
    requires
        is_cleanup(listing, result_generation, plan),
    ensures
        forall|k: int|
            0 <= k < plan.old_bodies@.len() ==> names_old_body(
                listing.entries@,
                result_generation,
                #[trigger] plan.old_bodies@[k],
            ),
        forall|e: int|
            0 <= e < listing.entries@.len() && is_body_of_another(
                #[trigger] listing.entries@[e],
                result_generation,
            ) ==> lists(plan.old_bodies@, listing.entries@[e].name->0@),
{
    let plain = |entry: DirectoryEntry| is_body_of_another(entry, result_generation);
    let condition = is_old_body(result_generation);
    assert forall|e: int| 0 <= e < listing.entries@.len() implies condition(
        #[trigger] listing.entries@[e],
    ) == plain(listing.entries@[e]) by {
        let entry = listing.entries@[e];
        match entry.name {
            Some(name) => match body_part(name@) {
                Some(part) => {
                    match unsigned_value(part) {
                        Some(value) => {
                            if value >= 1 && value != result_generation {
                                assert(is_numbered(part, value));
                                names_are_taken_apart(name@, "conversation."@, ".jsonl"@);
                                assert(name@ =~= "conversation."@ + part + ".jsonl"@);
                                assert(is_named(name@, part));
                            }
                        },
                        None => {},
                    }
                    if plain(entry) {
                        let (inner, generation) = choose|inner: Seq<char>, generation: u64|
                            #[trigger] is_named(name@, inner) && #[trigger] is_numbered(
                                inner,
                                generation,
                            ) && generation != result_generation;
                        names_are_taken_apart(name@, "conversation."@, ".jsonl"@);
                        assert(inner =~= part);
                    }
                },
                None => {
                    names_are_taken_apart(name@, "conversation."@, ".jsonl"@);
                },
            },
            None => {},
        }
    }
    kept_is_filtered(listing.entries@, condition, plain);
    filtered_rows(listing.entries@, plain);
    let old_bodies = listing.entries@.filter(plain);
    assert forall|k: int| 0 <= k < plan.old_bodies@.len() implies names_old_body(
        listing.entries@,
        result_generation,
        #[trigger] plan.old_bodies@[k],
    ) by {
        assert(old_bodies.contains(old_bodies[k]));
        let e = listing.entries@.index_of(old_bodies[k]);
        assert(plain(listing.entries@[e]));
        assert(is_body_of_another(listing.entries@[e], result_generation));
        assert(entry_name()(old_bodies[k]) == plan.old_bodies@[k]);
        assert(listing.entries@[e].name is Some);
    }
    assert forall|e: int|
        0 <= e < listing.entries@.len() && is_body_of_another(
            #[trigger] listing.entries@[e],
            result_generation,
        ) implies lists(plan.old_bodies@, listing.entries@[e].name->0@) by {
        assert(plain(listing.entries@[e]));
        assert(listing.entries@.contains(listing.entries@[e]));
        assert(old_bodies.contains(listing.entries@[e]));
        let k = old_bodies.index_of(listing.entries@[e]);
        assert(plan.old_bodies@[k] == listing.entries@[e].name->0);
    }
}

/// A name is that of a body of another generation than the one that counts.
pub open spec fn names_old_body(
    entries: Seq<DirectoryEntry>,
    result_generation: u64,
    name: String,
) -> bool {
    exists|e: int|
        0 <= e < entries.len() && is_body_of_another(#[trigger] entries[e], result_generation)
            && entries[e].name == Some(name)
}

/// The name of a conversation's body.
pub open spec fn is_named(name: Seq<char>, part: Seq<char>) -> bool {
    name == "conversation."@ + part + ".jsonl"@
}

/// A file that is the body of another generation than the one that counts.
pub open spec fn is_body_of_another(entry: DirectoryEntry, result_generation: u64) -> bool {
    entry.name is Some && exists|part: Seq<char>, generation: u64|
        #[trigger] is_named(entry.name->0@, part) && #[trigger] is_numbered(part, generation)
            && generation != result_generation
}

proof fn names_are_taken_apart(name: Seq<char>, prefix: Seq<char>, suffix: Seq<char>)
    ensures
        between(name, prefix, suffix) is Some ==> name == prefix + between(
            name,
            prefix,
            suffix,
        )->0 + suffix,
        forall|part: Seq<char>|
            name == #[trigger] (prefix + part + suffix) ==> between(name, prefix, suffix) == Some(
                part,
            ),
{
    if between(name, prefix, suffix) is Some {
        let part = between(name, prefix, suffix)->0;
        let rest = name.skip(prefix.len() as int);
        assert(name.take(prefix.len() as int) == prefix);
        assert(rest.skip(rest.len() - suffix.len()) == suffix);
        assert(name =~= prefix + part + suffix) by {
            assert forall|i: int| 0 <= i < name.len() implies #[trigger] name[i] == (prefix + part
                + suffix)[i] by {
                if i < prefix.len() {
                    assert(name.take(prefix.len() as int)[i] == prefix[i]);
                } else if i >= name.len() - suffix.len() {
                    assert(rest.skip(rest.len() - suffix.len())[i - (name.len() - suffix.len())]
                        == suffix[i - (name.len() - suffix.len())]);
                }
            }
        }
    }
    assert forall|part: Seq<char>| name == #[trigger] (prefix + part + suffix) implies between(
        name,
        prefix,
        suffix,
    ) == Some(part) by {
        assert(name.take(prefix.len() as int) =~= prefix);
        let rest = name.skip(prefix.len() as int);
        assert(rest.skip(rest.len() - suffix.len()) =~= suffix);
        assert(name.subrange(prefix.len() as int, name.len() - suffix.len()) =~= part);
    }
}

} // verus!
