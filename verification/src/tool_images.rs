//! Tool images of a session: which of them are referred to, and which may go.

use std::sync::Arc;
use vstd::prelude::*;

use crate::append_effect::ConversationStorageTarget;
use crate::clear_cleanup::{DirectoryEntry, EntryKind};
use crate::engine::{conversation_at, StorageEngine};
use crate::message::{
    held, ConversationMessage, ImageMediaType, Messages, ToolImageReference, ToolResultContent,
    ToolResultPart,
};
use crate::recovery::main_target;
use crate::rows::ChildTaskRow;
use crate::table::{any, kept, some_row};
use crate::text::{
    ends_with, extension, extension_of, has_suffix, holds_text, last_place, lists, same_text,
};

verus! {

/// The format that the extension of a file name stands for.
pub open spec fn image_type_of(name: Seq<char>) -> Option<ImageMediaType> {
    match extension_of(name) {
        None => None,
        Some(extension) => if extension == "jpg"@ {
            Some(ImageMediaType::Jpeg)
        } else if extension == "png"@ {
            Some(ImageMediaType::Png)
        } else if extension == "webp"@ {
            Some(ImageMediaType::WebP)
        } else if extension == "gif"@ {
            Some(ImageMediaType::Gif)
        } else {
            None
        },
    }
}

/// The format that the extension of a file name stands for.
pub fn media_type_of(name: &str) -> (media_type: Option<ImageMediaType>)
    ensures
        media_type == image_type_of(name@),
{
    let extension = match extension(name) {
        Some(extension) => extension,
        None => {
            return None;
        },
    };
    if same_text(extension.as_str(), "jpg") {
        Some(ImageMediaType::Jpeg)
    } else if same_text(extension.as_str(), "png") {
        Some(ImageMediaType::Png)
    } else if same_text(extension.as_str(), "webp") {
        Some(ImageMediaType::WebP)
    } else if same_text(extension.as_str(), "gif") {
        Some(ImageMediaType::Gif)
    } else {
        None
    }
}

/// The image that a file name stands for. Whether images may have such a name is for the caller to
/// find out.
pub fn reference_from_file_name(name: &String, accepted: bool) -> (reference: Option<
    ToolImageReference,
>)
    ensures
        match reference {
            Some(reference) => accepted && reference.file_name == *name && image_type_of(name@)
                == Some(reference.media_type),
            None => !accepted || image_type_of(name@) is None,
        },
{
    if !accepted {
        return None;
    }
    match media_type_of(name.as_str()) {
        Some(media_type) => Some(ToolImageReference { file_name: name.clone(), media_type }),
        None => None,
    }
}

/// A part of a result that shows an image.
pub open spec fn part_shows(part: ToolResultPart, name: Seq<char>, media_type: ImageMediaType) -> bool {
    match part {
        ToolResultPart::Image(image) => image.file_name@ == name && image.media_type == media_type,
        _ => false,
    }
}

/// A message that shows an image.
pub open spec fn message_shows(
    message: ConversationMessage,
    name: Seq<char>,
    media_type: ImageMediaType,
) -> bool {
    match message {
        ConversationMessage::Tool(message) => match message.result.content {
            ToolResultContent::Parts(parts) => exists|i: int|
                0 <= i < parts@.len() && part_shows(#[trigger] parts@[i], name, media_type),
            _ => false,
        },
        _ => false,
    }
}

/// A conversation that shows an image.
pub open spec fn conversation_shows(
    messages: Seq<Arc<ConversationMessage>>,
    name: Seq<char>,
    media_type: ImageMediaType,
) -> bool {
    exists|i: int|
        0 <= i < messages.len() && message_shows(*#[trigger] messages[i], name, media_type)
}

/// Some reference is to an image.
pub open spec fn refers(
    references: Seq<ToolImageReference>,
    name: Seq<char>,
    media_type: ImageMediaType,
) -> bool {
    exists|i: int|
        0 <= i < references.len() && (#[trigger] references[i]).file_name@ == name
            && references[i].media_type == media_type
}

proof fn refers_after_push(
    references: Seq<ToolImageReference>,
    added: ToolImageReference,
    name: Seq<char>,
    media_type: ImageMediaType,
)
    ensures
        refers(references.push(added), name, media_type) == (refers(references, name, media_type)
            || (added.file_name@ == name && added.media_type == media_type)),
{
    let all = references.push(added);
    if refers(references, name, media_type) {
        let i = choose|i: int|
            0 <= i < references.len() && (#[trigger] references[i]).file_name@ == name
                && references[i].media_type == media_type;
        assert(all[i] == references[i]);
    }
    if added.file_name@ == name && added.media_type == media_type {
        assert(all[references.len() as int] == added);
    }
    if refers(all, name, media_type) {
        let i = choose|i: int|
            0 <= i < all.len() && (#[trigger] all[i]).file_name@ == name && all[i].media_type
                == media_type;
        if i < references.len() {
            assert(references[i] == all[i]);
        }
    }
}

fn collect_parts(parts: &Vec<ToolResultPart>, output: &mut Vec<ToolImageReference>)
    ensures
        forall|name: Seq<char>, media_type: ImageMediaType| #[trigger]
            refers(final(output)@, name, media_type) == (refers(old(output)@, name, media_type)
                || exists|i: int|
                0 <= i < parts@.len() && part_shows(#[trigger] parts@[i], name, media_type)),
{
    let ghost before = output@;
    let mut i: usize = 0;
    while i < parts.len()
        invariant
            i <= parts@.len(),
            before == old(output)@,
            forall|name: Seq<char>, media_type: ImageMediaType| #[trigger]
                refers(output@, name, media_type) == (refers(before, name, media_type)
                    || exists|k: int|
                    0 <= k < i && part_shows(#[trigger] parts@[k], name, media_type)),
        decreases parts@.len() - i,
    {
        let ghost now = output@;
        match &parts[i] {
            ToolResultPart::Image(image) => {
                let added = ToolImageReference {
                    file_name: image.file_name.clone(),
                    media_type: image.media_type,
                };
                output.push(added);
                proof {
                    assert forall|name: Seq<char>, media_type: ImageMediaType| #[trigger]
                        refers(output@, name, media_type) == (refers(before, name, media_type)
                            || exists|k: int|
                            0 <= k < i + 1 && part_shows(
                                #[trigger] parts@[k],
                                name,
                                media_type,
                            )) by {
                        refers_after_push(now, added, name, media_type);
                        assert(refers(now, name, media_type) == (refers(before, name, media_type)
                            || exists|k: int|
                            0 <= k < i && part_shows(#[trigger] parts@[k], name, media_type)));
                        if part_shows(parts@[i as int], name, media_type) {
                            assert(added.file_name@ == name);
                        }
                    }
                }
            },
            ToolResultPart::Text(_) => {
                proof {
                    assert forall|name: Seq<char>, media_type: ImageMediaType| #[trigger]
                        refers(output@, name, media_type) == (refers(before, name, media_type)
                            || exists|k: int|
                            0 <= k < i + 1 && part_shows(
                                #[trigger] parts@[k],
                                name,
                                media_type,
                            )) by {
                        assert(!part_shows(parts@[i as int], name, media_type));
                    }
                }
            },
        }
        i += 1;
    }
}

/// Adds the images that a conversation shows.
pub fn collect_tool_images(messages: &Messages, output: &mut Vec<ToolImageReference>)
    ensures
        forall|name: Seq<char>, media_type: ImageMediaType| #[trigger]
            refers(final(output)@, name, media_type) == (refers(old(output)@, name, media_type)
                || conversation_shows(messages@, name, media_type)),
{
    let ghost before = output@;
    let mut i: usize = 0;
    while i < messages.len()
        invariant
            i <= messages@.len(),
            before == old(output)@,
            forall|name: Seq<char>, media_type: ImageMediaType| #[trigger]
                refers(output@, name, media_type) == (refers(before, name, media_type)
                    || conversation_shows(messages@.take(i as int), name, media_type)),
        decreases messages@.len() - i,
    {
        let ghost now = output@;
        match &*messages[i] {
            ConversationMessage::Tool(message) => match &message.result.content {
                ToolResultContent::Parts(parts) => collect_parts(parts, output),
                _ => {},
            },
            _ => {},
        }
        proof {
            assert forall|name: Seq<char>, media_type: ImageMediaType| #[trigger]
                refers(output@, name, media_type) == (refers(before, name, media_type)
                    || conversation_shows(messages@.take(i + 1), name, media_type)) by {
                shows_one_more(messages@, i as int, name, media_type);
                assert(refers(now, name, media_type) == (refers(before, name, media_type)
                    || conversation_shows(messages@.take(i as int), name, media_type)));
                assert(refers(output@, name, media_type) == (refers(now, name, media_type)
                    || message_shows(*messages@[i as int], name, media_type)));
            }
        }
        i += 1;
    }
    proof {
        assert(messages@.take(messages@.len() as int) =~= messages@);
    }
}

proof fn shows_one_more(
    messages: Seq<Arc<ConversationMessage>>,
    i: int,
    name: Seq<char>,
    media_type: ImageMediaType,
)
    requires
        0 <= i < messages.len(),
    ensures
        conversation_shows(messages.take(i + 1), name, media_type) == (conversation_shows(
            messages.take(i),
            name,
            media_type,
        ) || message_shows(*messages[i], name, media_type)),
{
    let longer = messages.take(i + 1);
    let shorter = messages.take(i);
    if conversation_shows(shorter, name, media_type) {
        let k = choose|k: int|
            0 <= k < shorter.len() && message_shows(*#[trigger] shorter[k], name, media_type);
        assert(longer[k] == shorter[k]);
    }
    if message_shows(held(messages[i]), name, media_type) {
        assert(longer[i] == messages[i]);
    }
    if conversation_shows(longer, name, media_type) {
        let k = choose|k: int|
            0 <= k < longer.len() && message_shows(*#[trigger] longer[k], name, media_type);
        if k < i {
            assert(shorter[k] == longer[k]);
        }
    }
}

/// A file among the tool images of a session, with whether images may have such a name and whether
/// its content is the image that its name stands for.
#[derive(Debug)]
pub struct ImageFile {
    pub entry: DirectoryEntry,
    pub accepted: bool,
    pub intact: bool,
}

/// The tool images that go, and whether something is wrong with those of a session.
#[derive(Debug)]
pub struct ImageSweep {
    pub removed: Vec<String>,
    pub diagnostic: bool,
}

/// The conversation of a delegated task.
pub open spec fn task_target(row: ChildTaskRow) -> ConversationStorageTarget {
    ConversationStorageTarget::ChildTask {
        session_id: row.session_id,
        child_task_id: row.child_task_id,
    }
}

/// A delegated task whose conversation can be read.
pub open spec fn task_is_readable(engine: StorageEngine, row: ChildTaskRow) -> bool {
    &&& !lists(engine.unavailable_child_tasks@, row.child_task_id@)
    &&& conversation_at(engine, task_target(row), row.body_generation) is Ok
}

/// Whether the conversation of a session can be read.
pub open spec fn session_is_readable(
    engine: StorageEngine,
    session_id: String,
    generation: u64,
) -> bool {
    &&& !lists(engine.unavailable_sessions@, session_id@)
    &&& conversation_at(engine, main_target(session_id), generation) is Ok
}

/// Every conversation of a session, those of its delegated tasks included, can be read.
pub open spec fn all_readable(engine: StorageEngine, session_id: String, generation: u64) -> bool {
    &&& session_is_readable(engine, session_id, generation)
    &&& forall|i: int|
        0 <= i < engine.child_tasks@.len() && engine.child_tasks@[i].session_id@ == session_id@
            ==> task_is_readable(engine, #[trigger] engine.child_tasks@[i])
}

/// A delegated task of a session shows an image.
pub open spec fn task_shows(
    engine: StorageEngine,
    session_id: Seq<char>,
    row: ChildTaskRow,
    name: Seq<char>,
    media_type: ImageMediaType,
) -> bool {
    &&& row.session_id@ == session_id
    &&& task_is_readable(engine, row)
    &&& conversation_shows(
        conversation_at(engine, task_target(row), row.body_generation)->Ok_0,
        name,
        media_type,
    )
}

/// A conversation of a session that can be read shows an image.
pub open spec fn session_shows(
    engine: StorageEngine,
    session_id: String,
    generation: u64,
    name: Seq<char>,
    media_type: ImageMediaType,
) -> bool {
    ||| session_is_readable(engine, session_id, generation) && conversation_shows(
        conversation_at(engine, main_target(session_id), generation)->Ok_0,
        name,
        media_type,
    )
    ||| exists|i: int|
        0 <= i < engine.child_tasks@.len() && task_shows(
            engine,
            session_id@,
            #[trigger] engine.child_tasks@[i],
            name,
            media_type,
        )
}

/// A conversation that should be readable is not.
pub open spec fn unreadable_conversation(
    engine: StorageEngine,
    session_id: String,
    generation: u64,
) -> bool {
    ||| !lists(engine.unavailable_sessions@, session_id@) && conversation_at(
        engine,
        main_target(session_id),
        generation,
    ) is Err
    ||| exists|i: int|
        0 <= i < engine.child_tasks@.len() && is_unreadable_task(
            engine,
            session_id@,
            #[trigger] engine.child_tasks@[i],
        )
}

/// A delegated task of a session whose conversation should be readable and is not.
pub open spec fn is_unreadable_task(
    engine: StorageEngine,
    session_id: Seq<char>,
    row: ChildTaskRow,
) -> bool {
    &&& row.session_id@ == session_id
    &&& !lists(engine.unavailable_child_tasks@, row.child_task_id@)
    &&& conversation_at(engine, task_target(row), row.body_generation) is Err
}

/// A file that a tool was still writing.
pub open spec fn is_leftover(file: ImageFile) -> bool {
    file.entry.name is Some && has_suffix(file.entry.name->0@, ".part"@) && file.entry.kind is File
}

/// The image that a file stands for, where it is whole.
pub open spec fn image_in(file: ImageFile) -> Option<ImageMediaType> {
    if file.entry.name is Some && file.accepted && file.entry.kind is File && file.intact {
        image_type_of(file.entry.name->0@)
    } else {
        None
    }
}

/// The condition of being a file that goes: what a tool was still writing, and with all
/// conversations at hand, an image that none of them shows.
pub open spec fn goes(engine: StorageEngine, session_id: String, generation: u64) -> spec_fn(
    ImageFile,
) -> bool {
    |file: ImageFile|
        is_leftover(file) || (image_in(file) is Some && all_readable(
            engine,
            session_id,
            generation,
        ) && !session_shows(
            engine,
            session_id,
            generation,
            file.entry.name->0@,
            image_in(file)->0,
        ))
}

/// The condition of being a file that should not be there.
pub open spec fn is_suspect() -> spec_fn(ImageFile) -> bool {
    |file: ImageFile| !is_leftover(file) && image_in(file) is None
}

/// The condition of being an image, whole.
pub open spec fn is_image(name: Seq<char>, media_type: ImageMediaType) -> spec_fn(ImageFile) -> bool {
    |file: ImageFile| image_in(file) == Some(media_type) && file.entry.name->0@ == name
}

/// An image that is shown is not there, or not whole.
pub open spec fn missing_image(
    engine: StorageEngine,
    session_id: String,
    generation: u64,
    files: Seq<ImageFile>,
) -> bool {
    exists|name: Seq<char>, media_type: ImageMediaType| #[trigger]
        session_shows(engine, session_id, generation, name, media_type) && !some_row(
            files,
            is_image(name, media_type),
        )
}

pub open spec fn file_name() -> spec_fn(ImageFile) -> String {
    |file: ImageFile| file.entry.name->0
}

/// The tool images that go, and whether something is wrong with those of a session.
pub open spec fn is_sweep(
    engine: StorageEngine,
    session_id: String,
    generation: u64,
    files: Seq<ImageFile>,
    sweep: ImageSweep,
) -> bool {
    &&& sweep.removed@ == kept(files, goes(engine, session_id, generation)).map_values(file_name())
    &&& sweep.diagnostic == (unreadable_conversation(engine, session_id, generation) || some_row(
        files,
        is_suspect(),
    ) || missing_image(engine, session_id, generation, files))
}

struct Gathered {
    references: Vec<ToolImageReference>,
    readable: bool,
    diagnostic: bool,
}

fn type_in(file: &ImageFile) -> (media_type: Option<ImageMediaType>)
    ensures
        media_type == image_in(*file),
{
    match &file.entry.name {
        Some(name) => if file.accepted && matches!(file.entry.kind, EntryKind::File)
            && file.intact {
            media_type_of(name.as_str())
        } else {
            None
        },
        None => None,
    }
}

fn is_unfinished(file: &ImageFile) -> (result: bool)
    ensures
        result == is_leftover(*file),
{
    match &file.entry.name {
        Some(name) => ends_with(name.as_str(), ".part") && matches!(file.entry.kind, EntryKind::File),
        None => false,
    }
}

fn holds_reference(
    references: &Vec<ToolImageReference>,
    name: &String,
    media_type: ImageMediaType,
) -> (result: bool)
    ensures
        result == refers(references@, name@, media_type),
{
    let mut i: usize = 0;
    while i < references.len()
        invariant
            i <= references@.len(),
            forall|k: int|
                0 <= k < i ==> !((#[trigger] references@[k]).file_name@ == name@
                    && references@[k].media_type == media_type),
        decreases references@.len() - i,
    {
        if references[i].file_name == *name && references[i].media_type == media_type {
            assert(references@[i as int].file_name@ == name@);
            return true;
        }
        i += 1;
    }
    false
}

impl StorageEngine {
    fn gather_images(&self, session_id: &String, generation: u64) -> (gathered: Gathered)
        ensures
            gathered.readable == all_readable(*self, *session_id, generation),
            gathered.diagnostic == unreadable_conversation(*self, *session_id, generation),
            forall|name: Seq<char>, media_type: ImageMediaType| #[trigger]
                refers(gathered.references@, name, media_type) == session_shows(
                    *self,
                    *session_id,
                    generation,
                    name,
                    media_type,
                ),
    {
        let mut references: Vec<ToolImageReference> = Vec::new();
        let mut readable = !holds_text(&self.unavailable_sessions, session_id.as_str());
        let mut diagnostic = false;
        let target = ConversationStorageTarget::Session {
            session_id: session_id.clone(),
            run_id: session_id.clone(),
        };
        if readable {
            match self.read_conversation(&target, generation) {
                Ok(messages) => collect_tool_images(&messages, &mut references),
                Err(_) => {
                    readable = false;
                    diagnostic = true;
                },
            }
        }
        let ghost main_readable = session_is_readable(*self, *session_id, generation);
        let ghost main_broken = diagnostic;
        let mut i: usize = 0;
        while i < self.child_tasks.len()
            invariant
                i <= self.child_tasks@.len(),
                main_readable == session_is_readable(*self, *session_id, generation),
                main_broken == (!lists(self.unavailable_sessions@, session_id@)
                    && conversation_at(*self, main_target(*session_id), generation) is Err),
                readable == (main_readable && forall|k: int|
                    0 <= k < i && self.child_tasks@[k].session_id@ == session_id@
                        ==> task_is_readable(*self, #[trigger] self.child_tasks@[k])),
                diagnostic == (main_broken || exists|k: int|
                    0 <= k < i && is_unreadable_task(
                        *self,
                        session_id@,
                        #[trigger] self.child_tasks@[k],
                    )),
                forall|name: Seq<char>, media_type: ImageMediaType| #[trigger]
                    refers(references@, name, media_type) == ((main_readable
                        && conversation_shows(
                        conversation_at(*self, main_target(*session_id), generation)->Ok_0,
                        name,
                        media_type,
                    )) || exists|k: int|
                        0 <= k < i && task_shows(
                            *self,
                            session_id@,
                            #[trigger] self.child_tasks@[k],
                            name,
                            media_type,
                        )),
            decreases self.child_tasks@.len() - i,
        {
            let row = &self.child_tasks[i];
            let ghost now = references@;
            if row.session_id == *session_id {
                if holds_text(&self.unavailable_child_tasks, row.child_task_id.as_str()) {
                    readable = false;
                    proof {
                        assert(!task_is_readable(*self, self.child_tasks@[i as int]));
                        assert(!is_unreadable_task(
                            *self,
                            session_id@,
                            self.child_tasks@[i as int],
                        ));
                    }
                } else {
                    let child = ConversationStorageTarget::ChildTask {
                        session_id: row.session_id.clone(),
                        child_task_id: row.child_task_id.clone(),
                    };
                    match self.read_conversation(&child, row.body_generation) {
                        Ok(messages) => {
                            collect_tool_images(&messages, &mut references);
                            proof {
                                assert(task_is_readable(*self, self.child_tasks@[i as int]));
                                assert(!is_unreadable_task(
                                    *self,
                                    session_id@,
                                    self.child_tasks@[i as int],
                                ));
                            }
                        },
                        Err(_) => {
                            readable = false;
                            diagnostic = true;
                            proof {
                                assert(is_unreadable_task(
                                    *self,
                                    session_id@,
                                    self.child_tasks@[i as int],
                                ));
                                assert(!task_is_readable(*self, self.child_tasks@[i as int]));
                            }
                        },
                    }
                }
            }
            proof {
                assert forall|name: Seq<char>, media_type: ImageMediaType| #[trigger]
                    refers(references@, name, media_type) == ((main_readable
                        && conversation_shows(
                        conversation_at(*self, main_target(*session_id), generation)->Ok_0,
                        name,
                        media_type,
                    )) || exists|k: int|
                        0 <= k < i + 1 && task_shows(
                            *self,
                            session_id@,
                            #[trigger] self.child_tasks@[k],
                            name,
                            media_type,
                        )) by {
                    assert(refers(references@, name, media_type) == (refers(now, name, media_type)
                        || task_shows(
                        *self,
                        session_id@,
                        self.child_tasks@[i as int],
                        name,
                        media_type,
                    )));
                }
            }
            i += 1;
        }
        Gathered { references, readable, diagnostic }
    }

    /// Which tool images of a session go. Nothing that a conversation may show goes, and while one
    /// cannot be read, nothing goes but what a tool was still writing.
    pub fn recover_session_tool_images(
        &self,
        session_id: &String,
        generation: u64,
        files: &Vec<ImageFile>,
    ) -> (sweep: ImageSweep)
        ensures
            is_sweep(*self, *session_id, generation, files@, sweep),
    {
        let gathered = self.gather_images(session_id, generation);
        let references = &gathered.references;
        let readable = gathered.readable;
        let suspect = any(
            files,
            Ghost(is_suspect()),
            |file: &ImageFile| -> (found: bool)
                ensures
                    found == is_suspect()(*file)
                { !is_unfinished(file) && type_in(file).is_none() },
        );
        let missing = lacks_image(references, files);
        proof {
            assert(missing == missing_image(*self, *session_id, generation, files@)) by {
                if missing {
                    let i = choose|i: int|
                        0 <= i < references@.len() && !some_row(
                            files@,
                            is_image(
                                (#[trigger] references@[i]).file_name@,
                                references@[i].media_type,
                            ),
                        );
                    let name = references@[i].file_name@;
                    let media_type = references@[i].media_type;
                    assert(refers(references@, name, media_type));
                    assert(session_shows(*self, *session_id, generation, name, media_type));
                }
                if missing_image(*self, *session_id, generation, files@) {
                    let (name, media_type) = choose|name: Seq<char>, media_type: ImageMediaType|
                        #[trigger]
                        session_shows(*self, *session_id, generation, name, media_type)
                            && !some_row(files@, is_image(name, media_type));
                    assert(refers(references@, name, media_type));
                    let i = choose|i: int|
                        0 <= i < references@.len() && (#[trigger] references@[i]).file_name@
                            == name && references@[i].media_type == media_type;
                    assert(!some_row(
                        files@,
                        is_image(references@[i].file_name@, references@[i].media_type),
                    ));
                }
            }
        }
        let removed = listed_files(
            files,
            Ghost(goes(*self, *session_id, generation)),
            |file: &ImageFile| -> (gone: bool)
                ensures
                    gone == goes(*self, *session_id, generation)(*file)
                {
                    is_unfinished(file) || match (&file.entry.name, type_in(file)) {
                        (Some(name), Some(media_type)) => readable && !holds_reference(
                            references,
                            name,
                            media_type,
                        ),
                        _ => false,
                    }
                },
        );
        ImageSweep { removed, diagnostic: gathered.diagnostic || suspect || missing }
    }
}

fn lacks_image(references: &Vec<ToolImageReference>, files: &Vec<ImageFile>) -> (result: bool)
    ensures
        result == exists|i: int|
            0 <= i < references@.len() && !some_row(
                files@,
                is_image((#[trigger] references@[i]).file_name@, references@[i].media_type),
            ),
{
    let mut i: usize = 0;
    while i < references.len()
        invariant
            i <= references@.len(),
            forall|k: int|
                0 <= k < i ==> some_row(
                    files@,
                    is_image((#[trigger] references@[k]).file_name@, references@[k].media_type),
                ),
        decreases references@.len() - i,
    {
        let name = &references[i].file_name;
        let media_type = references[i].media_type;
        if !any(
            files,
            Ghost(is_image(name@, media_type)),
            |file: &ImageFile| -> (found: bool)
                ensures
                    found == is_image(name@, media_type)(*file)
                {
                    match (&file.entry.name, type_in(file)) {
                        (Some(other), Some(found)) => found == media_type && *other == *name,
                        _ => false,
                    }
                },
        ) {
            assert(!some_row(
                files@,
                is_image(references@[i as int].file_name@, references@[i as int].media_type),
            ));
            return true;
        }
        i += 1;
    }
    false
}

fn listed_files<F: Fn(&ImageFile) -> bool>(
    files: &Vec<ImageFile>,
    Ghost(condition): Ghost<spec_fn(ImageFile) -> bool>,
    test: F,
) -> (names: Vec<String>)
    requires
        forall|file: &ImageFile| test.requires((file,)),
        forall|file: &ImageFile, passed: bool|
            test.ensures((file,), passed) ==> passed == condition(*file),
        forall|file: ImageFile| #[trigger] condition(file) ==> file.entry.name is Some,
    ensures
        names@ == kept(files@, condition).map_values(file_name()),
{
    let mut names: Vec<String> = Vec::new();
    let mut i: usize = 0;
    proof {
        assert(files@.take(0) =~= Seq::empty());
        assert(names@ =~= kept(files@.take(0), condition).map_values(file_name()));
    }
    while i < files.len()
        invariant
            i <= files@.len(),
            names@ == kept(files@.take(i as int), condition).map_values(file_name()),
            forall|file: &ImageFile| test.requires((file,)),
            forall|file: &ImageFile, passed: bool|
                test.ensures((file,), passed) ==> passed == condition(*file),
            forall|file: ImageFile| #[trigger] condition(file) ==> file.entry.name is Some,
        decreases files@.len() - i,
    {
        proof {
            assert(files@.take(i + 1).drop_last() =~= files@.take(i as int));
            assert(files@.take(i + 1).last() == files@[i as int]);
        }
        if test(&files[i]) {
            match &files[i].entry.name {
                Some(name) => {
                    let ghost earlier = kept(files@.take(i as int), condition);
                    names.push(name.clone());
                    proof {
                        assert(earlier.push(files@[i as int]).map_values(file_name())
                            =~= earlier.map_values(file_name()).push(*name));
                    }
                },
                None => {},
            }
        }
        i += 1;
    }
    proof {
        assert(files@.take(files@.len() as int) =~= files@);
    }
    names
}

/// An image that a conversation shows never goes.
pub proof fn shown_images_stay(
    engine: StorageEngine,
    session_id: String,
    generation: u64,
    file: ImageFile,
    media_type: ImageMediaType,
)
    requires
        image_in(file) == Some(media_type),
        session_shows(engine, session_id, generation, file.entry.name->0@, media_type),
    ensures
        !goes(engine, session_id, generation)(file),
{
    image_is_no_leftover(file);
}

proof fn image_is_no_leftover(file: ImageFile)
    requires
        image_in(file) is Some,
    ensures
        !is_leftover(file),
{
    let name = file.entry.name->0@;
    if has_suffix(name, ".part"@) {
        reveal_strlit(".part");
        reveal_strlit("jpg");
        reveal_strlit("png");
        reveal_strlit("webp");
        reveal_strlit("gif");
        let n = name.len() as int;
        let tail = name.skip(n - 5);
        assert(tail == ".part"@);
        assert(name[n - 1] == tail[4]);
        assert(name[n - 2] == tail[3]);
        assert(name[n - 3] == tail[2]);
        assert(name[n - 4] == tail[1]);
        assert(name[n - 5] == tail[0]);
        assert(last_place(name, '.', n - 4) == Some(n - 5));
        assert(last_place(name, '.', n - 3) == Some(n - 5));
        assert(last_place(name, '.', n - 2) == Some(n - 5));
        assert(last_place(name, '.', n - 1) == Some(n - 5));
        assert(last_place(name, '.', n) == Some(n - 5));
        let extension = extension_of(name)->0;
        assert(extension =~= name.skip(n - 4));
        assert(extension[0] == 'p' && extension[1] == 'a');
        assert(extension.len() == 4);
        assert("webp"@[0] == 'w');
    }
}

/// While some conversation of a session cannot be read, none of its images goes.
pub proof fn unreadable_conversations_keep_images(
    engine: StorageEngine,
    session_id: String,
    generation: u64,
    file: ImageFile,
)
    requires
        !all_readable(engine, session_id, generation),
        !is_leftover(file),
    ensures
        !goes(engine, session_id, generation)(file),
{
}

} // verus!
