//! File references of a conversation that moves to another session.

use std::sync::Arc;
use vstd::prelude::*;

use crate::conversation::RecordedMessage;
use crate::error::{conflict, conflicting, StorageResult};
use crate::message::{
    share, ConversationMessage, FileReference, FileReferencesPart, TextPart, UserMessage, UserPart,
};

verus! {

/// Where a file is read from instead.
#[derive(Debug, PartialEq, Eq)]
pub struct PathRewrite {
    pub from: String,
    pub to: String,
}

/// Where a path leads; the last rewrite of a path counts.
pub open spec fn mapped(rewrites: Seq<PathRewrite>, path: Seq<char>) -> Option<String>
    decreases rewrites.len(),
{
    if rewrites.len() == 0 {
        None
    } else if rewrites.last().from@ == path {
        Some(rewrites.last().to)
    } else {
        mapped(rewrites.drop_last(), path)
    }
}

/// Where a path leads.
pub fn lookup_path(rewrites: &Vec<PathRewrite>, path: &String) -> (target: Option<String>)
    ensures
        target == mapped(rewrites@, path@),
{
    let mut end: usize = rewrites.len();
    proof {
        assert(rewrites@.take(rewrites@.len() as int) =~= rewrites@);
    }
    while end > 0
        invariant
            end <= rewrites@.len(),
            mapped(rewrites@, path@) == mapped(rewrites@.take(end as int), path@),
        decreases end,
    {
        proof {
            assert(rewrites@.take(end as int).drop_last() =~= rewrites@.take(end - 1));
            assert(rewrites@.take(end as int).last() == rewrites@[end - 1]);
        }
        if rewrites[end - 1].from == *path {
            return Some(rewrites[end - 1].to.clone());
        }
        end -= 1;
    }
    proof {
        assert(rewrites@.take(0) =~= Seq::empty());
    }
    None
}

/// Every file of a part can be found.
pub open spec fn files_mapped(rewrites: Seq<PathRewrite>, files: Seq<FileReference>) -> bool {
    forall|i: int|
        0 <= i < files.len() ==> mapped(rewrites, (#[trigger] files[i]).readable_path@) is Some
}

/// Every file of a user's message can be found.
pub open spec fn parts_mapped(rewrites: Seq<PathRewrite>, parts: Seq<UserPart>) -> bool {
    forall|i: int|
        0 <= i < parts.len() ==> match #[trigger] parts[i] {
            UserPart::FileReferences(references) => files_mapped(rewrites, references.files@),
            _ => true,
        }
}

/// Every file of a message can be found.
pub open spec fn message_mapped(rewrites: Seq<PathRewrite>, message: ConversationMessage) -> bool {
    match message {
        ConversationMessage::User(user) => parts_mapped(rewrites, user.parts@),
        _ => true,
    }
}

/// Every file of a conversation can be found.
pub open spec fn all_mapped(
    rewrites: Seq<PathRewrite>,
    messages: Seq<Arc<RecordedMessage>>,
) -> bool {
    forall|i: int|
        0 <= i < messages.len() ==> message_mapped(rewrites, *(#[trigger] messages[i]).message)
}

/// A message that refers to files.
pub open spec fn refers_to_files(message: ConversationMessage) -> bool {
    match message {
        ConversationMessage::User(user) => exists|i: int|
            0 <= i < user.parts@.len() && #[trigger] user.parts@[i] is FileReferences,
        _ => false,
    }
}

/// Files that are read from where they are now.
pub open spec fn files_rewritten(
    rewrites: Seq<PathRewrite>,
    files: Seq<FileReference>,
    next: Seq<FileReference>,
) -> bool {
    &&& next.len() == files.len()
    &&& forall|i: int|
        0 <= i < next.len() ==> #[trigger] next[i] == (FileReference {
            original_name: files[i].original_name,
            readable_path: mapped(rewrites, files[i].readable_path@)->0,
        })
}

/// A part with its files read from where they are now.
pub open spec fn part_rewritten(
    rewrites: Seq<PathRewrite>,
    part: UserPart,
    next: UserPart,
) -> bool {
    match part {
        UserPart::FileReferences(references) => next is FileReferences
            && next->FileReferences_0.id == references.id && files_rewritten(
            rewrites,
            references.files@,
            next->FileReferences_0.files@,
        ),
        _ => next == part,
    }
}

/// A user's message with its files read from where they are now.
pub open spec fn user_rewritten(
    rewrites: Seq<PathRewrite>,
    user: UserMessage,
    next: UserMessage,
) -> bool {
    &&& next.id == user.id
    &&& next.origin == user.origin
    &&& next.transcript_visibility == user.transcript_visibility
    &&& next.parts@.len() == user.parts@.len()
    &&& forall|i: int|
        0 <= i < next.parts@.len() ==> part_rewritten(
            rewrites,
            user.parts@[i],
            #[trigger] next.parts@[i],
        )
}

/// A recorded message with its files read from where they are now. One without files is the same;
/// another is recorded as `encode` writes it.
pub open spec fn record_rewritten<E: Fn(&ConversationMessage) -> Vec<u8>>(
    rewrites: Seq<PathRewrite>,
    entry: Arc<RecordedMessage>,
    next: Arc<RecordedMessage>,
    encode: E,
) -> bool {
    if refers_to_files(*entry.message) {
        &&& *next.message is User
        &&& user_rewritten(rewrites, (*entry.message)->User_0, (*next.message)->User_0)
        &&& encode.ensures((&*next.message,), next.record)
    } else {
        next == entry
    }
}

/// A conversation with its files read from where they are now.
pub open spec fn batch_rewritten<E: Fn(&ConversationMessage) -> Vec<u8>>(
    rewrites: Seq<PathRewrite>,
    batch: Seq<Arc<RecordedMessage>>,
    next: Seq<Arc<RecordedMessage>>,
    encode: E,
) -> bool {
    &&& next.len() == batch.len()
    &&& forall|i: int|
        0 <= i < next.len() ==> record_rewritten(rewrites, batch[i], #[trigger] next[i], encode)
}

fn copied_text(part: &TextPart) -> (copy: TextPart)
    ensures
        copy == *part,
{
    TextPart { id: part.id.clone(), text: part.text.clone() }
}

fn rewrite_files(rewrites: &Vec<PathRewrite>, files: &Vec<FileReference>) -> (result: Option<
    Vec<FileReference>,
>)
    ensures
        match result {
            Some(next) => files_mapped(rewrites@, files@) && files_rewritten(
                rewrites@,
                files@,
                next@,
            ),
            None => !files_mapped(rewrites@, files@),
        },
{
    let mut next: Vec<FileReference> = Vec::new();
    let mut i: usize = 0;
    while i < files.len()
        invariant
            i <= files@.len(),
            next@.len() == i,
            forall|k: int|
                0 <= k < i ==> mapped(rewrites@, (#[trigger] files@[k]).readable_path@) is Some,
            forall|k: int|
                0 <= k < i ==> #[trigger] next@[k] == (FileReference {
                    original_name: files@[k].original_name,
                    readable_path: mapped(rewrites@, files@[k].readable_path@)->0,
                }),
        decreases files@.len() - i,
    {
        match lookup_path(rewrites, &files[i].readable_path) {
            Some(path) => next.push(
                FileReference {
                    original_name: files[i].original_name.clone(),
                    readable_path: path,
                },
            ),
            None => {
                assert(mapped(rewrites@, files@[i as int].readable_path@) is None);
                return None;
            },
        }
        i += 1;
    }
    Some(next)
}

fn rewrite_user(rewrites: &Vec<PathRewrite>, user: &UserMessage) -> (result: Option<UserMessage>)
    ensures
        match result {
            Some(next) => parts_mapped(rewrites@, user.parts@) && user_rewritten(
                rewrites@,
                *user,
                next,
            ),
            None => !parts_mapped(rewrites@, user.parts@),
        },
{
    let mut parts: Vec<UserPart> = Vec::new();
    let mut i: usize = 0;
    while i < user.parts.len()
        invariant
            i <= user.parts@.len(),
            parts@.len() == i,
            forall|k: int|
                0 <= k < i ==> match #[trigger] user.parts@[k] {
                    UserPart::FileReferences(references) => files_mapped(
                        rewrites@,
                        references.files@,
                    ),
                    _ => true,
                },
            forall|k: int|
                0 <= k < i ==> part_rewritten(rewrites@, user.parts@[k], #[trigger] parts@[k]),
        decreases user.parts@.len() - i,
    {
        let part = match &user.parts[i] {
            UserPart::FileReferences(references) => match rewrite_files(
                rewrites,
                &references.files,
            ) {
                Some(files) => UserPart::FileReferences(
                    FileReferencesPart { id: references.id.clone(), files },
                ),
                None => {
                    assert(user.parts@[i as int] is FileReferences);
                    return None;
                },
            },
            UserPart::Text(part) => UserPart::Text(copied_text(part)),
            UserPart::Injected(part) => UserPart::Injected(copied_text(part)),
            UserPart::InternalContext(part) => UserPart::InternalContext(copied_text(part)),
        };
        parts.push(part);
        i += 1;
    }
    Some(
        UserMessage {
            id: user.id.clone(),
            origin: user.origin,
            transcript_visibility: user.transcript_visibility,
            parts,
        },
    )
}

fn has_files(user: &UserMessage) -> (result: bool)
    ensures
        result == refers_to_files(ConversationMessage::User(*user)),
{
    let mut i: usize = 0;
    while i < user.parts.len()
        invariant
            i <= user.parts@.len(),
            forall|k: int| 0 <= k < i ==> !(#[trigger] user.parts@[k] is FileReferences),
        decreases user.parts@.len() - i,
    {
        if matches!(user.parts[i], UserPart::FileReferences(_)) {
            assert(user.parts@[i as int] is FileReferences);
            return true;
        }
        i += 1;
    }
    false
}

/// Lets the files of a conversation be read from where they are now. A file that is nowhere to be
/// found refuses the conversation.
pub fn rewrite_file_reference_paths<E: Fn(&ConversationMessage) -> Vec<u8>>(
    batch: &Vec<Arc<RecordedMessage>>,
    rewrites: &Vec<PathRewrite>,
    encode: &E,
) -> (result: StorageResult<Vec<Arc<RecordedMessage>>>)
    requires
        forall|message: &ConversationMessage| encode.requires((message,)),
    ensures
        match result {
            Ok(next) => all_mapped(rewrites@, batch@) && batch_rewritten(
                rewrites@,
                batch@,
                next@,
                *encode,
            ),
            Err(error) => !all_mapped(rewrites@, batch@) && error@ == conflicting(
                "fork conversation references an unmapped attachment"@,
            ),
        },
{
    let mut next: Vec<Arc<RecordedMessage>> = Vec::new();
    let mut i: usize = 0;
    while i < batch.len()
        invariant
            i <= batch@.len(),
            next@.len() == i,
            forall|message: &ConversationMessage| encode.requires((message,)),
            forall|k: int|
                0 <= k < i ==> message_mapped(rewrites@, *(#[trigger] batch@[k]).message),
            forall|k: int|
                0 <= k < i ==> record_rewritten(
                    rewrites@,
                    batch@[k],
                    #[trigger] next@[k],
                    *encode,
                ),
        decreases batch@.len() - i,
    {
        let entry = share(&batch[i]);
        match &*entry.message {
            ConversationMessage::User(user) => {
                if has_files(user) {
                    match rewrite_user(rewrites, user) {
                        Some(user) => {
                            let message = ConversationMessage::User(user);
                            let record = encode(&message);
                            next.push(
                                Arc::new(RecordedMessage { record, message: Arc::new(message) }),
                            );
                        },
                        None => {
                            assert(!message_mapped(rewrites@, *batch@[i as int].message));
                            return Err(
                                conflict("fork conversation references an unmapped attachment"),
                            );
                        },
                    }
                } else {
                    proof {
                        assert(parts_mapped(rewrites@, user.parts@)) by {
                            assert forall|k: int| 0 <= k < user.parts@.len() implies match
                                #[trigger] user.parts@[k] {
                                UserPart::FileReferences(references) => files_mapped(
                                    rewrites@,
                                    references.files@,
                                ),
                                _ => true,
                            } by {
                                if user.parts@[k] is FileReferences {
                                    assert(refers_to_files(ConversationMessage::User(*user)));
                                }
                            }
                        }
                    }
                    next.push(share(&entry));
                }
            },
            _ => {
                next.push(share(&entry));
            },
        }
        i += 1;
    }
    Ok(next)
}

} // verus!
