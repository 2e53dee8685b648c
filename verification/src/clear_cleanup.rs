//! Which files go once a conversation is emptied.
//!
//! Only what is known to belong to the old conversation goes. Anything that cannot be recognised
//! stops the cleanup before the first file is touched.

use vstd::prelude::*;

use crate::engine::{is_path_component, path_component};
use crate::error::{corrupt, invalid_data, invalid_input, malformed, Refusal, StorageResult};
use crate::table::{any, check_each, first_refusal, kept, kept_rows, nothing_refused, some_row};
use crate::text::{
    between, decimal, decimal_digits_value, decimal_text, ends_with, has_suffix, optional_text,
    parse_unsigned, strip, unsigned_value,
};
use crate::tool_images::{image_type_of, media_type_of};

verus! {

/// What a directory entry is.
#[derive(Clone, Copy, Debug, PartialEq, Eq, Structural)]
pub enum EntryKind {
    File,
    Directory,
    Other,
}

/// An entry of a directory, without its name where that is no text.
#[derive(Debug)]
pub struct DirectoryEntry {
    pub name: Option<String>,
    pub kind: EntryKind,
}

/// An entry among the delegated tasks of a session, with the entries below it.
#[derive(Debug)]
pub struct ChildEntry {
    pub entry: DirectoryEntry,
    pub bodies: Vec<DirectoryEntry>,
}

/// An entry among the tool images of a session, with whether images may have such a name.
#[derive(Debug)]
pub struct ImageEntry {
    pub entry: DirectoryEntry,
    pub accepted: bool,
}

/// The place where a session keeps its delegated tasks.
#[derive(Debug)]
pub enum ChildrenListing {
    Absent,
    NotADirectory,
    Entries(Vec<ChildEntry>),
}

/// The files of a session.
#[derive(Debug)]
pub struct SessionListing {
    pub entries: Vec<DirectoryEntry>,
    pub children: ChildrenListing,
    pub tool_images: Vec<ImageEntry>,
}

/// A delegated task that goes, with its bodies.
#[derive(Debug, PartialEq, Eq)]
pub struct ChildRemoval {
    pub name: String,
    pub bodies: Vec<String>,
}

/// The files that go, by their names.
#[derive(Debug)]
pub struct CleanupPlan {
    pub old_bodies: Vec<String>,
    pub children: Vec<ChildRemoval>,
    pub tool_images: Vec<String>,
}

/// A number that counts from one, in the notation that file names use.
pub open spec fn generation_in(text: Seq<char>) -> Option<u64> {
    match unsigned_value(text) {
        Some(value) => if value > 0 {
            Some(value)
        } else {
            None
        },
        None => None,
    }
}

fn parse_generation(text: &str) -> (value: Option<u64>)
    ensures
        value == generation_in(text@),
{
    match parse_unsigned(text) {
        Some(value) => if value > 0 {
            Some(value)
        } else {
            None
        },
        None => None,
    }
}

/// What stands for the generation in the name of a conversation body.
pub open spec fn body_part(name: Seq<char>) -> Option<Seq<char>> {
    between(name, "conversation."@, ".jsonl"@)
}

/// What stands for the generation in the name of a delegated task's body.
pub open spec fn child_body_part(name: Seq<char>) -> Option<Seq<char>> {
    between(name, "body-"@, ".jsonl"@)
}

/// The name of a conversation body.
pub open spec fn body_name(generation: u64) -> Seq<char> {
    "conversation."@ + decimal(generation as nat) + ".jsonl"@
}

/// Why an entry of a session's directory stops the cleanup.
pub open spec fn entry_refusal(entry: DirectoryEntry) -> Option<Refusal> {
    match entry.name {
        None => Some(corrupt("clear session entry name is invalid"@)),
        Some(name) => match body_part(name@) {
            None => None,
            Some(part) => if generation_in(part) is None {
                Some(corrupt("clear conversation file name is invalid"@))
            } else if !(entry.kind is File) {
                Some(corrupt("clear conversation path is not a regular file"@))
            } else {
                None
            },
        },
    }
}

/// The condition of being a body other than the one that counts.
pub open spec fn is_old_body(result_generation: u64) -> spec_fn(DirectoryEntry) -> bool {
    |entry: DirectoryEntry|
        match entry.name {
            Some(name) => match body_part(name@) {
                Some(part) => generation_in(part) is Some && generation_in(part)
                    != Some(result_generation),
                None => false,
            },
            None => false,
        }
}

/// The condition of being the body that counts.
pub open spec fn is_current_body(result_generation: u64) -> spec_fn(DirectoryEntry) -> bool {
    |entry: DirectoryEntry|
        entry.kind is File && optional_text(entry.name) == Some(body_name(result_generation))
}

/// Why an entry below a delegated task stops the cleanup.
pub open spec fn child_body_refusal(entry: DirectoryEntry) -> Option<Refusal> {
    match entry.name {
        None => Some(corrupt("clear child body name is invalid"@)),
        Some(name) => match child_body_part(name@) {
            None => Some(corrupt("clear child body name is invalid"@)),
            Some(part) => if generation_in(part) is None {
                Some(corrupt("clear child body name is invalid"@))
            } else if !(entry.kind is File) {
                Some(corrupt("clear child body is not a regular file"@))
            } else {
                None
            },
        },
    }
}

/// The reasons that entries below a delegated task stop the cleanup.
pub open spec fn child_body_refusals() -> spec_fn(DirectoryEntry) -> Option<Refusal> {
    |entry: DirectoryEntry| child_body_refusal(entry)
}

/// Why a delegated task stops the cleanup.
pub open spec fn child_refusal(child: ChildEntry) -> Option<Refusal> {
    match child.entry.name {
        None => Some(corrupt("clear child id is invalid"@)),
        Some(name) => if !path_component(name@) {
            Some(malformed("child task id is not a directory name"@))
        } else if !(child.entry.kind is Directory) {
            Some(corrupt("clear child path is not a directory"@))
        } else {
            first_refusal(child.bodies@, child_body_refusals())
        },
    }
}

/// Why a tool image stops the cleanup. What a tool was still writing goes too.
pub open spec fn image_refusal(image: ImageEntry) -> Option<Refusal> {
    match image.entry.name {
        None => Some(corrupt("clear tool image name is invalid"@)),
        Some(name) => if !has_suffix(name@, ".part"@) && !(image.accepted && image_type_of(
            name@,
        ) is Some) {
            Some(corrupt("clear tool image name is invalid"@))
        } else if !(image.entry.kind is File) {
            Some(corrupt("clear tool image is not a regular file"@))
        } else {
            None
        },
    }
}

/// The reasons that entries stop the cleanup.
pub open spec fn entry_refusals() -> spec_fn(DirectoryEntry) -> Option<Refusal> {
    |entry: DirectoryEntry| entry_refusal(entry)
}

pub open spec fn child_refusals() -> spec_fn(ChildEntry) -> Option<Refusal> {
    |child: ChildEntry| child_refusal(child)
}

pub open spec fn image_refusals() -> spec_fn(ImageEntry) -> Option<Refusal> {
    |image: ImageEntry| image_refusal(image)
}

/// Why the files of a session cannot be cleaned up.
pub open spec fn cleanup_refusal(listing: SessionListing, result_generation: u64) -> Option<
    Refusal,
> {
    if first_refusal(listing.entries@, entry_refusals()) is Some {
        first_refusal(listing.entries@, entry_refusals())
    } else if !some_row(listing.entries@, is_current_body(result_generation)) {
        Some(corrupt("clear authoritative conversation file is missing"@))
    } else {
        let children = match listing.children {
            ChildrenListing::Absent => None,
            ChildrenListing::NotADirectory => Some(
                corrupt("clear child path is not a directory"@),
            ),
            ChildrenListing::Entries(children) => first_refusal(children@, child_refusals()),
        };
        if children is Some {
            children
        } else {
            first_refusal(listing.tool_images@, image_refusals())
        }
    }
}

/// The name of an entry that has one.
pub open spec fn entry_name() -> spec_fn(DirectoryEntry) -> String {
    |entry: DirectoryEntry| entry.name->0
}

pub open spec fn image_name() -> spec_fn(ImageEntry) -> String {
    |image: ImageEntry| image.entry.name->0
}

pub open spec fn any_entry() -> spec_fn(DirectoryEntry) -> bool {
    |entry: DirectoryEntry| entry.name is Some
}

pub open spec fn any_image() -> spec_fn(ImageEntry) -> bool {
    |image: ImageEntry| image.entry.name is Some
}

/// The delegated tasks that go: all of them, each with all its bodies.
pub open spec fn removes_children(children: Seq<ChildEntry>, removals: Seq<ChildRemoval>) -> bool {
    &&& removals.len() == children.len()
    &&& forall|i: int|
        0 <= i < removals.len() ==> (#[trigger] removals[i]).name == children[i].entry.name->0
            && removals[i].bodies@ == kept(children[i].bodies@, any_entry()).map_values(
            entry_name(),
        )
}

/// The files that go: every body but the one that counts, every delegated task, every tool image.
pub open spec fn is_cleanup(
    listing: SessionListing,
    result_generation: u64,
    plan: CleanupPlan,
) -> bool {
    &&& plan.old_bodies@ == kept(listing.entries@, is_old_body(result_generation)).map_values(
        entry_name(),
    )
    &&& removes_children(
        match listing.children {
            ChildrenListing::Entries(children) => children@,
            _ => Seq::empty(),
        },
        plan.children@,
    )
    &&& plan.tool_images@ == kept(listing.tool_images@, any_image()).map_values(image_name())
}

fn check_entry(entry: &DirectoryEntry) -> (result: StorageResult<()>)
    ensures
        match entry_refusal(*entry) {
            Some(error) => result is Err && result->Err_0@ == error,
            None => result is Ok,
        },
{
    let name = match &entry.name {
        Some(name) => name,
        None => {
            return Err(invalid_data("clear session entry name is invalid"));
        },
    };
    match strip(name.as_str(), "conversation.", ".jsonl") {
        None => {},
        Some(part) => {
            if parse_generation(part.as_str()).is_none() {
                return Err(invalid_data("clear conversation file name is invalid"));
            }
            if !matches!(entry.kind, EntryKind::File) {
                return Err(invalid_data("clear conversation path is not a regular file"));
            }
        },
    }
    Ok(())
}

fn check_child_body(entry: &DirectoryEntry) -> (result: StorageResult<()>)
    ensures
        match child_body_refusal(*entry) {
            Some(error) => result is Err && result->Err_0@ == error,
            None => result is Ok,
        },
{
    let name = match &entry.name {
        Some(name) => name,
        None => {
            return Err(invalid_data("clear child body name is invalid"));
        },
    };
    match strip(name.as_str(), "body-", ".jsonl") {
        None => {
            return Err(invalid_data("clear child body name is invalid"));
        },
        Some(part) => {
            if parse_generation(part.as_str()).is_none() {
                return Err(invalid_data("clear child body name is invalid"));
            }
            if !matches!(entry.kind, EntryKind::File) {
                return Err(invalid_data("clear child body is not a regular file"));
            }
        },
    }
    Ok(())
}

fn check_child(child: &ChildEntry) -> (result: StorageResult<()>)
    ensures
        match child_refusal(*child) {
            Some(error) => result is Err && result->Err_0@ == error,
            None => result is Ok,
        },
{
    let name = match &child.entry.name {
        Some(name) => name,
        None => {
            return Err(invalid_data("clear child id is invalid"));
        },
    };
    if !is_path_component(name.as_str()) {
        return Err(invalid_input("child task id is not a directory name"));
    }
    if !matches!(child.entry.kind, EntryKind::Directory) {
        return Err(invalid_data("clear child path is not a directory"));
    }
    check_each(
        &child.bodies,
        Ghost(child_body_refusals()),
        |entry: &DirectoryEntry| -> (result: StorageResult<()>)
            ensures
                match child_body_refusal(*entry) {
                    Some(error) => result is Err && result->Err_0@ == error,
                    None => result is Ok,
                }
            { check_child_body(entry) },
    )
}

fn check_image(image: &ImageEntry) -> (result: StorageResult<()>)
    ensures
        match image_refusal(*image) {
            Some(error) => result is Err && result->Err_0@ == error,
            None => result is Ok,
        },
{
    let name = match &image.entry.name {
        Some(name) => name,
        None => {
            return Err(invalid_data("clear tool image name is invalid"));
        },
    };
    if !ends_with(name.as_str(), ".part") && !(image.accepted && media_type_of(
        name.as_str(),
    ).is_some()) {
        return Err(invalid_data("clear tool image name is invalid"));
    }
    if !matches!(image.entry.kind, EntryKind::File) {
        return Err(invalid_data("clear tool image is not a regular file"));
    }
    Ok(())
}

fn names_of(entries: &Vec<DirectoryEntry>) -> (names: Vec<String>)
    ensures
        names@ == kept(entries@, any_entry()).map_values(entry_name()),
{
    listed_names(
        entries,
        Ghost(any_entry()),
        |entry: &DirectoryEntry| -> (named: bool)
            ensures
                named == (entry.name is Some)
            { entry.name.is_some() },
    )
}

fn listed_names<F: Fn(&DirectoryEntry) -> bool>(
    entries: &Vec<DirectoryEntry>,
    Ghost(condition): Ghost<spec_fn(DirectoryEntry) -> bool>,
    test: F,
) -> (names: Vec<String>)
    requires
        forall|entry: &DirectoryEntry| test.requires((entry,)),
        forall|entry: &DirectoryEntry, passed: bool|
            test.ensures((entry,), passed) ==> passed == condition(*entry),
        forall|entry: DirectoryEntry| #[trigger] condition(entry) ==> entry.name is Some,
    ensures
        names@ == kept(entries@, condition).map_values(entry_name()),
{
    let mut names: Vec<String> = Vec::new();
    let mut i: usize = 0;
    proof {
        assert(entries@.take(0) =~= Seq::empty());
        assert(names@ =~= kept(entries@.take(0), condition).map_values(entry_name()));
    }
    while i < entries.len()
        invariant
            i <= entries@.len(),
            names@ == kept(entries@.take(i as int), condition).map_values(entry_name()),
            forall|entry: &DirectoryEntry| test.requires((entry,)),
            forall|entry: &DirectoryEntry, passed: bool|
                test.ensures((entry,), passed) ==> passed == condition(*entry),
            forall|entry: DirectoryEntry| #[trigger] condition(entry) ==> entry.name is Some,
        decreases entries@.len() - i,
    {
        proof {
            assert(entries@.take(i + 1).drop_last() =~= entries@.take(i as int));
            assert(entries@.take(i + 1).last() == entries@[i as int]);
        }
        if test(&entries[i]) {
            match &entries[i].name {
                Some(name) => {
                    let ghost earlier = kept(entries@.take(i as int), condition);
                    names.push(name.clone());
                    proof {
                        assert(earlier.push(entries@[i as int]).map_values(entry_name())
                            =~= earlier.map_values(entry_name()).push(*name));
                    }
                },
                None => {},
            }
        }
        i += 1;
    }
    proof {
        assert(entries@.take(entries@.len() as int) =~= entries@);
    }
    names
}

fn image_names(images: &Vec<ImageEntry>) -> (names: Vec<String>)
    ensures
        names@ == kept(images@, any_image()).map_values(image_name()),
{
    let mut names: Vec<String> = Vec::new();
    let ghost condition = any_image();
    let mut i: usize = 0;
    proof {
        assert(images@.take(0) =~= Seq::empty());
        assert(names@ =~= kept(images@.take(0), condition).map_values(image_name()));
    }
    while i < images.len()
        invariant
            i <= images@.len(),
            condition == any_image(),
            names@ == kept(images@.take(i as int), condition).map_values(image_name()),
        decreases images@.len() - i,
    {
        proof {
            assert(images@.take(i + 1).drop_last() =~= images@.take(i as int));
            assert(images@.take(i + 1).last() == images@[i as int]);
        }
        match &images[i].entry.name {
            Some(name) => {
                let ghost earlier = kept(images@.take(i as int), condition);
                names.push(name.clone());
                proof {
                    assert(earlier.push(images@[i as int]).map_values(image_name())
                        =~= earlier.map_values(image_name()).push(*name));
                }
            },
            None => {},
        }
        i += 1;
    }
    proof {
        assert(images@.take(images@.len() as int) =~= images@);
    }
    names
}

fn removals_of(children: &Vec<ChildEntry>) -> (removals: Vec<ChildRemoval>)
    requires
        first_refusal(children@, child_refusals()) is None,
    ensures
        removes_children(children@, removals@),
{
    proof {
        nothing_refused(children@, child_refusals());
    }
    let mut removals: Vec<ChildRemoval> = Vec::new();
    let mut i: usize = 0;
    while i < children.len()
        invariant
            i <= children@.len(),
            removals@.len() == i,
            forall|k: int|
                0 <= k < children@.len() ==> child_refusals()(#[trigger] children@[k]) is None,
            forall|k: int|
                0 <= k < i ==> (#[trigger] removals@[k]).name == children@[k].entry.name->0
                    && removals@[k].bodies@ == kept(
                    children@[k].bodies@,
                    any_entry(),
                ).map_values(entry_name()),
        decreases children@.len() - i,
    {
        let child = &children[i];
        assert(child_refusals()(children@[i as int]) is None);
        match &child.entry.name {
            Some(name) => removals.push(
                ChildRemoval { name: name.clone(), bodies: names_of(&child.bodies) },
            ),
            None => {},
        }
        i += 1;
    }
    removals
}

/// The files that go once the conversation of a session is emptied, or why none may.
pub fn cleanup_cleared_session_files(listing: &SessionListing, result_generation: u64) -> (result:
    StorageResult<CleanupPlan>)
    ensures
        match cleanup_refusal(*listing, result_generation) {
            Some(error) => result is Err && result->Err_0@ == error,
            None => result is Ok && is_cleanup(*listing, result_generation, result->Ok_0),
        },
{
    match check_each(
        &listing.entries,
        Ghost(entry_refusals()),
        |entry: &DirectoryEntry| -> (result: StorageResult<()>)
            ensures
                match entry_refusal(*entry) {
                    Some(error) => result is Err && result->Err_0@ == error,
                    None => result is Ok,
                }
            { check_entry(entry) },
    ) {
        Ok(_) => {},
        Err(error) => {
            return Err(error);
        },
    }
    let mut current = "conversation.".to_owned();
    current.append(decimal_text(result_generation).as_str());
    current.append(".jsonl");
    if !any(
        &listing.entries,
        Ghost(is_current_body(result_generation)),
        |entry: &DirectoryEntry| -> (found: bool)
            ensures
                found == is_current_body(result_generation)(*entry)
            {
                match &entry.name {
                    Some(name) => matches!(entry.kind, EntryKind::File) && *name == current,
                    None => false,
                }
            },
    ) {
        return Err(invalid_data("clear authoritative conversation file is missing"));
    }
    let children = match &listing.children {
        ChildrenListing::Absent => Vec::new(),
        ChildrenListing::NotADirectory => {
            return Err(invalid_data("clear child path is not a directory"));
        },
        ChildrenListing::Entries(children) => {
            match check_each(
                children,
                Ghost(child_refusals()),
                |child: &ChildEntry| -> (result: StorageResult<()>)
                    ensures
                        match child_refusal(*child) {
                            Some(error) => result is Err && result->Err_0@ == error,
                            None => result is Ok,
                        }
                    { check_child(child) },
            ) {
                Ok(_) => {},
                Err(error) => {
                    return Err(error);
                },
            }
            removals_of(children)
        },
    };
    match check_each(
        &listing.tool_images,
        Ghost(image_refusals()),
        |image: &ImageEntry| -> (result: StorageResult<()>)
            ensures
                match image_refusal(*image) {
                    Some(error) => result is Err && result->Err_0@ == error,
                    None => result is Ok,
                }
            { check_image(image) },
    ) {
        Ok(_) => {},
        Err(error) => {
            return Err(error);
        },
    }
    let old_bodies = listed_names(
        &listing.entries,
        Ghost(is_old_body(result_generation)),
        |entry: &DirectoryEntry| -> (old: bool)
            ensures
                old == is_old_body(result_generation)(*entry)
            {
                match &entry.name {
                    Some(name) => match strip(name.as_str(), "conversation.", ".jsonl") {
                        Some(part) => match parse_generation(part.as_str()) {
                            Some(generation) => generation != result_generation,
                            None => false,
                        },
                        None => false,
                    },
                    None => false,
                }
            },
    );
    Ok(CleanupPlan { old_bodies, children, tool_images: image_names(&listing.tool_images) })
}

/// The body that counts is never among the files that go.
pub proof fn cleanup_spares_the_current_body(
    listing: SessionListing,
    result_generation: u64,
    plan: CleanupPlan,
    i: int,
)
    requires
        result_generation > 0,
        is_cleanup(listing, result_generation, plan),
        0 <= i < plan.old_bodies@.len(),
    ensures
        plan.old_bodies@[i]@ != body_name(result_generation),
{
    let condition = is_old_body(result_generation);
    let old = kept(listing.entries@, condition);
    kept_rows(listing.entries@, condition);
    assert(condition(old[i]));
    let name = old[i].name->0@;
    if name == body_name(result_generation) {
        let prefix = "conversation."@;
        let suffix = ".jsonl"@;
        let digits = decimal(result_generation as nat);
        assert(name.take(prefix.len() as int) =~= prefix);
        let rest = name.skip(prefix.len() as int);
        assert(rest =~= digits + suffix);
        assert(rest.skip(rest.len() - suffix.len()) =~= suffix);
        assert(name.subrange(prefix.len() as int, name.len() - suffix.len()) =~= digits);
        decimal_is_read_back(result_generation);
    }
}

/// The decimal notation of a number is read as that number.
pub proof fn decimal_is_read_back(n: u64)
    ensures
        unsigned_value(decimal(n as nat)) == Some(n),
{
    decimal_digits_value(n as nat);
}

} // verus!
