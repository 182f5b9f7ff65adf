//! The ComfyUI workflows that requests name, and their loading from a folder.
use vstd::prelude::*;

use crate::json::{Json, JsonTree};
use crate::proxy::prefixed;
use crate::text::{characters, equals_ignoring_ascii_case, same_text};

verus! {

/// Workflow definitions by name.
pub struct Workflows {
    entries: Vec<Workflow>,
}

struct Workflow {
    name: String,
    definition: Json,
}

impl Workflows {
    /// No name occurs twice.
    #[verifier::type_invariant]
    spec fn distinct(self) -> bool {
        forall|i: int, j: int|
            0 <= i < j < self.entries@.len() ==> (#[trigger] self.entries@[i]).name@ != (
            #[trigger] self.entries@[j]).name@
    }

    spec fn names(self, name: Seq<char>) -> bool {
        exists|i: int| 0 <= i < self.entries@.len() && (#[trigger] self.entries@[i]).name@ == name
    }

    spec fn place(self, name: Seq<char>) -> int {
        choose|i: int| 0 <= i < self.entries@.len() && (#[trigger] self.entries@[i]).name@ == name
    }

    /// The definitions by name.
    pub closed spec fn definitions(self) -> Map<Seq<char>, JsonTree> {
        Map::new(
            |name: Seq<char>| self.names(name),
            |name: Seq<char>| self.entries@[self.place(name)].definition@,
        )
    }
}

impl View for Workflows {
    type V = Map<Seq<char>, JsonTree>;

    open spec fn view(&self) -> Map<Seq<char>, JsonTree> {
        self.definitions()
    }
}

impl Workflows {
    /// No workflows.
    pub fn new() -> (workflows: Workflows)
        ensures
            workflows@ == Map::<Seq<char>, JsonTree>::empty(),
    {
        let workflows = Workflows { entries: Vec::new() };
        assert(workflows@ =~= Map::<Seq<char>, JsonTree>::empty());
        workflows
    }

    /// The place of a name, or the number of workflows where it is not among them.
    fn find(&self, name: &str) -> (place: usize)
        ensures
            place <= self.entries@.len(),
            place < self.entries@.len() <==> self.names(name@),
            place < self.entries@.len() ==> self.entries@[place as int].name@ == name@ && place
                == self.place(name@),
    {
        proof {
            use_type_invariant(self);
        }
        let mut place: usize = 0;
        while place < self.entries.len()
            invariant
                place <= self.entries@.len(),
                forall|i: int| 0 <= i < place ==> (#[trigger] self.entries@[i]).name@ != name@,
                self.distinct(),
            decreases self.entries.len() - place,
        {
            if same_text(self.entries[place].name.as_str(), name) {
                return place;
            }
            place = place + 1;
        }
        place
    }

    /// The definition of a workflow.
    pub fn get(&self, name: &str) -> (result: Option<&Json>)
        ensures
            match result {
                Some(definition) => self@.contains_key(name@) && self@[name@] == definition@,
                None => !self@.contains_key(name@),
            },
    {
        let place = self.find(name);
        if place < self.entries.len() {
            Some(&self.entries[place].definition)
        } else {
            None
        }
    }

    /// Sets the definition of a workflow, in place of the one that had the name.
    pub fn insert(&mut self, name: String, definition: Json)
        ensures
            final(self)@ == old(self)@.insert(name@, definition@),
    {
        let place = self.find(name.as_str());
        proof {
            use_type_invariant(&*self);
        }
        let ghost before = *self;
        let ghost wanted = before@.insert(name@, definition@);
        let ghost added = name@;
        let mut entries: Vec<Workflow> = Vec::new();
        std::mem::swap(&mut entries, &mut self.entries);
        if place < entries.len() {
            entries.set(place, Workflow { name, definition });
        } else {
            entries.push(Workflow { name, definition });
        }
        self.entries = entries;
        proof {
            use_type_invariant(&*self);
            let after = *self;
            assert forall|other: Seq<char>| after.names(other) == wanted.contains_key(other) by {
                if before.names(other) {
                    assert(after.entries@[before.place(other)].name@ == other);
                }
                if after.names(other) && other != added {
                    assert(before.entries@[after.place(other)].name@ == other);
                }
                assert(after.entries@[place as int].name@ == added);
            }
            assert forall|other: Seq<char>| after.names(other) implies after.entries@[after.place(
                other,
            )].definition@ == wanted[other] by {
                if other == added {
                    assert(after.place(other) == place);
                } else {
                    assert(before.entries@[after.place(other)].name@ == other);
                    assert(before.place(other) == after.place(other));
                }
            }
            assert(after@ =~= wanted);
        }
    }
}

/// An entry of a folder, as it was read.
pub enum FolderEntry {
    /// The entry itself could not be read, for the reason given.
    Unreadable(String),
    /// A file or a folder.
    File(FolderFile),
}

/// A file in a folder.
pub struct FolderFile {
    /// The path for messages
    pub path: String,
    /// The path in quotes, for messages
    pub quoted_path: String,
    /// The name within the folder
    pub name: FileName,
    /// The contents, or why they could not be read
    pub content: Result<String, String>,
}

/// The name of a file.
pub enum FileName {
    /// A name that is Unicode
    Unicode(String),
    /// A name that is not, with what follows its last dot where there is one and that is
    Other {
        extension: Option<String>,
    },
}

/// What was found under the path of a folder.
pub enum FolderListing {
    /// Nothing
    Missing,
    /// Something that is no folder
    NotAFolder,
    /// A folder that could not be read, for the reason given
    Unreadable(String),
    /// A folder with its entries, in the order in which they were read
    Entries(Vec<FolderEntry>),
}

/// A name, parted at its last dot into stem and extension. A dot at the very front parts nothing.
pub open spec fn name_parts(name: Seq<char>) -> (Seq<char>, Option<Seq<char>>) {
    match name.index_of_last('.') {
        Some(dot) => if dot == 0 || name == ".."@ {
            (name, None)
        } else {
            (name.take(dot), Some(name.skip(dot + 1)))
        },
        None => (name, None),
    }
}

/// The extension of a file, where it has one and it is Unicode.
pub open spec fn extension_of(name: FileName) -> Option<Seq<char>> {
    match name {
        FileName::Unicode(name) => name_parts(name@).1,
        FileName::Other { extension: Some(extension) } => Some(extension@),
        FileName::Other { extension: None } => None,
    }
}

/// The name of a file without the extension, where the name is Unicode.
pub open spec fn stem_of(name: FileName) -> Option<Seq<char>> {
    match name {
        FileName::Unicode(name) => Some(name_parts(name@).0),
        FileName::Other { .. } => None,
    }
}

/// The file is a workflow: its extension is `json` in any case.
pub open spec fn is_workflow_file(name: FileName) -> bool {
    extension_of(name) matches Some(extension) && crate::text::same_ignoring_ascii_case(
        extension,
        "json"@,
    )
}

/// A file name that ends in a dot and an extension without one is parted there, unless the name is
/// nothing but two dots.
pub proof fn stem_stands_before_extension(stem: Seq<char>, extension: Seq<char>)
    requires
        stem.len() > 0,
        !extension.contains('.'),
        stem + seq!['.'] + extension != ".."@,
    ensures
        name_parts(stem + seq!['.'] + extension) == (stem, Some(extension)),
{
    let name = stem + seq!['.'] + extension;
    let dot = stem.len() as int;
    assert(name[dot] == '.');
    name.index_of_last_ensures('.');
    let found = name.index_of_last('.')->0;
    if found > dot {
        assert(extension[found - dot - 1] == '.');
    }
    assert(name.take(dot) =~= stem);
    assert(name.skip(dot + 1) =~= extension);
}

/// A file whose name is a stem and `.json` is loaded as the workflow of that stem.
pub proof fn workflow_is_named_after_file(file: FolderFile, stem: Seq<char>)
    requires
        file.name matches FileName::Unicode(name) && name@ == stem + ".json"@,
        stem.len() > 0,
    ensures
        workflow_name(FolderEntry::File(file)) == Some(stem),
{
    reveal_strlit(".json");
    reveal_strlit("json");
    assert(".json"@ =~= seq!['.'] + "json"@);
    assert(stem + ".json"@ =~= stem + seq!['.'] + "json"@);
    reveal_strlit("..");
    assert((stem + ".json"@).len() > ".."@.len());
    stem_stands_before_extension(stem, "json"@);
}

/// Parts a name at its last dot into stem and extension.
fn split_name(name: &str) -> (parts: (String, Option<String>))
    ensures
        parts.0@ == name_parts(name@).0,
        match parts.1 {
            Some(extension) => name_parts(name@).1 == Some(extension@),
            None => name_parts(name@).1 is None,
        },
{
    let chars = characters(name);
    let len = chars.len();
    let mut after: usize = len;
    while after > 0 && chars[after - 1] != '.'
        invariant
            after <= len,
            len == chars@.len(),
            chars@ == name@,
            forall|i: int| after <= i < len ==> chars@[i] != '.',
        decreases after,
    {
        after = after - 1;
    }
    proof {
        name@.index_of_last_ensures('.');
        if after > 0 {
            assert(name@[after - 1] == '.');
            assert(name@.index_of_last('.') == Some(after - 1));
        }
    }
    if after <= 1 || same_text(name, "..") {
        return (name.to_owned(), None);
    }
    assert(name@.subrange(0, after - 1) =~= name@.take(after - 1));
    assert(name@.subrange(after as int, len as int) =~= name@.skip(after as int));
    (name.substring_char(0, after - 1).to_owned(), Some(name.substring_char(after, len).to_owned()))
}

/// The workflows after one more entry, or the message with which loading ends.
pub open spec fn after_entry(
    workflows: Map<Seq<char>, JsonTree>,
    entry: FolderEntry,
) -> Result<Map<Seq<char>, JsonTree>, Seq<char>> {
    match entry {
        FolderEntry::Unreadable(reason) => Err("Failed to read directory entry: "@ + reason@),
        FolderEntry::File(file) => if !is_workflow_file(file.name) {
            Ok(workflows)
        } else if stem_of(file.name) is None {
            Err("Failed to get filename for: "@ + file.quoted_path@)
        } else {
            match file.content {
                Err(reason) => Err("Failed to read JSON file "@ + file.path@ + ": "@ + reason@),
                Ok(text) => match crate::document::parsed_json_text(text@) {
                    Err(reason) => Err("Failed to parse JSON from "@ + file.path@ + ": "@ + reason),
                    Ok(tree) => Ok(workflows.insert(stem_of(file.name)->0, tree)),
                },
            }
        },
    }
}

/// The workflows among entries, or the message for the first entry that cannot be loaded.
pub open spec fn after_entries(entries: Seq<FolderEntry>) -> Result<
    Map<Seq<char>, JsonTree>,
    Seq<char>,
>
    decreases entries.len(),
{
    if entries.len() == 0 {
        Ok(Map::empty())
    } else {
        match after_entries(entries.drop_last()) {
            Ok(workflows) => after_entry(workflows, entries.last()),
            Err(message) => Err(message),
        }
    }
}

/// The workflows in a folder, or the message with which loading it fails.
pub open spec fn loaded_workflows(folder_path: Seq<char>, listing: FolderListing) -> Result<
    Map<Seq<char>, JsonTree>,
    Seq<char>,
> {
    match listing {
        FolderListing::Missing => Err("Workflows folder does not exist: "@ + folder_path),
        FolderListing::NotAFolder => Err("Workflows path is not a directory: "@ + folder_path),
        FolderListing::Unreadable(reason) => Err("Failed to read workflows directory: "@ + reason@),
        FolderListing::Entries(entries) => after_entries(entries@),
    }
}

/// An entry that cannot be loaded stops the loading: what follows it changes nothing.
pub proof fn first_failure_stands(entries: Seq<FolderEntry>, count: int)
    requires
        0 <= count <= entries.len(),
        after_entries(entries.take(count)) is Err,
    ensures
        after_entries(entries) == after_entries(entries.take(count)),
    decreases entries.len(),
{
    if count == entries.len() {
        assert(entries.take(count) =~= entries);
    } else {
        assert(entries.drop_last().take(count) =~= entries.take(count));
        first_failure_stands(entries.drop_last(), count);
    }
}

/// The name under which a file is loaded as a workflow.
pub open spec fn workflow_name(entry: FolderEntry) -> Option<Seq<char>> {
    match entry {
        FolderEntry::File(file) => if is_workflow_file(file.name) {
            stem_of(file.name)
        } else {
            None
        },
        FolderEntry::Unreadable(_) => None,
    }
}

/// The definition that a file holds.
pub open spec fn definition_in(entry: FolderEntry) -> Option<JsonTree> {
    match entry {
        FolderEntry::File(FolderFile { content: Ok(text), .. }) => match crate::document::parsed_json_text(
            text@,
        ) {
            Ok(tree) => Some(tree),
            Err(_) => None,
        },
        _ => None,
    }
}

/// Where a folder is loaded, the names of the workflows are those of its JSON files, and each
/// stands for what the last file of that name holds.
pub proof fn every_json_file_is_loaded(entries: Seq<FolderEntry>)
    requires
        after_entries(entries) is Ok,
    ensures
        forall|name: Seq<char>|
            #![trigger after_entries(entries)->Ok_0.contains_key(name)]
            after_entries(entries)->Ok_0.contains_key(name) <==> exists|i: int|
                0 <= i < entries.len() && workflow_name(#[trigger] entries[i]) == Some(name),
        forall|i: int|
            0 <= i < entries.len() && workflow_name(#[trigger] entries[i]) is Some && (forall|j: int|
                i < j < entries.len() ==> workflow_name(#[trigger] entries[j]) != workflow_name(entries[i]))
                ==> definition_in(entries[i]) == Some(
                after_entries(entries)->Ok_0[workflow_name(entries[i])->0],
            ),
    decreases entries.len(),
{
    if entries.len() > 0 {
        let front = entries.drop_last();
        let last = entries.last();
        every_json_file_is_loaded(front);
        let before = after_entries(front)->Ok_0;
        let after = after_entries(entries)->Ok_0;
        assert forall|name: Seq<char>| #![trigger after.contains_key(name)] after.contains_key(name) <==> exists|i: int|
            0 <= i < entries.len() && workflow_name(#[trigger] entries[i]) == Some(name) by {
            if after.contains_key(name) {
                if workflow_name(last) == Some(name) {
                    assert(workflow_name(entries[entries.len() - 1]) == Some(name));
                } else {
                    assert(before.contains_key(name));
                    let i = choose|i: int| 0 <= i < front.len() && workflow_name(#[trigger] front[i]) == Some(name);
                    assert(entries[i] == front[i]);
                }
            }
            if exists|i: int| 0 <= i < entries.len() && workflow_name(#[trigger] entries[i]) == Some(name) {
                let i = choose|i: int| 0 <= i < entries.len() && workflow_name(#[trigger] entries[i]) == Some(name);
                if i < front.len() {
                    assert(workflow_name(front[i]) == Some(name));
                    assert(before.contains_key(name));
                }
            }
        }
        assert forall|i: int|
            0 <= i < entries.len() && workflow_name(#[trigger] entries[i]) is Some && (forall|j: int|
                i < j < entries.len() ==> workflow_name(#[trigger] entries[j]) != workflow_name(entries[i]))
            implies definition_in(entries[i]) == Some(after[workflow_name(entries[i])->0]) by {
            if i < front.len() {
                assert(entries[i] == front[i]);
                assert forall|j: int| i < j < front.len() implies workflow_name(#[trigger] front[j])
                    != workflow_name(front[i]) by {
                    assert(entries[j] == front[j]);
                }
                assert(workflow_name(entries[entries.len() - 1]) != workflow_name(entries[i]));
                assert(before.contains_key(workflow_name(front[i])->0));
            }
        }
    }
}

/// Loads ComfyUI workflow JSON files from a directory.
///
/// Workflows are definitions that describe the image generation process. Each workflow is a JSON
/// file that can be referenced by model name in API requests.
pub struct WorkflowsLoader;

impl WorkflowsLoader {
    /// Whether a file with this name is a workflow.
    pub fn is_workflow_file(name: &FileName) -> (is_workflow: bool)
        ensures
            is_workflow == is_workflow_file(*name),
    {
        match name {
            FileName::Unicode(name) => match split_name(name.as_str()).1 {
                Some(extension) => equals_ignoring_ascii_case(extension.as_str(), "json"),
                None => false,
            },
            FileName::Other { extension: Some(extension) } => {
                equals_ignoring_ascii_case(extension.as_str(), "json")
            },
            FileName::Other { extension: None } => false,
        }
    }

    /// Adds the workflow that an entry of the folder holds, if it holds one.
    pub fn load_entry(workflows: &mut Workflows, entry: &FolderEntry) -> (result: Result<(), String>)
        ensures
            match result {
                Ok(()) => after_entry(old(workflows)@, *entry) == Ok::<Map<Seq<char>, JsonTree>, Seq<char>>(
                    final(workflows)@,
                ),
                Err(message) => after_entry(old(workflows)@, *entry) == Err::<
                    Map<Seq<char>, JsonTree>,
                    Seq<char>,
                >(message@) && final(workflows)@ == old(workflows)@,
            },
    {
        match entry {
            FolderEntry::Unreadable(reason) => Err(
                prefixed("Failed to read directory entry: ", reason.as_str()),
            ),
            FolderEntry::File(file) => {
                if !Self::is_workflow_file(&file.name) {
                    return Ok(());
                }
                let name = match &file.name {
                    FileName::Unicode(name) => split_name(name.as_str()).0,
                    FileName::Other { .. } => {
                        return Err(prefixed("Failed to get filename for: ", file.quoted_path.as_str()));
                    },
                };
                let text = match &file.content {
                    Ok(text) => text,
                    Err(reason) => {
                        let mut message = prefixed("Failed to read JSON file ", file.path.as_str());
                        message.append(": ");
                        message.append(reason.as_str());
                        return Err(message);
                    },
                };
                match Json::from_str(text.as_str()) {
                    Ok(definition) => {
                        workflows.insert(name, definition);
                        Ok(())
                    },
                    Err(reason) => {
                        let mut message = prefixed("Failed to parse JSON from ", file.path.as_str());
                        message.append(": ");
                        message.append(reason.as_str());
                        Err(message)
                    },
                }
            },
        }
    }

    /// Loads all .json files from the specified folder.
    ///
    /// Goes through the entries of the directory and loads all JSON files, using the filename
    /// (without extension) as the key. This allows clients to reference workflows by name in
    /// their requests. The first entry that cannot be loaded ends it.
    pub fn load_from_folder(folder_path: &str, listing: &FolderListing) -> (result: Result<
        Workflows,
        String,
    >)
        ensures
            match result {
                Ok(workflows) => loaded_workflows(folder_path@, *listing) == Ok::<
                    Map<Seq<char>, JsonTree>,
                    Seq<char>,
                >(workflows@),
                Err(message) => loaded_workflows(folder_path@, *listing) == Err::<
                    Map<Seq<char>, JsonTree>,
                    Seq<char>,
                >(message@),
            },
    {
        match listing {
            FolderListing::Missing => Err(prefixed("Workflows folder does not exist: ", folder_path)),
            FolderListing::NotAFolder => Err(
                prefixed("Workflows path is not a directory: ", folder_path),
            ),
            FolderListing::Unreadable(reason) => Err(
                prefixed("Failed to read workflows directory: ", reason.as_str()),
            ),
            FolderListing::Entries(entries) => {
                let mut workflows = Workflows::new();
                for i in 0..entries.len()
                    invariant
                        *listing == FolderListing::Entries(*entries),
                        after_entries(entries@.take(i as int)) == Ok::<Map<Seq<char>, JsonTree>, Seq<char>>(
                            workflows@,
                        ),
                {
                    let ghost next = entries@.take(i + 1);
                    assert(next.drop_last() =~= entries@.take(i as int));
                    assert(next.last() == entries@[i as int]);
                    match Self::load_entry(&mut workflows, &entries[i]) {
                        Ok(()) => {},
                        Err(message) => {
                            proof {
                                first_failure_stands(entries@, i + 1);
                            }
                            return Err(message);
                        },
                    }
                }
                assert(entries@.take(entries@.len() as int) =~= entries@);
                Ok(workflows)
            },
        }
    }
}

/// A name without a dot, or with none but at its front, has no extension.
pub proof fn name_without_inner_dot_has_no_extension(name: Seq<char>)
    requires
        !name.contains('.'),
    ensures
        name_parts(name) == (name, None::<Seq<char>>),
        name_parts(seq!['.'] + name) == (seq!['.'] + name, None::<Seq<char>>),
{
    name.index_of_last_ensures('.');
    let hidden = seq!['.'] + name;
    hidden.index_of_last_ensures('.');
    assert(hidden[0] == '.');
    let found = hidden.index_of_last('.')->0;
    if found > 0 {
        assert(name[found - 1] == '.');
    }
}

/// A file is a workflow where its extension is `json` when put in small letters, and its name is
/// what stands before the dot.
pub proof fn workflow_files_are_json_files(file: FileName, stem: Seq<char>, extension: Seq<char>)
    requires
        file matches FileName::Unicode(name) && name@ == stem + seq!['.'] + extension,
        stem.len() > 0,
        !extension.contains('.'),
        stem + seq!['.'] + extension != ".."@,
    ensures
        is_workflow_file(file) <==> extension.map_values(|c: char| crate::text::ascii_lower(c))
            == "json"@,
        stem_of(file) == Some(stem),
{
    stem_stands_before_extension(stem, extension);
    json_in_small_letters(extension);
}

proof fn json_in_small_letters(extension: Seq<char>)
    ensures
        crate::text::same_ignoring_ascii_case(extension, "json"@) <==> extension.map_values(
            |c: char| crate::text::ascii_lower(c),
        ) == "json"@,
{
    reveal_strlit("json");
    crate::text::texts_agree_in_small_letters(extension, "json"@);
    assert("json"@.map_values(|c: char| crate::text::ascii_lower(c)) =~= "json"@);
}

/// A file without an inner dot is no workflow; one whose name is no Unicode is by its extension,
/// and has no name as a workflow.
pub proof fn other_files_are_no_workflows(file: FileName)
    requires
        file matches FileName::Unicode(name) ==> !name@.contains('.'),
    ensures
        match file {
            FileName::Unicode(_) => !is_workflow_file(file),
            FileName::Other { extension: Some(extension) } => stem_of(file) is None && (is_workflow_file(
                file,
            ) <==> extension@.map_values(|c: char| crate::text::ascii_lower(c)) == "json"@),
            FileName::Other { extension: None } => stem_of(file) is None && !is_workflow_file(file),
        },
{
    match file {
        FileName::Unicode(name) => {
            name_without_inner_dot_has_no_extension(name@);
        },
        FileName::Other { extension: Some(extension) } => {
            json_in_small_letters(extension@);
        },
        _ => {},
    }
}

/// What an entry does to the workflows: one that is no workflow file nothing, one that can be read
/// adds what it holds under its name, and any other ends the loading with the reason.
pub proof fn entry_adds_what_it_holds(workflows: Map<Seq<char>, JsonTree>, entry: FolderEntry)
    ensures
        match entry {
            FolderEntry::Unreadable(reason) => after_entry(workflows, entry) matches Err(message)
                && message == "Failed to read directory entry: "@ + reason@,
            FolderEntry::File(file) => {
                &&& !is_workflow_file(file.name) ==> after_entry(workflows, entry) == Ok::<
                    Map<Seq<char>, JsonTree>,
                    Seq<char>,
                >(workflows)
                &&& is_workflow_file(file.name) && stem_of(file.name) is None ==> after_entry(
                    workflows,
                    entry,
                ) == Err::<Map<Seq<char>, JsonTree>, Seq<char>>(
                    "Failed to get filename for: "@ + file.quoted_path@,
                )
                &&& is_workflow_file(file.name) && stem_of(file.name) is Some ==> match file.content {
                    Err(reason) => after_entry(workflows, entry) == Err::<
                        Map<Seq<char>, JsonTree>,
                        Seq<char>,
                    >("Failed to read JSON file "@ + file.path@ + ": "@ + reason@),
                    Ok(text) => match crate::document::parsed_json_text(text@) {
                        Err(reason) => after_entry(workflows, entry) == Err::<
                            Map<Seq<char>, JsonTree>,
                            Seq<char>,
                        >("Failed to parse JSON from "@ + file.path@ + ": "@ + reason),
                        Ok(tree) => after_entry(workflows, entry) matches Ok(after) && after.contains_key(
                            stem_of(file.name)->0,
                        ) && after[stem_of(file.name)->0] == tree && forall|other: Seq<char>|
                            other != stem_of(file.name)->0 ==> (#[trigger] after.contains_key(other)
                                == workflows.contains_key(other) && after[other] == workflows[other]),
                    },
                }
            },
        },
{
}

/// A folder is loaded where every one of its entries can be, and else fails with the reason of the
/// first that cannot.
pub proof fn folder_fails_with_first_failure(entries: Seq<FolderEntry>, place: int)
    requires
        0 <= place <= entries.len(),
        forall|i: int|
            0 <= i < place ==> after_entry(Map::empty(), #[trigger] entries[i]) is Ok,
        place < entries.len() ==> after_entry(Map::empty(), entries[place]) is Err,
    ensures
        place == entries.len() ==> after_entries(entries) is Ok,
        place < entries.len() ==> after_entries(entries) == after_entry(Map::empty(), entries[place]),
    decreases entries.len(),
{
    if entries.len() > 0 {
        let front = entries.drop_last();
        assert forall|i: int| 0 <= i < place && i < front.len() implies after_entry(
            Map::empty(),
            #[trigger] front[i],
        ) is Ok by {
            assert(front[i] == entries[i]);
        }
        if place < entries.len() {
            if place < front.len() {
                assert(front[place] == entries[place]);
            }
            folder_fails_with_first_failure(front, place);
        } else {
            folder_fails_with_first_failure(front, front.len() as int);
            assert(after_entry(Map::empty(), entries[entries.len() - 1]) is Ok);
        }
    }
}

/// A path under which no folder can be read gives no workflows, for the reason that holds; a folder
/// gives those of its entries.
pub proof fn only_folders_give_workflows(folder_path: Seq<char>, listing: FolderListing)
    ensures
        match listing {
            FolderListing::Missing => loaded_workflows(folder_path, listing) matches Err(message)
                && message == "Workflows folder does not exist: "@ + folder_path,
            FolderListing::NotAFolder => loaded_workflows(folder_path, listing) matches Err(message)
                && message == "Workflows path is not a directory: "@ + folder_path,
            FolderListing::Unreadable(reason) => loaded_workflows(folder_path, listing) matches Err(
                message,
            ) && message == "Failed to read workflows directory: "@ + reason@,
            FolderListing::Entries(entries) => loaded_workflows(folder_path, listing) == after_entries(
                entries@,
            ),
        },
{
}

/// A name of nothing but two dots is not parted.
pub proof fn two_dots_are_not_parted()
    ensures
        name_parts(".."@) == (".."@, None::<Seq<char>>),
{
    ".."@.index_of_last_ensures('.');
}

} // verus!
