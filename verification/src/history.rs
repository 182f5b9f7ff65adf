//! What the backend says of jobs: their place in the queue, and the images that they made.
use vstd::prelude::*;

use crate::encoding::{encode_base64, encode_form};
use crate::json::{Json, JsonObject, JsonTree};
use crate::proxy::{json_refusal, prefixed, upstream_refusal, ProxyError, Refusal};
use crate::text::same_text;

verus! {

/// Metadata for an image file from ComfyUI output.
///
/// Used to construct the query string for retrieving images from the backend.
pub struct ImageFile {
    /// Image filename in the ComfyUI output directory
    pub filename: String,
    /// Subdirectory within the output folder
    pub subfolder: String,
    /// Image type (e.g., "output", "temp")
    pub type_field: String,
}

/// What is known of an image file.
pub struct ImageFileView {
    pub filename: Seq<char>,
    pub subfolder: Seq<char>,
    pub type_field: Seq<char>,
}

impl View for ImageFile {
    type V = ImageFileView;

    open spec fn view(&self) -> ImageFileView {
        ImageFileView {
            filename: self.filename@,
            subfolder: self.subfolder@,
            type_field: self.type_field@,
        }
    }
}

/// What is known of image files.
pub open spec fn file_views(files: Seq<ImageFile>) -> Seq<ImageFileView> {
    files.map_values(|file: ImageFile| file@)
}

/// The prompt id in the answer to a prompt.
pub open spec fn prompt_id_in(answer: JsonTree) -> Option<Seq<char>> {
    answer.text_member("prompt_id"@)
}

/// Extracts the prompt_id, which identifies a job in ComfyUI, from the answer to a prompt.
pub fn extract_prompt_id(body: &[u8]) -> (result: Result<Option<String>, ProxyError>)
    ensures
        match crate::document::parsed_json(body@) {
            Err(message) => result matches Err(error) && error@ == json_refusal(
                "Failed to parse JSON: "@ + message,
            ),
            Ok(answer) => match prompt_id_in(answer) {
                Some(prompt_id) => result matches Ok(Some(found)) && found@ == prompt_id,
                None => result matches Ok(None),
            },
        },
{
    match Json::from_bytes(body) {
        Ok(answer) => match answer.get_str("prompt_id") {
            Some(prompt_id) => Ok(Some(prompt_id.to_owned())),
            None => Ok(None),
        },
        Err(message) => Err(ProxyError::Json(prefixed("Failed to parse JSON: ", message.as_str()))),
    }
}

/// The prompt id of an element of the queue: its second item.
pub open spec fn queued_prompt(element: JsonTree) -> Option<Seq<char>> {
    match element {
        JsonTree::Array(items) => if items.len() > 1 {
            items[1].text()
        } else {
            None
        },
        _ => None,
    }
}

/// A list of the queue holds a job.
pub open spec fn listed(queue: JsonTree, list: Seq<char>, prompt_id: Seq<char>) -> bool {
    queue.array_member(list) matches Some(elements) && exists|i: int|
        0 <= i < elements.len() && queued_prompt(#[trigger] elements[i]) == Some(prompt_id)
}

/// A job is running or pending.
pub open spec fn in_queue(queue: JsonTree, prompt_id: Seq<char>) -> bool {
    listed(queue, "queue_running"@, prompt_id) || listed(queue, "queue_pending"@, prompt_id)
}

/// Whether a list of the queue holds a job.
fn lists_job(queue: &Json, list: &str, prompt_id: &str) -> (found: bool)
    ensures
        found == listed(queue@, list@, prompt_id@),
{
    let elements = match queue.get_array(list) {
        Some(elements) => elements,
        None => {
            return false;
        },
    };
    let ghost trees = queue@.array_member(list@)->0;
    for i in 0..elements.len()
        invariant
            trees == elements@.map_values(|item: Json| item@),
            queue@.array_member(list@) == Some(trees),
            forall|j: int| 0 <= j < i ==> queued_prompt(#[trigger] trees[j]) != Some(prompt_id@),
    {
        assert(trees[i as int] == elements@[i as int]@);
        match elements[i].as_array() {
            Some(items) => {
                if items.len() > 1 {
                    match items[1].as_str() {
                        Some(text) => {
                            if same_text(text, prompt_id) {
                                return true;
                            }
                        },
                        None => {},
                    }
                }
            },
            None => {},
        }
    }
    false
}

/// Whether a job has left the queue.
pub fn job_left_queue(queue: &Json, prompt_id: &str) -> (left: bool)
    ensures
        left == !in_queue(queue@, prompt_id@),
{
    !lists_job(queue, "queue_running", prompt_id) && !lists_job(queue, "queue_pending", prompt_id)
}

/// Tells from the backend's account of its queue whether a job is done: neither running nor
/// pending.
pub fn check_queue(body: &[u8], prompt_id: &str) -> (result: Result<bool, ProxyError>)
    ensures
        match crate::document::parsed_json(body@) {
            Err(message) => result matches Err(error) && error@ == json_refusal(
                "Failed to queu history JSON: "@ + message,
            ),
            Ok(queue) => result matches Ok(done) && done == !in_queue(queue, prompt_id@),
        },
{
    match Json::from_bytes(body) {
        Ok(queue) => Ok(job_left_queue(&queue, prompt_id)),
        Err(message) => Err(
            ProxyError::Json(prefixed("Failed to queu history JSON: ", message.as_str())),
        ),
    }
}

/// The image file that an entry of a node's output describes, if it is an output image (not
/// temporary or a preview).
pub open spec fn output_image(entry: JsonTree) -> Option<ImageFileView> {
    if entry.text_member("type"@) == Some("output"@) && entry.text_member("filename"@) is Some
        && entry.text_member("subfolder"@) is Some {
        Some(
            ImageFileView {
                filename: entry.text_member("filename"@)->0,
                subfolder: entry.text_member("subfolder"@)->0,
                type_field: "output"@,
            },
        )
    } else {
        None
    }
}

/// The output images among entries, in order.
pub open spec fn output_images(entries: Seq<JsonTree>) -> Seq<ImageFileView>
    decreases entries.len(),
{
    if entries.len() == 0 {
        Seq::empty()
    } else {
        let before = output_images(entries.drop_last());
        match output_image(entries.last()) {
            Some(file) => before.push(file),
            None => before,
        }
    }
}

/// The output images of nodes, node by node.
pub open spec fn images_of_nodes(nodes: Seq<(Seq<char>, JsonTree)>) -> Seq<ImageFileView>
    decreases nodes.len(),
{
    if nodes.len() == 0 {
        Seq::empty()
    } else {
        let before = images_of_nodes(nodes.drop_last());
        match nodes.last().1.array_member("images"@) {
            Some(entries) => before + output_images(entries),
            None => before,
        }
    }
}

/// The output images of a job in the backend's history, if the history tells of the job.
pub open spec fn images_of_job(history: JsonTree, prompt_id: Seq<char>) -> Option<Seq<ImageFileView>> {
    match history.object_member(prompt_id) {
        None => None,
        Some(job) => match JsonTree::Object(job).object_member("outputs"@) {
            None => Some(Seq::empty()),
            Some(nodes) => Some(images_of_nodes(nodes)),
        },
    }
}

/// No temporary image or preview is taken for the result of a job.
pub proof fn found_images_are_outputs(history: JsonTree, prompt_id: Seq<char>)
    requires
        images_of_job(history, prompt_id) is Some,
    ensures
        forall|i: int|
            0 <= i < images_of_job(history, prompt_id)->0.len() ==> (#[trigger] images_of_job(
                history,
                prompt_id,
            )->0[i]).type_field == "output"@,
{
    if let Some(nodes) = JsonTree::Object(history.object_member(prompt_id)->0).object_member("outputs"@) {
        images_of_nodes_are_outputs(nodes);
    }
}

proof fn images_of_nodes_are_outputs(nodes: Seq<(Seq<char>, JsonTree)>)
    ensures
        forall|i: int|
            0 <= i < images_of_nodes(nodes).len() ==> (#[trigger] images_of_nodes(nodes)[i]).type_field
                == "output"@,
    decreases nodes.len(),
{
    if nodes.len() > 0 {
        images_of_nodes_are_outputs(nodes.drop_last());
        let before = images_of_nodes(nodes.drop_last());
        if let Some(entries) = nodes.last().1.array_member("images"@) {
            output_images_are_outputs(entries);
            let added = output_images(entries);
            assert forall|i: int| 0 <= i < images_of_nodes(nodes).len() implies (#[trigger] images_of_nodes(
                nodes,
            )[i]).type_field == "output"@ by {
                if i < before.len() {
                    assert(images_of_nodes(nodes)[i] == before[i]);
                } else {
                    assert(images_of_nodes(nodes)[i] == added[i - before.len()]);
                }
            }
        }
    }
}

proof fn output_images_are_outputs(entries: Seq<JsonTree>)
    ensures
        forall|i: int|
            0 <= i < output_images(entries).len() ==> (#[trigger] output_images(entries)[i]).type_field
                == "output"@,
    decreases entries.len(),
{
    if entries.len() > 0 {
        output_images_are_outputs(entries.drop_last());
        let before = output_images(entries.drop_last());
        if let Some(file) = output_image(entries.last()) {
            assert forall|i: int| 0 <= i < before.push(file).len() implies (#[trigger] before.push(
                file,
            )[i]).type_field == "output"@ by {
                if i < before.len() {
                    assert(before.push(file)[i] == before[i]);
                }
            }
        }
    }
}

/// Adds the output images among entries.
fn collect_images(entries: &Vec<Json>, files: &mut Vec<ImageFile>)
    ensures
        file_views(final(files)@) == file_views(old(files)@) + output_images(
            entries@.map_values(|item: Json| item@),
        ),
{
    let ghost trees = entries@.map_values(|item: Json| item@);
    let ghost before = file_views(files@);
    assert(before + output_images(trees.take(0)) =~= before);
    for i in 0..entries.len()
        invariant
            trees == entries@.map_values(|item: Json| item@),
            file_views(files@) == before + output_images(trees.take(i as int)),
    {
        let ghost next = trees.take(i + 1);
        let ghost so_far = files@;
        assert(next.drop_last() =~= trees.take(i as int));
        assert(next.last() == entries@[i as int]@);
        let entry = &entries[i];
        match (entry.get_str("type"), entry.get_str("filename"), entry.get_str("subfolder")) {
            (Some(type_field), Some(filename), Some(subfolder)) => {
                if same_text(type_field, "output") {
                    files.push(
                        ImageFile {
                            filename: filename.to_owned(),
                            subfolder: subfolder.to_owned(),
                            type_field: type_field.to_owned(),
                        },
                    );
                    assert(file_views(files@) =~= file_views(so_far).push(output_image(entry@)->0));
                }
            },
            _ => {},
        }
        assert(file_views(files@) =~= before + output_images(next));
    }
    assert(trees.take(entries@.len() as int) =~= trees);
}

/// Extracts image metadata from the outputs of a job in the backend's history.
pub fn find_images(history: &Json, prompt_id: &str) -> (result: Option<Vec<ImageFile>>)
    ensures
        match result {
            Some(files) => images_of_job(history@, prompt_id@) == Some(file_views(files@)),
            None => images_of_job(history@, prompt_id@) is None,
        },
{
    let job = match history.get_object(prompt_id) {
        Some(job) => job,
        None => {
            return None;
        },
    };
    let mut files: Vec<ImageFile> = Vec::new();
    assert(file_views(files@) =~= Seq::empty());
    let nodes = match job.get("outputs") {
        Some(outputs) => match outputs.as_object() {
            Some(nodes) => nodes,
            None => {
                return Some(files);
            },
        },
        None => {
            return Some(files);
        },
    };
    let len = nodes.len();
    for i in 0..len
        invariant
            len == nodes@.len(),
            file_views(files@) == images_of_nodes(nodes@.take(i as int)),
    {
        let ghost next = nodes@.take(i + 1);
        assert(next.drop_last() =~= nodes@.take(i as int));
        assert(next.last() == nodes@[i as int]);
        match nodes.value(i).get_array("images") {
            Some(entries) => {
                collect_images(entries, &mut files);
            },
            None => {},
        }
    }
    assert(nodes@.take(len as int) =~= nodes@);
    Some(files)
}

/// Reads the output images of a job from the backend's history.
pub fn read_history(body: &[u8], prompt_id: &str) -> (result: Result<Vec<ImageFile>, ProxyError>)
    ensures
        match crate::document::parsed_json(body@) {
            Err(message) => result matches Err(error) && error@ == json_refusal(
                "Failed to parse history JSON: "@ + message,
            ),
            Ok(history) => match images_of_job(history, prompt_id@) {
                None => result matches Err(error) && error@ == upstream_refusal(
                    "No prompt_id history found."@,
                ),
                Some(files) => result matches Ok(found) && file_views(found@) == files,
            },
        },
{
    match Json::from_bytes(body) {
        Ok(history) => match find_images(&history, prompt_id) {
            Some(files) => Ok(files),
            None => Err(ProxyError::Upstream("No prompt_id history found.".to_owned())),
        },
        Err(message) => Err(
            ProxyError::Json(prefixed("Failed to parse history JSON: ", message.as_str())),
        ),
    }
}

/// The names and values of the query for an image file.
pub open spec fn image_query(file: ImageFileView) -> Seq<(Seq<char>, Seq<char>)> {
    seq![
        ("filename"@, file.filename),
        ("subfolder"@, file.subfolder),
        ("type"@, file.type_field),
    ]
}

/// The address of an image file at a backend.
pub open spec fn image_address(target_base: Seq<char>, file: ImageFileView) -> Seq<char> {
    "http://"@ + target_base + "/view?"@ + crate::encoding::form_pairs(image_query(file))
}

/// Constructs the address of an image file at a backend.
pub fn view_url(target_base: &str, file: &ImageFile) -> (result: Result<String, ProxyError>)
    ensures
        result matches Ok(url) && url@ == image_address(target_base@, file@),
{
    let mut pairs: Vec<(String, String)> = Vec::new();
    pairs.push(("filename".to_owned(), file.filename.clone()));
    pairs.push(("subfolder".to_owned(), file.subfolder.clone()));
    pairs.push(("type".to_owned(), file.type_field.clone()));
    assert(pairs@.map_values(|pair: (String, String)| (pair.0@, pair.1@)) =~= image_query(file@));
    match encode_form(&pairs) {
        Ok(query) => {
            let mut url = prefixed("http://", target_base);
            url.append("/view?");
            url.append(query.as_str());
            Ok(url)
        },
        Err(message) => Err(
            ProxyError::Json(prefixed("Failed to serialize image data query: ", message.as_str())),
        ),
    }
}

/// An image in the answer to the client: its bytes in Base64.
pub open spec fn image_entry(image: Seq<u8>) -> JsonTree {
    JsonTree::Object(seq![("b64_json"@, JsonTree::Text(crate::encoding::base64_text(image)))])
}

/// The answer to the client in the format of the OpenAI API: the images, and when it was made.
pub open spec fn images_answer(images: Seq<Seq<u8>>, created: i64) -> JsonTree {
    JsonTree::Object(
        seq![
            ("created"@, JsonTree::Number(crate::text::decimal(created as int))),
            ("data"@, JsonTree::Array(images.map_values(|image: Seq<u8>| image_entry(image)))),
        ],
    )
}

/// Encodes an image for the answer to the client.
pub fn encode_image(image: &Vec<u8>) -> (entry: Json)
    requires
        crate::encoding::base64_len(image@.len()) <= isize::MAX,
    ensures
        entry@ == image_entry(image@),
{
    let mut entry = JsonObject::new();
    entry.push("b64_json".to_owned(), Json::Text(encode_base64(image.as_slice())));
    assert(entry@ =~= image_entry(image@)->Object_0);
    Json::Object(entry)
}

/// Makes the answer to the client of images that were encoded.
pub fn images_response(entries: Vec<Json>, created: i64) -> (answer: Json)
    ensures
        answer@ == JsonTree::Object(
            seq![
                ("created"@, JsonTree::Number(crate::text::decimal(created as int))),
                ("data"@, JsonTree::Array(entries@.map_values(|entry: Json| entry@))),
            ],
        ),
{
    let mut answer = JsonObject::new();
    answer.push("created".to_owned(), Json::from_i64(created));
    proof {
        reveal_strlit("created");
        reveal_strlit("data");
        assert(crate::text::text_before("created"@, "data"@));
    }
    let ghost data = JsonTree::Array(entries@.map_values(|entry: Json| entry@));
    answer.push("data".to_owned(), Json::from_items(entries));
    assert(answer@ =~= seq![
        ("created"@, JsonTree::Number(crate::text::decimal(created as int))),
        ("data"@, data),
    ]);
    Json::Object(answer)
}

/// The prompt id of an answer is the string that stands under `prompt_id`.
pub proof fn prompt_id_stands_under_its_key(members: Seq<(Seq<char>, JsonTree)>, prompt_id: Seq<char>)
    requires
        crate::json::keys_ascend(members),
    ensures
        prompt_id_in(JsonTree::Object(members)) == Some(prompt_id) <==> members.contains(
            ("prompt_id"@, JsonTree::Text(prompt_id)),
        ),
{
    crate::json::typed_member_is_found_by_key(members, "prompt_id"@);
}

/// A job is in the queue wherever in the list of running or of pending jobs it stands: at any place
/// with an array whose second item is its prompt id.
pub proof fn job_is_in_queue_wherever_it_stands(
    members: Seq<(Seq<char>, JsonTree)>,
    list: Seq<char>,
    elements: Seq<JsonTree>,
    place: int,
    items: Seq<JsonTree>,
    prompt_id: Seq<char>,
)
    requires
        crate::json::keys_ascend(members),
        list == "queue_running"@ || list == "queue_pending"@,
        members.contains((list, JsonTree::Array(elements))),
        0 <= place < elements.len(),
        elements[place] == JsonTree::Array(items),
        items.len() > 1,
        items[1] == JsonTree::Text(prompt_id),
    ensures
        in_queue(JsonTree::Object(members), prompt_id),
{
    crate::json::typed_member_is_found_by_key(members, list);
    assert(queued_prompt(elements[place]) == Some(prompt_id));
    assert(listed(JsonTree::Object(members), list, prompt_id));
}

/// A job that is in the queue stands at some place in the list of running or of pending jobs; one
/// that stands in neither has left it.
pub proof fn job_in_queue_stands_in_a_list(members: Seq<(Seq<char>, JsonTree)>, prompt_id: Seq<char>)
    requires
        crate::json::keys_ascend(members),
        in_queue(JsonTree::Object(members), prompt_id),
    ensures
        exists|elements: Seq<JsonTree>, place: int|
            (members.contains(("queue_running"@, JsonTree::Array(elements))) || members.contains(
                ("queue_pending"@, JsonTree::Array(elements)),
            )) && 0 <= place < elements.len() && ((#[trigger] elements[place]) matches JsonTree::Array(
                items,
            ) && items.len() > 1 && items[1] == JsonTree::Text(prompt_id)),
{
    let queue = JsonTree::Object(members);
    crate::json::typed_member_is_found_by_key(members, "queue_running"@);
    crate::json::typed_member_is_found_by_key(members, "queue_pending"@);
    let list = if listed(queue, "queue_running"@, prompt_id) {
        "queue_running"@
    } else {
        "queue_pending"@
    };
    let elements = queue.array_member(list)->0;
    assert(members.contains((list, JsonTree::Array(elements))));
    let place = choose|i: int|
        0 <= i < elements.len() && queued_prompt(#[trigger] elements[i]) == Some(prompt_id);
    assert(elements[place] matches JsonTree::Array(items) && items.len() > 1 && items[1]
        == JsonTree::Text(prompt_id));
}

/// What is no object is no queue with a job in it.
pub proof fn only_objects_are_queues(queue: JsonTree, prompt_id: Seq<char>)
    requires
        !(queue is Object),
    ensures
        !in_queue(queue, prompt_id),
{
}

/// An entry describes an output image where its type is `output` and it gives file name and
/// subfolder; the image has these.
pub proof fn output_image_is_described(members: Seq<(Seq<char>, JsonTree)>, file: ImageFileView)
    requires
        crate::json::keys_ascend(members),
    ensures
        output_image(JsonTree::Object(members)) == Some(file) <==> {
            &&& members.contains(("type"@, JsonTree::Text("output"@)))
            &&& members.contains(("filename"@, JsonTree::Text(file.filename)))
            &&& members.contains(("subfolder"@, JsonTree::Text(file.subfolder)))
            &&& file.type_field == "output"@
        },
{
    crate::json::typed_member_is_found_by_key(members, "type"@);
    crate::json::typed_member_is_found_by_key(members, "filename"@);
    crate::json::typed_member_is_found_by_key(members, "subfolder"@);
    let entry = JsonTree::Object(members);
    assert(entry.text_member("filename"@) == Some(file.filename) <==> members.contains(
        ("filename"@, JsonTree::Text(file.filename)),
    ));
    assert(entry.text_member("subfolder"@) == Some(file.subfolder) <==> members.contains(
        ("subfolder"@, JsonTree::Text(file.subfolder)),
    ));
    assert(entry.text_member("type"@) == Some("output"@) <==> members.contains(
        ("type"@, JsonTree::Text("output"@)),
    ));
}

/// What is no object describes no image.
pub proof fn only_objects_describe_images(entry: JsonTree)
    requires
        !(entry is Object),
    ensures
        output_image(entry) is None,
{
}

/// The output images are those of all entries that describe one, in the order of the entries: as
/// many as there are such entries.
pub proof fn no_output_image_is_left_out(entries: Seq<JsonTree>)
    ensures
        output_images(entries) == entries.filter(
            |entry: JsonTree| output_image(entry) is Some,
        ).map_values(|entry: JsonTree| output_image(entry)->0),
    decreases entries.len(),
{
    let describes = |entry: JsonTree| output_image(entry) is Some;
    let image = |entry: JsonTree| output_image(entry)->0;
    reveal(Seq::filter);
    if entries.len() > 0 {
        no_output_image_is_left_out(entries.drop_last());
        let before = entries.drop_last().filter(describes);
        if describes(entries.last()) {
            assert(before.push(entries.last()).map_values(image) =~= before.map_values(image).push(
                image(entries.last()),
            ));
        }
    }
    assert(output_images(entries) =~= entries.filter(describes).map_values(image));
}

proof fn collected_image_is_kept(entries: Seq<JsonTree>, place: int)
    requires
        0 <= place < entries.len(),
        output_image(entries[place]) is Some,
    ensures
        output_images(entries).contains(output_image(entries[place])->0),
    decreases entries.len(),
{
    let before = output_images(entries.drop_last());
    let all = output_images(entries);
    let file = output_image(entries[place])->0;
    if place == entries.len() - 1 {
        assert(all[all.len() - 1] == file);
    } else {
        collected_image_is_kept(entries.drop_last(), place);
        let i = before.index_of(file);
        assert(all[i] == file);
    }
}

/// The images of nodes follow each other node by node: those of later nodes after those of earlier
/// ones, and of each node all that its entries describe.
pub proof fn images_of_nodes_follow_each_other(
    nodes: Seq<(Seq<char>, JsonTree)>,
    id: Seq<char>,
    members: Seq<(Seq<char>, JsonTree)>,
    entries: Seq<JsonTree>,
)
    requires
        crate::json::keys_ascend(members),
        members.contains(("images"@, JsonTree::Array(entries))),
    ensures
        images_of_nodes(Seq::empty()) == Seq::<ImageFileView>::empty(),
        images_of_nodes(nodes.push((id, JsonTree::Object(members)))) == images_of_nodes(nodes)
            + output_images(entries),
{
    crate::json::typed_member_is_found_by_key(members, "images"@);
    assert(nodes.push((id, JsonTree::Object(members))).drop_last() =~= nodes);
}

/// A node without an array of images has none.
pub proof fn node_without_images_adds_none(
    nodes: Seq<(Seq<char>, JsonTree)>,
    id: Seq<char>,
    node: JsonTree,
)
    requires
        node matches JsonTree::Object(members) ==> crate::json::keys_ascend(members) && forall|
            entries: Seq<JsonTree>,
        | !(#[trigger] members.contains(("images"@, JsonTree::Array(entries)))),
    ensures
        images_of_nodes(nodes.push((id, node))) == images_of_nodes(nodes),
{
    assert(nodes.push((id, node)).drop_last() =~= nodes);
    if let JsonTree::Object(members) = node {
        crate::json::typed_member_is_found_by_key(members, "images"@);
        if let Some(entries) = node.array_member("images"@) {
            assert(members.contains(("images"@, JsonTree::Array(entries))));
        }
    }
}

proof fn image_of_node_is_kept(nodes: Seq<(Seq<char>, JsonTree)>, place: int, entries: Seq<JsonTree>, file: ImageFileView)
    requires
        0 <= place < nodes.len(),
        nodes[place].1.array_member("images"@) == Some(entries),
        output_images(entries).contains(file),
    ensures
        images_of_nodes(nodes).contains(file),
    decreases nodes.len(),
{
    let before = images_of_nodes(nodes.drop_last());
    let all = images_of_nodes(nodes);
    if place == nodes.len() - 1 {
        let i = output_images(entries).index_of(file);
        assert(all[before.len() + i] == file);
    } else {
        image_of_node_is_kept(nodes.drop_last(), place, entries, file);
        let i = before.index_of(file);
        assert(all[i] == file);
    }
}

/// Where the history holds a job with outputs, the images of the job are those of all the nodes in
/// them; without outputs there are none, and without the job nothing is known.
pub proof fn images_are_those_of_the_job(
    history: Seq<(Seq<char>, JsonTree)>,
    prompt_id: Seq<char>,
    job: Seq<(Seq<char>, JsonTree)>,
    nodes: Seq<(Seq<char>, JsonTree)>,
)
    requires
        crate::json::keys_ascend(history),
        crate::json::keys_ascend(job),
    ensures
        history.contains((prompt_id, JsonTree::Object(job))) && job.contains(
            ("outputs"@, JsonTree::Object(nodes)),
        ) ==> images_of_job(JsonTree::Object(history), prompt_id) == Some(images_of_nodes(nodes)),
        history.contains((prompt_id, JsonTree::Object(job))) && (forall|
            other: Seq<(Seq<char>, JsonTree)>,
        | !(#[trigger] job.contains(("outputs"@, JsonTree::Object(other))))) ==> images_of_job(
            JsonTree::Object(history),
            prompt_id,
        ) == Some(Seq::<ImageFileView>::empty()),
        (forall|other: Seq<(Seq<char>, JsonTree)>|
            !(#[trigger] history.contains((prompt_id, JsonTree::Object(other))))) <==> images_of_job(
            JsonTree::Object(history),
            prompt_id,
        ) is None,
{
    crate::json::typed_member_is_found_by_key(history, prompt_id);
    crate::json::typed_member_is_found_by_key(job, "outputs"@);
    if let Some(found) = JsonTree::Object(history).object_member(prompt_id) {
        assert(history.contains((prompt_id, JsonTree::Object(found))));
    }
    if let Some(found) = JsonTree::Object(job).object_member("outputs"@) {
        assert(job.contains(("outputs"@, JsonTree::Object(found))));
    }
}

/// Every output image that the history tells of the job is found, whichever node made it and
/// wherever among the images of the node it stands.
pub proof fn every_output_image_is_found(
    history: Seq<(Seq<char>, JsonTree)>,
    prompt_id: Seq<char>,
    job: Seq<(Seq<char>, JsonTree)>,
    nodes: Seq<(Seq<char>, JsonTree)>,
    node_place: int,
    node: Seq<(Seq<char>, JsonTree)>,
    entries: Seq<JsonTree>,
    place: int,
    entry: Seq<(Seq<char>, JsonTree)>,
    filename: Seq<char>,
    subfolder: Seq<char>,
)
    requires
        crate::json::keys_ascend(history),
        history.contains((prompt_id, JsonTree::Object(job))),
        crate::json::keys_ascend(job),
        job.contains(("outputs"@, JsonTree::Object(nodes))),
        0 <= node_place < nodes.len(),
        nodes[node_place].1 == JsonTree::Object(node),
        crate::json::keys_ascend(node),
        node.contains(("images"@, JsonTree::Array(entries))),
        0 <= place < entries.len(),
        entries[place] == JsonTree::Object(entry),
        crate::json::keys_ascend(entry),
        entry.contains(("type"@, JsonTree::Text("output"@))),
        entry.contains(("filename"@, JsonTree::Text(filename))),
        entry.contains(("subfolder"@, JsonTree::Text(subfolder))),
    ensures
        images_of_job(JsonTree::Object(history), prompt_id) matches Some(files) && files.contains(
            ImageFileView { filename, subfolder, type_field: "output"@ },
        ),
{
    let file = ImageFileView { filename, subfolder, type_field: "output"@ };
    images_are_those_of_the_job(history, prompt_id, job, nodes);
    crate::json::typed_member_is_found_by_key(node, "images"@);
    output_image_is_described(entry, file);
    collected_image_is_kept(entries, place);
    image_of_node_is_kept(nodes, node_place, entries, file);
}

/// An image is given to the client whole: its entry has one member, whose text is as long as the
/// encoding of all bytes is, and different images have different entries.
pub proof fn client_can_tell_images(a: Seq<u8>, b: Seq<u8>)
    ensures
        image_entry(a) matches JsonTree::Object(members) && members.len() == 1 && members[0].0
            == "b64_json"@ && (members[0].1 matches JsonTree::Text(text) && text.len() == (a.len() + 2)
            / 3 * 4 && text == crate::encoding::base64_text(a)),
        image_entry(a) == image_entry(b) ==> a == b,
{
    let x = image_entry(a)->Object_0;
    let y = image_entry(b)->Object_0;
    assert(x[0].1 == JsonTree::Text(crate::encoding::base64_text(a)));
    assert(y[0].1 == JsonTree::Text(crate::encoding::base64_text(b)));
    if image_entry(a) == image_entry(b) {
        assert(x[0].1 == y[0].1);
        crate::encoding::base64_is_injective(a, b);
    }
}

/// The answer to the client gives every image at its place and when it was made; answers with
/// different images or times differ.
pub proof fn answer_gives_every_image(images: Seq<Seq<u8>>, created: i64, others: Seq<Seq<u8>>, later: i64)
    ensures
        images_answer(images, created) matches JsonTree::Object(members) && {
            &&& members.contains(("created"@, JsonTree::Number(crate::text::decimal(created as int))))
            &&& members.len() == 2
            &&& members[1].0 == "data"@
            &&& members[1].1 matches JsonTree::Array(data) && data.len() == images.len() && forall|i: int|
                0 <= i < images.len() ==> #[trigger] data[i] == image_entry(images[i])
        },
        images_answer(images, created) == images_answer(others, later) ==> images == others && created
            == later,
{
    let members = images_answer(images, created)->Object_0;
    let other_members = images_answer(others, later)->Object_0;
    assert(members[0] == ("created"@, JsonTree::Number(crate::text::decimal(created as int))));
    assert(other_members[0] == ("created"@, JsonTree::Number(crate::text::decimal(later as int))));
    let data = members[1].1->Array_0;
    let other_data = other_members[1].1->Array_0;
    if images_answer(images, created) == images_answer(others, later) {
        assert(members[0].1 == other_members[0].1);
        crate::text::decimal_is_injective(created as int, later as int);
        assert(data == other_data);
        assert forall|i: int| 0 <= i < images.len() implies images[i] == others[i] by {
            assert(data[i] == image_entry(images[i]));
            assert(other_data[i] == image_entry(others[i]));
            client_can_tell_images(images[i], others[i]);
        }
        assert(images =~= others);
    }
}

/// An image is asked for at the backend's `view` address with its file name, subfolder and type;
/// different files have different addresses.
pub proof fn address_tells_image(target_base: Seq<char>, a: ImageFileView, b: ImageFileView)
    ensures
        ({
            let opening = "http://"@ + target_base + "/view?"@;
            let address = image_address(target_base, a);
            &&& opening.len() <= address.len()
            &&& address.take(opening.len() as int) == opening
            &&& address.skip(opening.len() as int) == crate::encoding::form_pairs(
                seq![
                    ("filename"@, a.filename),
                    ("subfolder"@, a.subfolder),
                    ("type"@, a.type_field),
                ],
            )
        }),
        image_address(target_base, a) == image_address(target_base, b) ==> a == b,
{
    let opening = "http://"@ + target_base + "/view?"@;
    let x = image_address(target_base, a);
    let y = image_address(target_base, b);
    assert(x.take(opening.len() as int) =~= opening);
    assert(x.skip(opening.len() as int) =~= crate::encoding::form_pairs(image_query(a)));
    assert(y.skip(opening.len() as int) =~= crate::encoding::form_pairs(image_query(b)));
    assert(image_query(a) =~= seq![
        ("filename"@, a.filename),
        ("subfolder"@, a.subfolder),
        ("type"@, a.type_field),
    ]);
    if x == y {
        queries_are_told(a, b);
    }
}

proof fn query_is_parted(file: ImageFileView)
    ensures
        crate::encoding::form_pairs(image_query(file)) == crate::encoding::form_text("filename"@) + seq!['=']
            + (crate::encoding::form_text(file.filename) + seq!['&'] + (crate::encoding::form_text(
            "subfolder"@,
        ) + seq!['='] + (crate::encoding::form_text(file.subfolder) + seq!['&'] + (
        crate::encoding::form_text("type"@) + seq!['='] + crate::encoding::form_text(file.type_field))))),
{
    let three = image_query(file);
    let two = three.drop_last();
    let one = two.drop_last();
    assert(three.last() == ("type"@, file.type_field));
    assert(two.last() == ("subfolder"@, file.subfolder));
    assert(one.last() == ("filename"@, file.filename));
    assert(one.len() == 1);
    let first = crate::encoding::form_text("filename"@) + seq!['='] + crate::encoding::form_text(
        file.filename,
    );
    let second = crate::encoding::form_text("subfolder"@) + seq!['='] + crate::encoding::form_text(
        file.subfolder,
    );
    let third = crate::encoding::form_text("type"@) + seq!['='] + crate::encoding::form_text(
        file.type_field,
    );
    assert(crate::encoding::form_pairs(one) == first);
    assert(crate::encoding::form_pairs(two) == first + seq!['&'] + second);
    assert(crate::encoding::form_pairs(three) == first + seq!['&'] + second + seq!['&'] + third);
    assert(first + seq!['&'] + second + seq!['&'] + third =~= crate::encoding::form_text("filename"@)
        + seq!['='] + (crate::encoding::form_text(file.filename) + seq!['&'] + (crate::encoding::form_text(
        "subfolder"@,
    ) + seq!['='] + (crate::encoding::form_text(file.subfolder) + seq!['&'] + third))));
}

proof fn queries_are_told(a: ImageFileView, b: ImageFileView)
    requires
        crate::encoding::form_pairs(image_query(a)) == crate::encoding::form_pairs(image_query(b)),
    ensures
        a == b,
{
    query_is_parted(a);
    query_is_parted(b);
    let name = crate::encoding::form_text("filename"@);
    let folder = crate::encoding::form_text("subfolder"@);
    let kind = crate::encoding::form_text("type"@);
    let a1 = crate::encoding::form_text(a.filename);
    let a2 = crate::encoding::form_text(a.subfolder);
    let a3 = crate::encoding::form_text(a.type_field);
    let b1 = crate::encoding::form_text(b.filename);
    let b2 = crate::encoding::form_text(b.subfolder);
    let b3 = crate::encoding::form_text(b.type_field);
    crate::encoding::form_text_has_no_separator("filename"@);
    crate::encoding::form_text_has_no_separator("subfolder"@);
    crate::encoding::form_text_has_no_separator("type"@);
    crate::encoding::form_text_has_no_separator(a.filename);
    crate::encoding::form_text_has_no_separator(b.filename);
    crate::encoding::form_text_has_no_separator(a.subfolder);
    crate::encoding::form_text_has_no_separator(b.subfolder);
    let a_end = kind + seq!['='] + a3;
    let b_end = kind + seq!['='] + b3;
    let a_mid = folder + seq!['='] + (a2 + seq!['&'] + a_end);
    let b_mid = folder + seq!['='] + (b2 + seq!['&'] + b_end);
    crate::encoding::parts_are_told(name, a1 + seq!['&'] + a_mid, name, b1 + seq!['&'] + b_mid, '=');
    crate::encoding::parts_are_told(a1, a_mid, b1, b_mid, '&');
    crate::encoding::parts_are_told(folder, a2 + seq!['&'] + a_end, folder, b2 + seq!['&'] + b_end, '=');
    crate::encoding::parts_are_told(a2, a_end, b2, b_end, '&');
    crate::encoding::parts_are_told(kind, a3, kind, b3, '=');
    crate::encoding::form_text_is_injective(a.filename, b.filename);
    crate::encoding::form_text_is_injective(a.subfolder, b.subfolder);
    crate::encoding::form_text_is_injective(a.type_field, b.type_field);
}

/// What is no object tells of no job: neither of a prompt id nor of images.
pub proof fn only_objects_tell_of_jobs(tree: JsonTree, prompt_id: Seq<char>)
    requires
        !(tree is Object),
    ensures
        prompt_id_in(tree) is None,
        images_of_job(tree, prompt_id) is None,
{
}

/// What is known of image files is known of all of them, at their places and whole.
pub proof fn image_files_are_seen_whole(files: Seq<ImageFile>)
    ensures
        file_views(files).len() == files.len(),
        forall|i: int|
            0 <= i < files.len() ==> (#[trigger] file_views(files)[i]).filename == files[i].filename@
                && file_views(files)[i].subfolder == files[i].subfolder@ && file_views(files)[i].type_field
                == files[i].type_field@,
{
}

} // verus!
