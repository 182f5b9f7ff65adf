//! Translation of an image generation request of the OpenAI API into a prompt for ComfyUI.
use vstd::prelude::*;

use rand::Rng;

use crate::json::{has_key, member_of, with_member, Json, JsonObject, JsonTree};
use crate::proxy::{json_refusal, prefixed, ProxyError, Refusal};
use crate::text::{characters, parse_i32, same_text, signed_text, unsigned_text};
use crate::workflows::Workflows;

verus! {

/// The side of an image, in pixels, where none is given that can be read.
pub const DEFAULT_SIDE: i32 = 512;

/// Seeds that nobody asked for are below this.
pub const SEED_LIMIT: u32 = 1_000_000;

/// The side of an image that stands at a place among the pieces of a size.
pub open spec fn side(pieces: Seq<Seq<char>>, place: int) -> i32 {
    if place < pieces.len() {
        match crate::text::parsed_i32(pieces[place]) {
            Some(pixels) => pixels,
            None => DEFAULT_SIDE,
        }
    } else {
        DEFAULT_SIDE
    }
}

/// Width and height in a size such as `1024x768`.
pub open spec fn dimensions(size: Seq<char>) -> (i32, i32) {
    let pieces = crate::text::pieces(size, 'x');
    (side(pieces, 0), side(pieces, 1))
}

/// What a node of a workflow takes from a request.
#[derive(Clone, Copy, PartialEq, Eq, Structural)]
pub enum NodeRole {
    /// The seed
    Sampler,
    /// The size of the images and their number
    LatentImage,
    /// The prompt
    PositivePrompt,
    /// The negative prompt
    NegativePrompt,
    /// Nothing
    Other,
}

/// The metadata of a node that encodes a text, where it has an object of them.
pub open spec fn text_node_meta(node: JsonTree) -> Option<Seq<(Seq<char>, JsonTree)>> {
    if node.text_member("class_type"@) == Some("CLIPTextEncode"@) {
        node.object_member("_meta"@)
    } else {
        None
    }
}

/// The node is a text node whose metadata lacks the title that tells what it encodes.
pub open spec fn title_missing(node: JsonTree) -> bool {
    text_node_meta(node) matches Some(meta) && !has_key(meta, "title"@)
}

/// What a node takes from a request: its class says so, and for a text node its title.
pub open spec fn role(node: JsonTree) -> NodeRole {
    match node.text_member("class_type"@) {
        None => NodeRole::Other,
        Some(class_type) => if class_type == "KSampler"@ {
            NodeRole::Sampler
        } else if class_type == "EmptyLatentImage"@ || class_type == "EmptySD3LatentImage"@ {
            NodeRole::LatentImage
        } else {
            match text_node_meta(node) {
                None => NodeRole::Other,
                Some(meta) => {
                    let title = JsonTree::Object(meta).text_member("title"@);
                    if title == Some("Positive Prompt"@) {
                        NodeRole::PositivePrompt
                    } else if title == Some("Negative Prompt"@) {
                        NodeRole::NegativePrompt
                    } else {
                        NodeRole::Other
                    }
                },
            }
        },
    }
}

/// The seed of a request, or else the one drawn for it.
pub open spec fn seed_for(request: JsonTree, drawn: u32) -> int {
    match request.integer_member("seed"@) {
        Some(seed) => seed as int,
        None => drawn as int,
    }
}

/// The inputs of a node with what its role takes from the request, or why the request is refused.
pub open spec fn rewritten_inputs(
    role: NodeRole,
    inputs: Seq<(Seq<char>, JsonTree)>,
    request: JsonTree,
    drawn: u32,
) -> Result<Seq<(Seq<char>, JsonTree)>, Refusal> {
    match role {
        NodeRole::Sampler => Ok(
            with_member(
                inputs,
                "seed"@,
                JsonTree::Text(crate::text::decimal(seed_for(request, drawn))),
            ),
        ),
        NodeRole::LatentImage => match request.text_member("size"@) {
            None => Err(json_refusal("Failed to get size from JSON"@)),
            Some(size) => {
                let (width, height) = dimensions(size);
                let sized = with_member(
                    with_member(inputs, "width"@, JsonTree::Text(crate::text::decimal(width as int))),
                    "height"@,
                    JsonTree::Text(crate::text::decimal(height as int)),
                );
                match request.integer_member("n"@) {
                    Some(n) => Ok(
                        with_member(sized, "batch_size"@, JsonTree::Text(crate::text::decimal(n as int))),
                    ),
                    None => Ok(sized),
                }
            },
        },
        NodeRole::PositivePrompt => match request.text_member("prompt"@) {
            Some(prompt) => Ok(with_member(inputs, "text"@, JsonTree::Text(prompt))),
            None => Err(json_refusal("Failed to get prompt from JSON"@)),
        },
        NodeRole::NegativePrompt => match request.text_member("negative_prompt"@) {
            Some(prompt) => Ok(with_member(inputs, "text"@, JsonTree::Text(prompt))),
            None => Ok(inputs),
        },
        NodeRole::Other => Ok(inputs),
    }
}

/// A node of a workflow with what it takes from the request, or why the request is refused.
///
/// A node that takes something but has no inputs gets `null` for them.
pub open spec fn rewritten_node(node: JsonTree, request: JsonTree, drawn: u32) -> Result<
    JsonTree,
    Refusal,
> {
    match node {
        JsonTree::Object(members) => if role(node) == NodeRole::Other {
            Ok(node)
        } else {
            match member_of(members, "inputs"@) {
                None => Ok(JsonTree::Object(with_member(members, "inputs"@, JsonTree::Null))),
                Some(JsonTree::Object(inputs)) => match rewritten_inputs(
                    role(node),
                    inputs,
                    request,
                    drawn,
                ) {
                    Ok(rewritten) => Ok(
                        JsonTree::Object(with_member(members, "inputs"@, JsonTree::Object(rewritten))),
                    ),
                    Err(refusal) => Err(refusal),
                },
                Some(_) => Ok(node),
            }
        },
        _ => Ok(node),
    }
}

/// What comes of going through the nodes of a workflow.
pub enum WalkOutcome {
    /// The nodes, rewritten
    Nodes(Seq<(Seq<char>, JsonTree)>),
    /// The request lacks what a node takes, or a text node has no title
    Refused(Refusal),
}

/// The nodes of a workflow, rewritten in order up to the first that stops it.
pub open spec fn walked_nodes(
    nodes: Seq<(Seq<char>, JsonTree)>,
    request: JsonTree,
    drawn: Seq<u32>,
) -> WalkOutcome
    decreases nodes.len(),
{
    if nodes.len() == 0 {
        WalkOutcome::Nodes(Seq::empty())
    } else {
        match walked_nodes(nodes.drop_last(), request, drawn) {
            WalkOutcome::Nodes(done) => if title_missing(nodes.last().1) {
                WalkOutcome::Refused(json_refusal("Failed to get title from workflow"@))
            } else {
                match rewritten_node(nodes.last().1, request, drawn[nodes.len() - 1]) {
                    Ok(node) => WalkOutcome::Nodes(done.push((nodes.last().0, node))),
                    Err(refusal) => WalkOutcome::Refused(refusal),
                }
            },
            stopped => stopped,
        }
    }
}

/// What is sent to ComfyUI: a prompt, and the client that is told of its progress.
pub open spec fn envelope(prompt: JsonTree, client_id: Seq<char>) -> JsonTree {
    JsonTree::Object(seq![("client_id"@, JsonTree::Text(client_id)), ("prompt"@, prompt)])
}

/// What comes of a request.
pub enum TranslationOutcome {
    /// What is to be sent
    Payload(JsonTree),
    /// The request is refused
    Refused(Refusal),
}

/// What comes of a request: the workflow that it names as model, rewritten with its parameters.
pub open spec fn translated(
    request: JsonTree,
    workflows: Map<Seq<char>, JsonTree>,
    client_id: Seq<char>,
    drawn: Seq<u32>,
) -> TranslationOutcome {
    if !(request is Object) {
        TranslationOutcome::Payload(envelope(JsonTree::Text(""@), ""@))
    } else {
        match request.text_member("model"@) {
            None => TranslationOutcome::Refused(json_refusal("Failed to get model name from JSON"@)),
            Some(model) => if !workflows.contains_key(model) {
                TranslationOutcome::Refused(json_refusal("Workflow '"@ + model + "' not found"@))
            } else {
                match workflows[model] {
                    JsonTree::Object(nodes) => match walked_nodes(nodes, request, drawn) {
                        WalkOutcome::Nodes(rewritten) => TranslationOutcome::Payload(
                            envelope(JsonTree::Object(rewritten), client_id),
                        ),
                        WalkOutcome::Refused(refusal) => TranslationOutcome::Refused(refusal),
                    },
                    other => TranslationOutcome::Payload(envelope(other, client_id)),
                }
            },
        }
    }
}

/// The number of nodes of the workflow that a request names.
pub open spec fn nodes_named(request: JsonTree, workflows: Map<Seq<char>, JsonTree>) -> nat {
    match request.text_member("model"@) {
        Some(model) => if workflows.contains_key(model) {
            match workflows[model] {
                JsonTree::Object(nodes) => nodes.len(),
                _ => 0,
            }
        } else {
            0
        },
        None => 0,
    }
}

/// Parses a size such as `1024x768` to width and height.
pub fn parse_dimensions(size: &str) -> (result: (i32, i32))
    ensures
        result == dimensions(size@),
{
    let chars = characters(size);
    let first = piece_end(&chars, 0);
    let width = match parse_i32(&chars, 0, first) {
        Some(pixels) => pixels,
        None => DEFAULT_SIDE,
    };
    let ghost pieces = crate::text::pieces(size@, 'x');
    proof {
        size@.index_of_first_ensures('x');
        assert(chars@.subrange(0, first as int) =~= size@.take(first as int));
        assert(size@.contains('x') <==> first < size@.len()) by {
            if first < size@.len() {
                assert(size@[first as int] == 'x');
            }
        }
        if !size@.contains('x') {
            assert(size@.take(first as int) =~= size@);
        } else {
            assert(size@.index_of_first('x') == Some(first as int));
        }
        assert(pieces[0] == size@.take(first as int));
    }
    if first == chars.len() {
        return (width, DEFAULT_SIDE);
    }
    let second = piece_end(&chars, first + 1);
    let ghost rest = size@.skip(first + 1);
    proof {
        rest.index_of_first_ensures('x');
        assert(chars@.subrange(first + 1, second as int) =~= rest.take(second - first - 1));
        assert(rest.contains('x') <==> second < size@.len()) by {
            if second < size@.len() {
                assert(rest[second - first - 1] == 'x');
            }
        }
        if !rest.contains('x') {
            assert(rest.take(second - first - 1) =~= rest);
        } else {
            let found = rest.index_of_first('x')->0;
            assert(rest[found] == chars@[first + 1 + found]);
            assert(rest[second - first - 1] == 'x');
            assert(rest.index_of_first('x') == Some(second - first - 1));
        }
        assert(pieces[1] == crate::text::pieces(rest, 'x')[0]);
        assert(pieces[1] == rest.take(second - first - 1));
    }
    let height = match parse_i32(&chars, first + 1, second) {
        Some(pixels) => pixels,
        None => DEFAULT_SIDE,
    };
    (width, height)
}

/// The place of the next `x`, or the end.
fn piece_end(chars: &Vec<char>, start: usize) -> (end: usize)
    requires
        start <= chars@.len(),
    ensures
        start <= end <= chars@.len(),
        end < chars@.len() ==> chars@[end as int] == 'x',
        forall|i: int| start <= i < end ==> chars@[i] != 'x',
{
    let mut end: usize = start;
    while end < chars.len() && chars[end] != 'x'
        invariant
            start <= end <= chars@.len(),
            forall|i: int| start <= i < end ==> chars@[i] != 'x',
        decreases chars.len() - end,
    {
        end = end + 1;
    }
    end
}

/// Whether a text node lacks its title.
pub fn lacks_title(node: &Json) -> (missing: bool)
    ensures
        missing == title_missing(node@),
{
    match node.get_str("class_type") {
        Some(class_type) => {
            if !same_text(class_type, "CLIPTextEncode") {
                return false;
            }
        },
        None => {
            return false;
        },
    }
    match node.get_object("_meta") {
        Some(meta) => meta.get("title").is_none(),
        None => false,
    }
}

/// What a node takes from a request.
pub fn node_role(node: &Json) -> (result: NodeRole)
    ensures
        result == role(node@),
{
    let class_type = match node.get_str("class_type") {
        Some(class_type) => class_type,
        None => {
            return NodeRole::Other;
        },
    };
    if same_text(class_type, "KSampler") {
        return NodeRole::Sampler;
    }
    if same_text(class_type, "EmptyLatentImage") || same_text(class_type, "EmptySD3LatentImage") {
        return NodeRole::LatentImage;
    }
    if !same_text(class_type, "CLIPTextEncode") {
        return NodeRole::Other;
    }
    match node.get_object("_meta") {
        None => NodeRole::Other,
        Some(meta) => match meta.get("title") {
            None => NodeRole::Other,
            Some(title) => match title.as_str() {
                None => NodeRole::Other,
                Some(title) => {
                    if same_text(title, "Positive Prompt") {
                        NodeRole::PositivePrompt
                    } else if same_text(title, "Negative Prompt") {
                        NodeRole::NegativePrompt
                    } else {
                        NodeRole::Other
                    }
                },
            },
        },
    }
}

/// Puts what a role takes from the request into the inputs of a node.
pub fn rewrite_inputs(role: NodeRole, inputs: &JsonObject, request: &Json, drawn: u32) -> (result: Result<
    JsonObject,
    ProxyError,
>)
    ensures
        match result {
            Ok(rewritten) => rewritten_inputs(role, inputs@, request@, drawn) == Ok::<
                Seq<(Seq<char>, JsonTree)>,
                Refusal,
            >(rewritten@),
            Err(error) => rewritten_inputs(role, inputs@, request@, drawn) == Err::<
                Seq<(Seq<char>, JsonTree)>,
                Refusal,
            >(error@),
        },
{
    let mut rewritten = inputs.clone();
    match role {
        NodeRole::Sampler => {
            let seed = match request.get_i64("seed") {
                Some(seed) => signed_text(seed),
                None => unsigned_text(drawn as u64),
            };
            rewritten.insert("seed".to_owned(), Json::Text(seed));
        },
        NodeRole::LatentImage => {
            match request.get_str("size") {
                Some(size) => {
                    let (width, height) = parse_dimensions(size);
                    rewritten.insert("width".to_owned(), Json::Text(signed_text(width as i64)));
                    rewritten.insert("height".to_owned(), Json::Text(signed_text(height as i64)));
                },
                None => {
                    return Err(ProxyError::Json("Failed to get size from JSON".to_owned()));
                },
            }
            match request.get_i64("n") {
                Some(n) => {
                    rewritten.insert("batch_size".to_owned(), Json::Text(signed_text(n)));
                },
                None => {},
            }
        },
        NodeRole::PositivePrompt => match request.get_str("prompt") {
            Some(prompt) => {
                rewritten.insert("text".to_owned(), Json::Text(prompt.to_owned()));
            },
            None => {
                return Err(ProxyError::Json("Failed to get prompt from JSON".to_owned()));
            },
        },
        NodeRole::NegativePrompt => match request.get_str("negative_prompt") {
            Some(prompt) => {
                rewritten.insert("text".to_owned(), Json::Text(prompt.to_owned()));
            },
            None => {},
        },
        NodeRole::Other => {},
    }
    Ok(rewritten)
}

/// Puts what a node takes from the request into it.
pub fn rewrite_node(node: &Json, request: &Json, drawn: u32) -> (result: Result<Json, ProxyError>)
    ensures
        match result {
            Ok(rewritten) => rewritten_node(node@, request@, drawn) == Ok::<JsonTree, Refusal>(rewritten@),
            Err(error) => rewritten_node(node@, request@, drawn) == Err::<JsonTree, Refusal>(error@),
        },
{
    let members = match node.as_object() {
        Some(members) => members,
        None => {
            return Ok(node.clone());
        },
    };
    let role = node_role(node);
    if role == NodeRole::Other {
        return Ok(node.clone());
    }
    match members.get("inputs") {
        None => {
            let mut rewritten = members.clone();
            rewritten.insert("inputs".to_owned(), Json::Null);
            Ok(Json::Object(rewritten))
        },
        Some(value) => match value.as_object() {
            None => Ok(node.clone()),
            Some(inputs) => match rewrite_inputs(role, inputs, request, drawn) {
                Ok(inputs) => {
                    let mut rewritten = members.clone();
                    rewritten.insert("inputs".to_owned(), Json::Object(inputs));
                    Ok(Json::Object(rewritten))
                },
                Err(error) => Err(error),
            },
        },
    }
}

/// What came of going through the nodes of a workflow.
pub enum Walk {
    /// The nodes, rewritten
    Nodes(JsonObject),
    /// The request lacks what a node takes, or a text node has no title
    Refused(ProxyError),
}

impl View for Walk {
    type V = WalkOutcome;

    open spec fn view(&self) -> WalkOutcome {
        match self {
            Walk::Nodes(nodes) => WalkOutcome::Nodes(nodes@),
            Walk::Refused(error) => WalkOutcome::Refused(error@),
        }
    }
}

/// A walk that is stopped among the first nodes is stopped there, whatever follows.
proof fn stopped_walk_stands(
    nodes: Seq<(Seq<char>, JsonTree)>,
    count: int,
    request: JsonTree,
    drawn: Seq<u32>,
)
    requires
        0 <= count <= nodes.len(),
        !(walked_nodes(nodes.take(count), request, drawn) is Nodes),
    ensures
        walked_nodes(nodes, request, drawn) == walked_nodes(nodes.take(count), request, drawn),
    decreases nodes.len(),
{
    if count == nodes.len() {
        assert(nodes.take(count) =~= nodes);
    } else {
        assert(nodes.drop_last().take(count) =~= nodes.take(count));
        stopped_walk_stands(nodes.drop_last(), count, request, drawn);
    }
}

/// Rewrites the nodes of a workflow in order, with a drawn seed for each.
pub fn rewrite_nodes(nodes: &JsonObject, request: &Json, drawn: &Vec<u32>) -> (walk: Walk)
    requires
        nodes@.len() <= drawn@.len(),
    ensures
        walk@ == walked_nodes(nodes@, request@, drawn@),
{
    let len = nodes.len();
    let mut rewritten = JsonObject::new();
    for i in 0..len
        invariant
            len == nodes@.len(),
            len <= drawn@.len(),
            crate::json::keys_ascend(nodes@),
            rewritten@.len() == i,
            forall|j: int| 0 <= j < i ==> (#[trigger] rewritten@[j]).0 == nodes@[j].0,
            walked_nodes(nodes@.take(i as int), request@, drawn@) == WalkOutcome::Nodes(rewritten@),
    {
        let ghost next = nodes@.take(i + 1);
        assert(next.drop_last() =~= nodes@.take(i as int));
        assert(next.last() == nodes@[i as int]);
        let node = nodes.value(i);
        if lacks_title(node) {
            proof {
                stopped_walk_stands(nodes@, i + 1, request@, drawn@);
            }
            return Walk::Refused(ProxyError::Json("Failed to get title from workflow".to_owned()));
        }
        match rewrite_node(node, request, drawn[i]) {
            Ok(node) => {
                assert forall|j: int| 0 <= j < i implies crate::text::text_before(
                    (#[trigger] rewritten@[j]).0,
                    nodes@[i as int].0,
                ) by {
                    assert(crate::text::text_before(nodes@[j].0, nodes@[i as int].0));
                }
                rewritten.push(nodes.key(i).to_owned(), node);
            },
            Err(error) => {
                proof {
                    stopped_walk_stands(nodes@, i + 1, request@, drawn@);
                }
                return Walk::Refused(error);
            },
        }
    }
    assert(nodes@.take(len as int) =~= nodes@);
    Walk::Nodes(rewritten)
}

/// Wraps a prompt up for ComfyUI.
fn enveloped(prompt: Json, client_id: &str) -> (payload: Json)
    ensures
        payload@ == envelope(prompt@, client_id@),
{
    let mut payload = JsonObject::new();
    payload.push("client_id".to_owned(), Json::Text(client_id.to_owned()));
    proof {
        reveal_strlit("client_id");
        reveal_strlit("prompt");
        assert(crate::text::text_before("client_id"@, "prompt"@));
    }
    payload.push("prompt".to_owned(), prompt);
    assert(payload@ =~= envelope(prompt@, client_id@)->Object_0);
    Json::Object(payload)
}

/// What came of a request.
pub enum Translation {
    /// What is to be sent
    Payload(Json),
    /// The request is refused
    Refused(ProxyError),
}

impl View for Translation {
    type V = TranslationOutcome;

    open spec fn view(&self) -> TranslationOutcome {
        match self {
            Translation::Payload(payload) => TranslationOutcome::Payload(payload@),
            Translation::Refused(error) => TranslationOutcome::Refused(error@),
        }
    }
}

/// Translates a request, given a drawn seed for each node of the workflow that it names.
pub fn translate(request: &Json, workflows: &Workflows, client_id: &str, drawn: &Vec<u32>) -> (result:
    Translation)
    requires
        nodes_named(request@, workflows@) <= drawn@.len(),
    ensures
        result@ == translated(request@, workflows@, client_id@, drawn@),
{
    if request.as_object().is_none() {
        return Translation::Payload(enveloped(Json::Text("".to_owned()), ""));
    }
    let model = match request.get_str("model") {
        Some(model) => model,
        None => {
            return Translation::Refused(
                ProxyError::Json("Failed to get model name from JSON".to_owned()),
            );
        },
    };
    let workflow = match workflows.get(model) {
        Some(workflow) => workflow,
        None => {
            let mut message = prefixed("Workflow '", model);
            message.append("' not found");
            return Translation::Refused(ProxyError::Json(message));
        },
    };
    match workflow.as_object() {
        Some(nodes) => match rewrite_nodes(nodes, request, drawn) {
            Walk::Nodes(rewritten) => Translation::Payload(
                enveloped(Json::Object(rewritten), client_id),
            ),
            Walk::Refused(error) => Translation::Refused(error),
        },
        None => Translation::Payload(enveloped(workflow.clone(), client_id)),
    }
}

/// The number of nodes of the workflow that a request names.
fn count_nodes(request: &Json, workflows: &Workflows) -> (count: usize)
    ensures
        count == nodes_named(request@, workflows@),
{
    match request.get_str("model") {
        Some(model) => match workflows.get(model) {
            Some(workflow) => match workflow.as_object() {
                Some(nodes) => nodes.len(),
                None => 0,
            },
            None => 0,
        },
        None => 0,
    }
}

/// `rand::Rng::random_range` of the generator that `rand::rng` gives: a number from zero up to a
/// limit that is left out. It panics where that range is empty.
#[verifier::external_body]
fn draw_below(limit: u32) -> (number: u32)
    requires
        limit > 0,
    ensures
        number < limit,
{
    rand::rng().random_range(0..limit)
}

/// Every seed is below the limit.
pub open spec fn seeds_in_range(drawn: Seq<u32>) -> bool {
    forall|i: int| 0 <= i < drawn.len() ==> #[trigger] drawn[i] < SEED_LIMIT
}

/// Draws seeds.
fn draw_seeds(count: usize) -> (drawn: Vec<u32>)
    ensures
        drawn@.len() == count,
        seeds_in_range(drawn@),
{
    let mut drawn: Vec<u32> = Vec::new();
    for i in 0..count
        invariant
            drawn@.len() == i,
            seeds_in_range(drawn@),
    {
        drawn.push(draw_below(SEED_LIMIT));
    }
    drawn
}

/// What is answered to a body that was read as a request, for some seeds.
pub open spec fn payload_for(
    request: JsonTree,
    workflows: Map<Seq<char>, JsonTree>,
    client_id: Seq<char>,
    drawn: Seq<u32>,
    result: Result<Seq<u8>, Refusal>,
) -> bool {
    match translated(request, workflows, client_id, drawn) {
        TranslationOutcome::Payload(payload) => result == Ok::<Seq<u8>, Refusal>(
            crate::document::serialized_json(payload),
        ),
        TranslationOutcome::Refused(refusal) => result == Err::<Seq<u8>, Refusal>(refusal),
    }
}

/// The bytes or the error, as they are shown.
pub open spec fn shown(result: Result<Vec<u8>, ProxyError>) -> Result<Seq<u8>, Refusal> {
    match result {
        Ok(bytes) => Ok(bytes@),
        Err(error) => Err(error@),
    }
}

/// What a body is answered: an empty one itself, one that is no JSON an error, and any other what
/// comes of it as a request, for some seeds.
pub open spec fn payload_result(
    body: Seq<u8>,
    workflows: Map<Seq<char>, JsonTree>,
    client_id: Seq<char>,
    result: Result<Seq<u8>, Refusal>,
) -> bool {
    if body.len() == 0 {
        result == Ok::<Seq<u8>, Refusal>(body)
    } else {
        match crate::document::parsed_json(body) {
            Err(message) => result == Err::<Seq<u8>, Refusal>(
                json_refusal("Failed to parse JSON: "@ + message),
            ),
            Ok(request) => exists|drawn: Seq<u32>| #[trigger]
                seeds_in_range(drawn) && drawn.len() == nodes_named(request, workflows) && payload_for(
                    request,
                    workflows,
                    client_id,
                    drawn,
                    result,
                ),
        }
    }
}

/// Transforms an OpenAI API request into a ComfyUI prompt request.
///
/// This function performs the translation between the OpenAI image generation API format and
/// ComfyUI's workflow format.
///
/// Mapping:
/// - `model` -> workflow name (used to look up workflow JSON)
/// - `prompt` -> positive prompt text for image generation
/// - `negative_prompt` -> negative prompt for image generation
/// - `seed` -> seed for image generation
/// - `size` -> image dimensions (e.g., "1024x1024" -> width/height)
/// - `n` -> batch_size (number of images to generate)
///
/// Returns the ComfyUI prompt as JSON, ready to be handed in, or an error where the request or the
/// workflow that it names lacks what the transformation takes.
pub fn create_json_payload(body: &[u8], workflows: &Workflows, client_id: &str) -> (result: Result<
    Vec<u8>,
    ProxyError,
>)
    ensures
        payload_result(body@, workflows@, client_id@, shown(result)),
{
    if body.len() == 0 {
        let empty: Vec<u8> = Vec::new();
        assert(empty@ =~= body@);
        return Ok(empty);
    }
    let request = match Json::from_bytes(body) {
        Ok(request) => request,
        Err(message) => {
            return Err(ProxyError::Json(prefixed("Failed to parse JSON: ", message.as_str())));
        },
    };
    let drawn = draw_seeds(count_nodes(&request, workflows));
    let answer = match translate(&request, workflows, client_id, &drawn) {
        Translation::Payload(payload) => match payload.to_bytes() {
            Ok(bytes) => Ok(bytes),
            Err(message) => Err(
                ProxyError::Json(prefixed("Failed to serialize JSON: ", message.as_str())),
            ),
        },
        Translation::Refused(error) => Err(error),
    };
    assert(seeds_in_range(drawn@));
    assert(payload_for(request@, workflows@, client_id@, drawn@, shown(answer)));
    answer
}

/// Whether a request is translated, or is refused and with what words, does not hang on the seeds
/// or the client.
pub proof fn refusal_hangs_on_request_alone(
    request: JsonTree,
    workflows: Map<Seq<char>, JsonTree>,
    client_id: Seq<char>,
    drawn: Seq<u32>,
    other_client: Seq<char>,
    other_drawn: Seq<u32>,
)
    ensures
        match (
            translated(request, workflows, client_id, drawn),
            translated(request, workflows, other_client, other_drawn),
        ) {
            (TranslationOutcome::Payload(_), TranslationOutcome::Payload(_)) => true,
            (TranslationOutcome::Refused(a), TranslationOutcome::Refused(b)) => a == b,
            _ => false,
        },
{
    if let Some(model) = request.text_member("model"@) {
        if workflows.contains_key(model) {
            if let JsonTree::Object(nodes) = workflows[model] {
                walk_stops_whatever_is_drawn(nodes, request, drawn, other_drawn);
            }
        }
    }
}

proof fn walk_stops_whatever_is_drawn(
    nodes: Seq<(Seq<char>, JsonTree)>,
    request: JsonTree,
    drawn: Seq<u32>,
    other_drawn: Seq<u32>,
)
    ensures
        match (walked_nodes(nodes, request, drawn), walked_nodes(nodes, request, other_drawn)) {
            (WalkOutcome::Nodes(_), WalkOutcome::Nodes(_)) => true,
            (WalkOutcome::Refused(a), WalkOutcome::Refused(b)) => a == b,
            _ => false,
        },
    decreases nodes.len(),
{
    if nodes.len() > 0 {
        walk_stops_whatever_is_drawn(nodes.drop_last(), request, drawn, other_drawn);
    }
}

/// A request that cannot be translated is answered as a bad request.
pub proof fn refused_request_is_bad_request(
    request: JsonTree,
    workflows: Map<Seq<char>, JsonTree>,
    client_id: Seq<char>,
    drawn: Seq<u32>,
)
    ensures
        translated(request, workflows, client_id, drawn) matches TranslationOutcome::Refused(refusal)
            ==> crate::proxy::status_of(refusal.kind) == 400,
{
    if let Some(model) = request.text_member("model"@) {
        if workflows.contains_key(model) {
            if let JsonTree::Object(nodes) = workflows[model] {
                refused_walk_is_json_error(nodes, request, drawn);
            }
        }
    }
}

proof fn refused_walk_is_json_error(
    nodes: Seq<(Seq<char>, JsonTree)>,
    request: JsonTree,
    drawn: Seq<u32>,
)
    ensures
        walked_nodes(nodes, request, drawn) matches WalkOutcome::Refused(refusal)
            ==> refusal.kind is Json,
    decreases nodes.len(),
{
    if nodes.len() > 0 {
        refused_walk_is_json_error(nodes.drop_last(), request, drawn);
    }
}

/// The inputs that a role may change.
pub open spec fn taken_by(role: NodeRole, input: Seq<char>) -> bool {
    match role {
        NodeRole::Sampler => input == "seed"@,
        NodeRole::LatentImage => input == "width"@ || input == "height"@ || input == "batch_size"@,
        NodeRole::PositivePrompt => input == "text"@,
        NodeRole::NegativePrompt => input == "text"@,
        NodeRole::Other => false,
    }
}

/// A role changes no input but those that it takes from the request, and keeps the inputs in
/// order.
pub proof fn other_inputs_are_kept(
    role: NodeRole,
    inputs: Seq<(Seq<char>, JsonTree)>,
    request: JsonTree,
    drawn: u32,
)
    requires
        crate::json::keys_ascend(inputs),
        rewritten_inputs(role, inputs, request, drawn) is Ok,
    ensures
        crate::json::keys_ascend(rewritten_inputs(role, inputs, request, drawn)->Ok_0),
        forall|input: Seq<char>|
            !taken_by(role, input) ==> #[trigger] member_of(
                rewritten_inputs(role, inputs, request, drawn)->Ok_0,
                input,
            ) == member_of(inputs, input),
{
    match role {
        NodeRole::Sampler => {
            crate::json::stored_member_is_found(
                inputs,
                "seed"@,
                JsonTree::Text(crate::text::decimal(seed_for(request, drawn))),
            );
        },
        NodeRole::LatentImage => {
            let (width, height) = dimensions(request.text_member("size"@)->0);
            let width = JsonTree::Text(crate::text::decimal(width as int));
            let height = JsonTree::Text(crate::text::decimal(height as int));
            let wide = with_member(inputs, "width"@, width);
            crate::json::stored_member_is_found(inputs, "width"@, width);
            crate::json::stored_member_is_found(wide, "height"@, height);
            if let Some(n) = request.integer_member("n"@) {
                crate::json::stored_member_is_found(
                    with_member(wide, "height"@, height),
                    "batch_size"@,
                    JsonTree::Text(crate::text::decimal(n as int)),
                );
            }
        },
        NodeRole::PositivePrompt => {
            crate::json::stored_member_is_found(
                inputs,
                "text"@,
                JsonTree::Text(request.text_member("prompt"@)->0),
            );
        },
        NodeRole::NegativePrompt => {
            if let Some(prompt) = request.text_member("negative_prompt"@) {
                crate::json::stored_member_is_found(inputs, "text"@, JsonTree::Text(prompt));
            }
        },
        NodeRole::Other => {},
    }
}

/// What a request says reaches the inputs of the nodes: the seed, or else the drawn one, those
/// that sample; width, height and number of images those that make the image; the prompt and the
/// negative prompt the text nodes with these titles.
pub proof fn request_reaches_inputs(
    role: NodeRole,
    inputs: Seq<(Seq<char>, JsonTree)>,
    request: JsonTree,
    drawn: u32,
)
    requires
        crate::json::keys_ascend(inputs),
        rewritten_inputs(role, inputs, request, drawn) is Ok,
    ensures
        ({
            let rewritten = JsonTree::Object(rewritten_inputs(role, inputs, request, drawn)->Ok_0);
            match role {
                NodeRole::Sampler => rewritten.text_member("seed"@) == Some(
                    crate::text::decimal(seed_for(request, drawn)),
                ),
                NodeRole::LatentImage => request.text_member("size"@) matches Some(size) && {
                    &&& rewritten.text_member("width"@) == Some(
                        crate::text::decimal(dimensions(size).0 as int),
                    )
                    &&& rewritten.text_member("height"@) == Some(
                        crate::text::decimal(dimensions(size).1 as int),
                    )
                    &&& match request.integer_member("n"@) {
                        Some(n) => rewritten.text_member("batch_size"@) == Some(
                            crate::text::decimal(n as int),
                        ),
                        None => rewritten.member("batch_size"@) == member_of(inputs, "batch_size"@),
                    }
                },
                NodeRole::PositivePrompt => request.text_member("prompt"@) is Some
                    && rewritten.text_member("text"@) == request.text_member("prompt"@),
                NodeRole::NegativePrompt => match request.text_member("negative_prompt"@) {
                    Some(prompt) => rewritten.text_member("text"@) == Some(prompt),
                    None => rewritten == JsonTree::Object(inputs),
                },
                NodeRole::Other => rewritten == JsonTree::Object(inputs),
            }
        }),
{
    match role {
        NodeRole::Sampler => {
            crate::json::stored_member_is_found(
                inputs,
                "seed"@,
                JsonTree::Text(crate::text::decimal(seed_for(request, drawn))),
            );
        },
        NodeRole::LatentImage => {
            let (width, height) = dimensions(request.text_member("size"@)->0);
            let width = JsonTree::Text(crate::text::decimal(width as int));
            let height = JsonTree::Text(crate::text::decimal(height as int));
            let wide = with_member(inputs, "width"@, width);
            let sized = with_member(wide, "height"@, height);
            reveal_strlit("width");
            reveal_strlit("height");
            reveal_strlit("batch_size");
            crate::json::stored_member_is_found(inputs, "width"@, width);
            crate::json::stored_member_is_found(wide, "height"@, height);
            assert("width"@[0] != "height"@[0]);
            assert("batch_size"@[0] != "height"@[0]);
            assert("batch_size"@[0] != "width"@[0]);
            assert(member_of(sized, "width"@) == Some(width));
            assert(member_of(sized, "height"@) == Some(height));
            assert(member_of(sized, "batch_size"@) == member_of(wide, "batch_size"@));
            if let Some(n) = request.integer_member("n"@) {
                let count = JsonTree::Text(crate::text::decimal(n as int));
                let full = with_member(sized, "batch_size"@, count);
                crate::json::stored_member_is_found(sized, "batch_size"@, count);
                assert(member_of(full, "width"@) == Some(width));
                assert(member_of(full, "height"@) == Some(height));
            }
        },
        NodeRole::PositivePrompt => {
            crate::json::stored_member_is_found(
                inputs,
                "text"@,
                JsonTree::Text(request.text_member("prompt"@)->0),
            );
        },
        NodeRole::NegativePrompt => {
            if let Some(prompt) = request.text_member("negative_prompt"@) {
                crate::json::stored_member_is_found(inputs, "text"@, JsonTree::Text(prompt));
            }
        },
        NodeRole::Other => {},
    }
}

/// Rewriting a node changes none of its members but its inputs, and so not what it takes.
pub proof fn only_inputs_change(node: JsonTree, request: JsonTree, drawn: u32)
    requires
        node matches JsonTree::Object(members) ==> crate::json::keys_ascend(members),
        rewritten_node(node, request, drawn) is Ok,
    ensures
        ({
            let rewritten = rewritten_node(node, request, drawn)->Ok_0;
            &&& forall|key: Seq<char>|
                key != "inputs"@ ==> #[trigger] rewritten.member(key) == node.member(key)
            &&& role(rewritten) == role(node)
            &&& title_missing(rewritten) == title_missing(node)
            &&& role(node) == NodeRole::Other ==> rewritten == node
        }),
{
    if let JsonTree::Object(members) = node {
        reveal_strlit("inputs");
        reveal_strlit("class_type");
        reveal_strlit("_meta");
        assert("inputs"@[0] != "class_type"@[0]);
        assert("inputs"@[0] != "_meta"@[0]);
        let rewritten = rewritten_node(node, request, drawn)->Ok_0;
        if role(node) != NodeRole::Other {
            match member_of(members, "inputs"@) {
                None => {
                    crate::json::stored_member_is_found(members, "inputs"@, JsonTree::Null);
                },
                Some(JsonTree::Object(inputs)) => {
                    let changed = rewritten_inputs(role(node), inputs, request, drawn)->Ok_0;
                    crate::json::stored_member_is_found(members, "inputs"@, JsonTree::Object(changed));
                },
                Some(_) => {},
            }
        }
        assert forall|key: Seq<char>| key != "inputs"@ implies #[trigger] rewritten.member(key)
            == node.member(key) by {}
        assert(rewritten.member("class_type"@) == node.member("class_type"@));
        assert(rewritten.member("_meta"@) == node.member("_meta"@));
    }
}

/// Inputs that hold what the request says already stay as they are.
proof fn inputs_are_stable(
    role: NodeRole,
    inputs: Seq<(Seq<char>, JsonTree)>,
    request: JsonTree,
    drawn: u32,
)
    requires
        crate::json::keys_ascend(inputs),
        rewritten_inputs(role, inputs, request, drawn) is Ok,
    ensures
        ({
            let rewritten = rewritten_inputs(role, inputs, request, drawn)->Ok_0;
            rewritten_inputs(role, rewritten, request, drawn) == Ok::<
                Seq<(Seq<char>, JsonTree)>,
                Refusal,
            >(rewritten)
        }),
{
    let rewritten = rewritten_inputs(role, inputs, request, drawn)->Ok_0;
    other_inputs_are_kept(role, inputs, request, drawn);
    request_reaches_inputs(role, inputs, request, drawn);
    match role {
        NodeRole::Sampler => {
            crate::json::storing_again_changes_nothing(
                rewritten,
                "seed"@,
                JsonTree::Text(crate::text::decimal(seed_for(request, drawn))),
            );
        },
        NodeRole::LatentImage => {
            let (width, height) = dimensions(request.text_member("size"@)->0);
            crate::json::storing_again_changes_nothing(
                rewritten,
                "width"@,
                JsonTree::Text(crate::text::decimal(width as int)),
            );
            crate::json::storing_again_changes_nothing(
                rewritten,
                "height"@,
                JsonTree::Text(crate::text::decimal(height as int)),
            );
            if let Some(n) = request.integer_member("n"@) {
                crate::json::storing_again_changes_nothing(
                    rewritten,
                    "batch_size"@,
                    JsonTree::Text(crate::text::decimal(n as int)),
                );
            }
        },
        NodeRole::PositivePrompt => {
            crate::json::storing_again_changes_nothing(
                rewritten,
                "text"@,
                JsonTree::Text(request.text_member("prompt"@)->0),
            );
        },
        NodeRole::NegativePrompt => {
            if let Some(prompt) = request.text_member("negative_prompt"@) {
                crate::json::storing_again_changes_nothing(rewritten, "text"@, JsonTree::Text(prompt));
            }
        },
        NodeRole::Other => {},
    }
}

/// Rewriting a node twice with the same request is rewriting it once.
pub proof fn rewriting_again_changes_nothing(node: JsonTree, request: JsonTree, drawn: u32)
    requires
        node matches JsonTree::Object(members) ==> crate::json::keys_ascend(members),
        node.object_member("inputs"@) matches Some(inputs) ==> crate::json::keys_ascend(inputs),
        rewritten_node(node, request, drawn) is Ok,
    ensures
        ({
            let rewritten = rewritten_node(node, request, drawn)->Ok_0;
            rewritten_node(rewritten, request, drawn) == Ok::<JsonTree, Refusal>(rewritten)
        }),
{
    only_inputs_change(node, request, drawn);
    if let JsonTree::Object(members) = node {
        if role(node) != NodeRole::Other {
            match member_of(members, "inputs"@) {
                None => {
                    crate::json::stored_member_is_found(members, "inputs"@, JsonTree::Null);
                },
                Some(JsonTree::Object(inputs)) => {
                    let changed = rewritten_inputs(role(node), inputs, request, drawn)->Ok_0;
                    let value = JsonTree::Object(changed);
                    inputs_are_stable(role(node), inputs, request, drawn);
                    crate::json::stored_member_is_found(members, "inputs"@, value);
                    crate::json::storing_again_changes_nothing(
                        with_member(members, "inputs"@, value),
                        "inputs"@,
                        value,
                    );
                },
                Some(_) => {},
            }
        }
    }
}

/// A request that gives the seed leaves nothing to chance.
pub proof fn given_seed_settles_translation(
    request: JsonTree,
    workflows: Map<Seq<char>, JsonTree>,
    client_id: Seq<char>,
    drawn: Seq<u32>,
    other_drawn: Seq<u32>,
)
    requires
        request.integer_member("seed"@) is Some,
    ensures
        translated(request, workflows, client_id, drawn) == translated(
            request,
            workflows,
            client_id,
            other_drawn,
        ),
{
    if let Some(model) = request.text_member("model"@) {
        if workflows.contains_key(model) {
            if let JsonTree::Object(nodes) = workflows[model] {
                given_seed_settles_walk(nodes, request, drawn, other_drawn);
            }
        }
    }
}

proof fn given_seed_settles_walk(
    nodes: Seq<(Seq<char>, JsonTree)>,
    request: JsonTree,
    drawn: Seq<u32>,
    other_drawn: Seq<u32>,
)
    requires
        request.integer_member("seed"@) is Some,
    ensures
        walked_nodes(nodes, request, drawn) == walked_nodes(nodes, request, other_drawn),
    decreases nodes.len(),
{
    if nodes.len() > 0 {
        given_seed_settles_walk(nodes.drop_last(), request, drawn, other_drawn);
    }
}

/// A workflow that was gone through keeps its nodes, each rewritten for itself.
pub proof fn nodes_are_rewritten_one_by_one(
    nodes: Seq<(Seq<char>, JsonTree)>,
    request: JsonTree,
    drawn: Seq<u32>,
)
    requires
        walked_nodes(nodes, request, drawn) is Nodes,
    ensures
        ({
            let rewritten = walked_nodes(nodes, request, drawn)->Nodes_0;
            &&& rewritten.len() == nodes.len()
            &&& forall|i: int|
                0 <= i < nodes.len() ==> (#[trigger] rewritten[i]).0 == nodes[i].0 && rewritten_node(
                    nodes[i].1,
                    request,
                    drawn[i],
                ) == Ok::<JsonTree, Refusal>(rewritten[i].1) && !title_missing(nodes[i].1)
        }),
    decreases nodes.len(),
{
    if nodes.len() > 0 {
        nodes_are_rewritten_one_by_one(nodes.drop_last(), request, drawn);
        let rewritten = walked_nodes(nodes, request, drawn)->Nodes_0;
        let before = walked_nodes(nodes.drop_last(), request, drawn)->Nodes_0;
        assert forall|i: int| 0 <= i < nodes.len() implies (#[trigger] rewritten[i]).0 == nodes[i].0
            && rewritten_node(nodes[i].1, request, drawn[i]) == Ok::<JsonTree, Refusal>(rewritten[i].1)
            && !title_missing(nodes[i].1) by {
            if i < nodes.len() - 1 {
                assert(rewritten[i] == before[i]);
                assert(nodes[i] == nodes.drop_last()[i]);
            }
        }
    }
}

/// A request that names a workflow with a text node whose metadata lacks the title is refused.
pub proof fn untitled_text_node_is_refused(
    request: JsonTree,
    workflows: Map<Seq<char>, JsonTree>,
    client_id: Seq<char>,
    drawn: Seq<u32>,
    model: Seq<char>,
    nodes: Seq<(Seq<char>, JsonTree)>,
    place: int,
)
    requires
        request.text_member("model"@) == Some(model),
        workflows.contains_key(model),
        workflows[model] == JsonTree::Object(nodes),
        0 <= place < nodes.len(),
        title_missing(nodes[place].1),
    ensures
        translated(request, workflows, client_id, drawn) is Refused,
{
    if walked_nodes(nodes, request, drawn) is Nodes {
        nodes_are_rewritten_one_by_one(nodes, request, drawn);
        let rewritten = walked_nodes(nodes, request, drawn)->Nodes_0;
        assert(rewritten[place].0 == nodes[place].0);
    }
}

/// A size that is written as two numbers with an `x` between them gives these two.
pub proof fn written_size_is_read(width: i32, height: i32)
    ensures
        dimensions(crate::text::decimal(width as int) + seq!['x'] + crate::text::decimal(height as int))
            == (width, height),
{
    let w = crate::text::decimal(width as int);
    let h = crate::text::decimal(height as int);
    let size = w + seq!['x'] + h;
    decimal_has_no_x(width as int);
    decimal_has_no_x(height as int);
    size.index_of_first_ensures('x');
    assert(size[w.len() as int] == 'x');
    assert(size.contains('x'));
    assert forall|i: int| 0 <= i < w.len() implies size[i] != 'x' by {
        assert(size[i] == w[i]);
    }
    let end = size.index_of_first('x')->0;
    assert(end == w.len());
    assert(size.take(end) =~= w);
    assert(size.skip(end + 1) =~= h);
    assert(!h.contains('x'));
    let pieces = crate::text::pieces(size, 'x');
    assert(crate::text::pieces(h, 'x') == seq![h]);
    assert(pieces =~= seq![w, h]);
    crate::text::parsed_decimal_is_number(width);
    crate::text::parsed_decimal_is_number(height);
}

proof fn decimal_has_no_x(n: int)
    ensures
        forall|i: int| 0 <= i < crate::text::decimal(n).len() ==> crate::text::decimal(n)[i] != 'x',
{
    let digits = crate::text::decimal_digits((if n < 0 { -n } else { n }) as nat);
    crate::text::decimal_digits_stand_for_number((if n < 0 { -n } else { n }) as nat);
    assert forall|i: int| 0 <= i < crate::text::decimal(n).len() implies crate::text::decimal(n)[i]
        != 'x' by {
        if n < 0 {
            if i > 0 {
                assert(crate::text::decimal(n)[i] == digits[i - 1]);
                assert(crate::text::is_digit(digits[i - 1]));
            }
        } else {
            assert(crate::text::is_digit(digits[i]));
        }
    }
}

/// The role of a node is told by its class.
pub proof fn class_tells_role(node: Seq<(Seq<char>, JsonTree)>)
    requires
        crate::json::keys_ascend(node),
    ensures
        node.contains(("class_type"@, JsonTree::Text("KSampler"@))) <==> role(JsonTree::Object(node))
            == NodeRole::Sampler,
        node.contains(("class_type"@, JsonTree::Text("EmptyLatentImage"@))) || node.contains(
            ("class_type"@, JsonTree::Text("EmptySD3LatentImage"@)),
        ) <==> role(JsonTree::Object(node)) == NodeRole::LatentImage,
{
    crate::json::typed_member_is_found_by_key(node, "class_type"@);
    classes_differ();
    let tree = JsonTree::Object(node);
    assert(tree.text_member("class_type"@) == Some("KSampler"@) <==> node.contains(
        ("class_type"@, JsonTree::Text("KSampler"@)),
    ));
    assert(tree.text_member("class_type"@) == Some("EmptyLatentImage"@) <==> node.contains(
        ("class_type"@, JsonTree::Text("EmptyLatentImage"@)),
    ));
    assert(tree.text_member("class_type"@) == Some("EmptySD3LatentImage"@) <==> node.contains(
        ("class_type"@, JsonTree::Text("EmptySD3LatentImage"@)),
    ));
}

proof fn classes_differ()
    ensures
        "KSampler"@ != "EmptyLatentImage"@,
        "KSampler"@ != "EmptySD3LatentImage"@,
        "KSampler"@ != "CLIPTextEncode"@,
        "EmptyLatentImage"@ != "CLIPTextEncode"@,
        "EmptySD3LatentImage"@ != "CLIPTextEncode"@,
        "Positive Prompt"@ != "Negative Prompt"@,
{
    reveal_strlit("KSampler");
    reveal_strlit("EmptyLatentImage");
    reveal_strlit("EmptySD3LatentImage");
    reveal_strlit("CLIPTextEncode");
    reveal_strlit("Positive Prompt");
    reveal_strlit("Negative Prompt");
    assert("KSampler"@[0] != "EmptyLatentImage"@[0]);
    assert("KSampler"@[0] != "EmptySD3LatentImage"@[0]);
    assert("KSampler"@[0] != "CLIPTextEncode"@[0]);
    assert("EmptyLatentImage"@[0] != "CLIPTextEncode"@[0]);
    assert("EmptySD3LatentImage"@[0] != "CLIPTextEncode"@[0]);
    assert("Positive Prompt"@[0] != "Negative Prompt"@[0]);
}

/// The role of a node that encodes a text is told by the title in its metadata, and the title is
/// missing where they have none.
pub proof fn title_tells_role(
    node: Seq<(Seq<char>, JsonTree)>,
    meta: Seq<(Seq<char>, JsonTree)>,
)
    requires
        crate::json::keys_ascend(node),
        node.contains(("class_type"@, JsonTree::Text("CLIPTextEncode"@))),
        node.contains(("_meta"@, JsonTree::Object(meta))),
        crate::json::keys_ascend(meta),
    ensures
        meta.contains(("title"@, JsonTree::Text("Positive Prompt"@))) <==> role(JsonTree::Object(node))
            == NodeRole::PositivePrompt,
        meta.contains(("title"@, JsonTree::Text("Negative Prompt"@))) <==> role(JsonTree::Object(node))
            == NodeRole::NegativePrompt,
        title_missing(JsonTree::Object(node)) <==> forall|i: int|
            0 <= i < meta.len() ==> (#[trigger] meta[i]).0 != "title"@,
{
    crate::json::typed_member_is_found_by_key(node, "class_type"@);
    crate::json::typed_member_is_found_by_key(node, "_meta"@);
    crate::json::typed_member_is_found_by_key(meta, "title"@);
    classes_differ();
    let tree = JsonTree::Object(node);
    let inner = JsonTree::Object(meta);
    assert(tree.text_member("class_type"@) == Some("CLIPTextEncode"@));
    assert(tree.object_member("_meta"@) == Some(meta));
    assert(inner.text_member("title"@) == Some("Positive Prompt"@) <==> meta.contains(
        ("title"@, JsonTree::Text("Positive Prompt"@)),
    ));
    assert(inner.text_member("title"@) == Some("Negative Prompt"@) <==> meta.contains(
        ("title"@, JsonTree::Text("Negative Prompt"@)),
    ));
}

/// A node of another class takes nothing, and no title is missed of it; nor does a text node
/// without an object of metadata, or what is no object.
pub proof fn other_nodes_take_nothing(node: JsonTree)
    requires
        node matches JsonTree::Object(members) ==> {
            &&& crate::json::keys_ascend(members)
            &&& !members.contains(("class_type"@, JsonTree::Text("KSampler"@)))
            &&& !members.contains(("class_type"@, JsonTree::Text("EmptyLatentImage"@)))
            &&& !members.contains(("class_type"@, JsonTree::Text("EmptySD3LatentImage"@)))
            &&& !members.contains(("class_type"@, JsonTree::Text("CLIPTextEncode"@))) || forall|
                meta: Seq<(Seq<char>, JsonTree)>,
            | !(#[trigger] members.contains(("_meta"@, JsonTree::Object(meta))))
        },
    ensures
        role(node) == NodeRole::Other,
        !title_missing(node),
{
    if let JsonTree::Object(members) = node {
        crate::json::typed_member_is_found_by_key(members, "class_type"@);
        crate::json::typed_member_is_found_by_key(members, "_meta"@);
        class_tells_role(members);
        assert(node.text_member("class_type"@) == Some("CLIPTextEncode"@) <==> members.contains(
            ("class_type"@, JsonTree::Text("CLIPTextEncode"@)),
        ));
        if let Some(meta) = node.object_member("_meta"@) {
            assert(members.contains(("_meta"@, JsonTree::Object(meta))));
        }
    }
}

/// A size gives the numbers before and after its first `x`, whatever follows a second one, with 512
/// for what cannot be read or is not there.
pub proof fn size_gives_width_and_height(width: Seq<char>, height: Seq<char>, rest: Seq<char>)
    requires
        !width.contains('x'),
        !height.contains('x'),
    ensures
        dimensions(width) == (crate::text::parsed_i32(width).unwrap_or(512), 512i32),
        dimensions(width + seq!['x'] + height) == (
            crate::text::parsed_i32(width).unwrap_or(512),
            crate::text::parsed_i32(height).unwrap_or(512),
        ),
        dimensions(width + seq!['x'] + (height + seq!['x'] + rest)) == dimensions(
            width + seq!['x'] + height,
        ),
{
    crate::text::separator_parts_pieces(width, height, 'x');
    crate::text::separator_parts_pieces(height, rest, 'x');
    crate::text::separator_parts_pieces(width, height + seq!['x'] + rest, 'x');
}

/// The inputs of a node in what is sent to the backend.
pub open spec fn sends_inputs(
    payload: JsonTree,
    place: int,
    inputs: Seq<(Seq<char>, JsonTree)>,
) -> bool {
    payload->Object_0[1].1->Object_0[place].1 is Object
        && payload->Object_0[1].1->Object_0[place].1->Object_0.contains(
        ("inputs"@, JsonTree::Object(inputs)),
    )
}

/// A request that names a workflow of nodes.
pub open spec fn names_workflow(
    fields: Seq<(Seq<char>, JsonTree)>,
    workflows: Map<Seq<char>, JsonTree>,
    nodes: Seq<(Seq<char>, JsonTree)>,
) -> bool {
    crate::json::keys_ascend(fields) && exists|model: Seq<char>| #[trigger]
        fields.contains(("model"@, JsonTree::Text(model))) && workflows.contains_key(model)
            && workflows[model] == JsonTree::Object(nodes)
}

proof fn named_workflow_is_walked(
    fields: Seq<(Seq<char>, JsonTree)>,
    workflows: Map<Seq<char>, JsonTree>,
    client_id: Seq<char>,
    drawn: Seq<u32>,
    nodes: Seq<(Seq<char>, JsonTree)>,
)
    requires
        names_workflow(fields, workflows, nodes),
    ensures
        translated(JsonTree::Object(fields), workflows, client_id, drawn) == match walked_nodes(
            nodes,
            JsonTree::Object(fields),
            drawn,
        ) {
            WalkOutcome::Nodes(rewritten) => TranslationOutcome::Payload(
                envelope(JsonTree::Object(rewritten), client_id),
            ),
            WalkOutcome::Refused(refusal) => TranslationOutcome::Refused(refusal),
        },
{
    crate::json::typed_member_is_found_by_key(fields, "model"@);
}

/// What is sent has the client's id and, as prompt, an object with the nodes of the workflow that
/// the request names: as many, under the same names, whatever their number.
pub proof fn payload_has_all_nodes(
    fields: Seq<(Seq<char>, JsonTree)>,
    workflows: Map<Seq<char>, JsonTree>,
    client_id: Seq<char>,
    drawn: Seq<u32>,
    nodes: Seq<(Seq<char>, JsonTree)>,
    payload: JsonTree,
)
    requires
        names_workflow(fields, workflows, nodes),
        translated(JsonTree::Object(fields), workflows, client_id, drawn)
            == TranslationOutcome::Payload(payload),
    ensures
        payload matches JsonTree::Object(top) && {
            &&& top.len() == 2
            &&& top[0] == ("client_id"@, JsonTree::Text(client_id))
            &&& top[1].0 == "prompt"@
            &&& top[1].1 matches JsonTree::Object(sent) && sent.len() == nodes.len() && forall|i: int|
                0 <= i < nodes.len() ==> (#[trigger] sent[i]).0 == nodes[i].0
        },
{
    named_workflow_is_walked(fields, workflows, client_id, drawn, nodes);
    nodes_are_rewritten_one_by_one(nodes, JsonTree::Object(fields), drawn);
}

proof fn node_is_rewritten_in_payload(
    fields: Seq<(Seq<char>, JsonTree)>,
    workflows: Map<Seq<char>, JsonTree>,
    client_id: Seq<char>,
    drawn: Seq<u32>,
    nodes: Seq<(Seq<char>, JsonTree)>,
    payload: JsonTree,
    place: int,
)
    requires
        names_workflow(fields, workflows, nodes),
        translated(JsonTree::Object(fields), workflows, client_id, drawn)
            == TranslationOutcome::Payload(payload),
        0 <= place < nodes.len(),
    ensures
        payload->Object_0[1].1->Object_0.len() == nodes.len(),
        rewritten_node(nodes[place].1, JsonTree::Object(fields), drawn[place]) == Ok::<JsonTree, Refusal>(
            payload->Object_0[1].1->Object_0[place].1,
        ),
        !title_missing(nodes[place].1),
{
    named_workflow_is_walked(fields, workflows, client_id, drawn, nodes);
    nodes_are_rewritten_one_by_one(nodes, JsonTree::Object(fields), drawn);
    let rewritten = walked_nodes(nodes, JsonTree::Object(fields), drawn)->Nodes_0;
    assert(rewritten[place].0 == nodes[place].0);
    assert(payload->Object_0[1] == ("prompt"@, JsonTree::Object(rewritten)));
}

/// A node of a workflow that takes something from a request.
pub open spec fn takes_something(
    nodes: Seq<(Seq<char>, JsonTree)>,
    place: int,
    node: Seq<(Seq<char>, JsonTree)>,
    inputs: Seq<(Seq<char>, JsonTree)>,
) -> bool {
    &&& 0 <= place < nodes.len()
    &&& nodes[place].1 == JsonTree::Object(node)
    &&& crate::json::keys_ascend(node)
    &&& node.contains(("inputs"@, JsonTree::Object(inputs)))
    &&& crate::json::keys_ascend(inputs)
}

proof fn inputs_are_rewritten_in_payload(
    fields: Seq<(Seq<char>, JsonTree)>,
    workflows: Map<Seq<char>, JsonTree>,
    client_id: Seq<char>,
    drawn: Seq<u32>,
    nodes: Seq<(Seq<char>, JsonTree)>,
    payload: JsonTree,
    place: int,
    node: Seq<(Seq<char>, JsonTree)>,
    inputs: Seq<(Seq<char>, JsonTree)>,
)
    requires
        names_workflow(fields, workflows, nodes),
        translated(JsonTree::Object(fields), workflows, client_id, drawn)
            == TranslationOutcome::Payload(payload),
        takes_something(nodes, place, node, inputs),
        role(JsonTree::Object(node)) != NodeRole::Other,
    ensures
        rewritten_inputs(role(JsonTree::Object(node)), inputs, JsonTree::Object(fields), drawn[place]) is Ok,
        sends_inputs(
            payload,
            place,
            rewritten_inputs(
                role(JsonTree::Object(node)),
                inputs,
                JsonTree::Object(fields),
                drawn[place],
            )->Ok_0,
        ),
{
    node_is_rewritten_in_payload(fields, workflows, client_id, drawn, nodes, payload, place);
    crate::json::member_is_found_by_key(node, "inputs"@, JsonTree::Object(inputs));
    let changed = rewritten_inputs(
        role(JsonTree::Object(node)),
        inputs,
        JsonTree::Object(fields),
        drawn[place],
    )->Ok_0;
    crate::json::stored_members_are_the_others_and_it(
        node,
        "inputs"@,
        JsonTree::Object(changed),
        ("inputs"@, JsonTree::Object(changed)),
    );
}

/// Inputs that are the same but for those with some names.
pub open spec fn differ_at_most_in(
    before: Seq<(Seq<char>, JsonTree)>,
    after: Seq<(Seq<char>, JsonTree)>,
    names: Set<Seq<char>>,
) -> bool {
    forall|name: Seq<char>, value: JsonTree|
        !names.contains(name) ==> (before.contains((name, value)) <==> #[trigger] after.contains(
            (name, value),
        ))
}

proof fn changed_inputs_are_taken(
    role: NodeRole,
    inputs: Seq<(Seq<char>, JsonTree)>,
    request: JsonTree,
    drawn: u32,
    names: Set<Seq<char>>,
)
    requires
        crate::json::keys_ascend(inputs),
        rewritten_inputs(role, inputs, request, drawn) is Ok,
        forall|name: Seq<char>| #[trigger] taken_by(role, name) ==> names.contains(name),
    ensures
        differ_at_most_in(inputs, rewritten_inputs(role, inputs, request, drawn)->Ok_0, names),
        crate::json::keys_ascend(rewritten_inputs(role, inputs, request, drawn)->Ok_0),
{
    other_inputs_are_kept(role, inputs, request, drawn);
    let after = rewritten_inputs(role, inputs, request, drawn)->Ok_0;
    assert forall|name: Seq<char>, value: JsonTree| !names.contains(name) implies (inputs.contains(
        (name, value),
    ) <==> #[trigger] after.contains((name, value))) by {
        assert(!taken_by(role, name));
        assert(member_of(after, name) == member_of(inputs, name));
        crate::json::member_is_found_by_key(inputs, name, value);
        crate::json::member_is_found_by_key(after, name, value);
    }
}

/// The seed of the request reaches every node that samples, in a workflow of any size; where it
/// gives none, the drawn seed does. Every other input of the node is kept.
pub proof fn seed_reaches_payload(
    fields: Seq<(Seq<char>, JsonTree)>,
    workflows: Map<Seq<char>, JsonTree>,
    client_id: Seq<char>,
    drawn: Seq<u32>,
    nodes: Seq<(Seq<char>, JsonTree)>,
    payload: JsonTree,
    place: int,
    node: Seq<(Seq<char>, JsonTree)>,
    inputs: Seq<(Seq<char>, JsonTree)>,
)
    requires
        names_workflow(fields, workflows, nodes),
        translated(JsonTree::Object(fields), workflows, client_id, drawn)
            == TranslationOutcome::Payload(payload),
        takes_something(nodes, place, node, inputs),
        node.contains(("class_type"@, JsonTree::Text("KSampler"@))),
    ensures
        exists|after: Seq<(Seq<char>, JsonTree)>| #[trigger]
            sends_inputs(payload, place, after) && differ_at_most_in(inputs, after, set!["seed"@]) && (
            forall|seed: i64| #[trigger]
                fields.contains(("seed"@, JsonTree::Number(crate::text::decimal(seed as int))))
                    ==> after.contains(("seed"@, JsonTree::Text(crate::text::decimal(seed as int))))) && ((
            forall|seed: i64|
                !(#[trigger] fields.contains(
                    ("seed"@, JsonTree::Number(crate::text::decimal(seed as int))),
                ))) ==> after.contains(
                ("seed"@, JsonTree::Text(crate::text::decimal(drawn[place] as int))),
            )),
{
    let request = JsonTree::Object(fields);
    class_tells_role(node);
    inputs_are_rewritten_in_payload(fields, workflows, client_id, drawn, nodes, payload, place, node, inputs);
    let after = rewritten_inputs(NodeRole::Sampler, inputs, request, drawn[place])->Ok_0;
    changed_inputs_are_taken(NodeRole::Sampler, inputs, request, drawn[place], set!["seed"@]);
    crate::json::typed_member_is_found_by_key(fields, "seed"@);
    let text = JsonTree::Text(crate::text::decimal(seed_for(request, drawn[place])));
    crate::json::stored_members_are_the_others_and_it(inputs, "seed"@, text, ("seed"@, text));
    assert(after.contains(("seed"@, text)));
    if let Some(seed) = request.integer_member("seed"@) {
        assert(fields.contains(("seed"@, JsonTree::Number(crate::text::decimal(seed as int)))));
    }
    assert forall|seed: i64| #[trigger]
        fields.contains(("seed"@, JsonTree::Number(crate::text::decimal(seed as int)))) implies after.contains(
        ("seed"@, JsonTree::Text(crate::text::decimal(seed as int))),
    ) by {
        assert(request.integer_member("seed"@) == Some(seed));
    }
    assert(sends_inputs(payload, place, after));
}

/// Width, height and number of images of the request reach every node that makes the image, in a
/// workflow of any size; a request without a size is not translated, and one without a number keeps
/// that of the workflow. Every other input of the node is kept.
pub proof fn size_reaches_payload(
    fields: Seq<(Seq<char>, JsonTree)>,
    workflows: Map<Seq<char>, JsonTree>,
    client_id: Seq<char>,
    drawn: Seq<u32>,
    nodes: Seq<(Seq<char>, JsonTree)>,
    payload: JsonTree,
    place: int,
    node: Seq<(Seq<char>, JsonTree)>,
    inputs: Seq<(Seq<char>, JsonTree)>,
)
    requires
        names_workflow(fields, workflows, nodes),
        translated(JsonTree::Object(fields), workflows, client_id, drawn)
            == TranslationOutcome::Payload(payload),
        takes_something(nodes, place, node, inputs),
        node.contains(("class_type"@, JsonTree::Text("EmptyLatentImage"@))) || node.contains(
            ("class_type"@, JsonTree::Text("EmptySD3LatentImage"@)),
        ),
    ensures
        exists|after: Seq<(Seq<char>, JsonTree)>, size: Seq<char>|
            {
                &&& #[trigger] sends_inputs(payload, place, after)
                &&& differ_at_most_in(inputs, after, set!["width"@, "height"@, "batch_size"@])
                &&& #[trigger] fields.contains(("size"@, JsonTree::Text(size)))
                &&& after.contains(
                    ("width"@, JsonTree::Text(crate::text::decimal(dimensions(size).0 as int))),
                )
                &&& after.contains(
                    ("height"@, JsonTree::Text(crate::text::decimal(dimensions(size).1 as int))),
                )
                &&& forall|n: i64| #[trigger]
                    fields.contains(("n"@, JsonTree::Number(crate::text::decimal(n as int))))
                        ==> after.contains(
                        ("batch_size"@, JsonTree::Text(crate::text::decimal(n as int))),
                    )
                &&& (forall|n: i64|
                    !(#[trigger] fields.contains(
                        ("n"@, JsonTree::Number(crate::text::decimal(n as int))),
                    ))) ==> forall|value: JsonTree|
                    inputs.contains(("batch_size"@, value)) <==> #[trigger] after.contains(
                        ("batch_size"@, value),
                    )
            },
{
    let request = JsonTree::Object(fields);
    class_tells_role(node);
    inputs_are_rewritten_in_payload(fields, workflows, client_id, drawn, nodes, payload, place, node, inputs);
    let role = NodeRole::LatentImage;
    let after = rewritten_inputs(role, inputs, request, drawn[place])->Ok_0;
    changed_inputs_are_taken(
        role,
        inputs,
        request,
        drawn[place],
        set!["width"@, "height"@, "batch_size"@],
    );
    request_reaches_inputs(role, inputs, request, drawn[place]);
    crate::json::typed_member_is_found_by_key(fields, "size"@);
    crate::json::typed_member_is_found_by_key(fields, "n"@);
    crate::json::typed_member_is_found_by_key(after, "width"@);
    crate::json::typed_member_is_found_by_key(after, "height"@);
    crate::json::typed_member_is_found_by_key(after, "batch_size"@);
    let size = request.text_member("size"@)->0;
    assert(fields.contains(("size"@, JsonTree::Text(size))));
    assert(after.contains(("width"@, JsonTree::Text(crate::text::decimal(dimensions(size).0 as int)))));
    assert(after.contains(("height"@, JsonTree::Text(crate::text::decimal(dimensions(size).1 as int)))));
    assert forall|n: i64| #[trigger]
        fields.contains(("n"@, JsonTree::Number(crate::text::decimal(n as int)))) implies after.contains(
        ("batch_size"@, JsonTree::Text(crate::text::decimal(n as int))),
    ) by {
        assert(request.integer_member("n"@) == Some(n));
    }
    if let Some(n) = request.integer_member("n"@) {
        assert(fields.contains(("n"@, JsonTree::Number(crate::text::decimal(n as int)))));
    } else {
        assert forall|value: JsonTree|
            inputs.contains(("batch_size"@, value)) <==> #[trigger] after.contains(
                ("batch_size"@, value),
            ) by {
            crate::json::member_is_found_by_key(inputs, "batch_size"@, value);
            crate::json::member_is_found_by_key(after, "batch_size"@, value);
        }
    }
    assert(sends_inputs(payload, place, after));
}

/// The prompt of the request reaches every text node with the title for it, in a workflow of any
/// size; a request without a prompt is not translated. Every other input of the node is kept.
pub proof fn prompt_reaches_payload(
    fields: Seq<(Seq<char>, JsonTree)>,
    workflows: Map<Seq<char>, JsonTree>,
    client_id: Seq<char>,
    drawn: Seq<u32>,
    nodes: Seq<(Seq<char>, JsonTree)>,
    payload: JsonTree,
    place: int,
    node: Seq<(Seq<char>, JsonTree)>,
    inputs: Seq<(Seq<char>, JsonTree)>,
    meta: Seq<(Seq<char>, JsonTree)>,
)
    requires
        names_workflow(fields, workflows, nodes),
        translated(JsonTree::Object(fields), workflows, client_id, drawn)
            == TranslationOutcome::Payload(payload),
        takes_something(nodes, place, node, inputs),
        node.contains(("class_type"@, JsonTree::Text("CLIPTextEncode"@))),
        node.contains(("_meta"@, JsonTree::Object(meta))),
        crate::json::keys_ascend(meta),
        meta.contains(("title"@, JsonTree::Text("Positive Prompt"@))),
    ensures
        exists|after: Seq<(Seq<char>, JsonTree)>, prompt: Seq<char>|
            {
                &&& #[trigger] sends_inputs(payload, place, after)
                &&& differ_at_most_in(inputs, after, set!["text"@])
                &&& #[trigger] fields.contains(("prompt"@, JsonTree::Text(prompt)))
                &&& after.contains(("text"@, JsonTree::Text(prompt)))
            },
{
    let request = JsonTree::Object(fields);
    title_tells_role(node, meta);
    inputs_are_rewritten_in_payload(fields, workflows, client_id, drawn, nodes, payload, place, node, inputs);
    let role = NodeRole::PositivePrompt;
    let after = rewritten_inputs(role, inputs, request, drawn[place])->Ok_0;
    changed_inputs_are_taken(role, inputs, request, drawn[place], set!["text"@]);
    crate::json::typed_member_is_found_by_key(fields, "prompt"@);
    let prompt = request.text_member("prompt"@)->0;
    assert(fields.contains(("prompt"@, JsonTree::Text(prompt))));
    crate::json::stored_members_are_the_others_and_it(
        inputs,
        "text"@,
        JsonTree::Text(prompt),
        ("text"@, JsonTree::Text(prompt)),
    );
    assert(sends_inputs(payload, place, after));
}

/// The negative prompt of the request reaches every text node with the title for it, in a workflow
/// of any size; where it gives none, the inputs of the node are kept. Every other input is.
pub proof fn negative_prompt_reaches_payload(
    fields: Seq<(Seq<char>, JsonTree)>,
    workflows: Map<Seq<char>, JsonTree>,
    client_id: Seq<char>,
    drawn: Seq<u32>,
    nodes: Seq<(Seq<char>, JsonTree)>,
    payload: JsonTree,
    place: int,
    node: Seq<(Seq<char>, JsonTree)>,
    inputs: Seq<(Seq<char>, JsonTree)>,
    meta: Seq<(Seq<char>, JsonTree)>,
)
    requires
        names_workflow(fields, workflows, nodes),
        translated(JsonTree::Object(fields), workflows, client_id, drawn)
            == TranslationOutcome::Payload(payload),
        takes_something(nodes, place, node, inputs),
        node.contains(("class_type"@, JsonTree::Text("CLIPTextEncode"@))),
        node.contains(("_meta"@, JsonTree::Object(meta))),
        crate::json::keys_ascend(meta),
        meta.contains(("title"@, JsonTree::Text("Negative Prompt"@))),
    ensures
        exists|after: Seq<(Seq<char>, JsonTree)>|
            {
                &&& #[trigger] sends_inputs(payload, place, after)
                &&& differ_at_most_in(inputs, after, set!["text"@])
                &&& forall|prompt: Seq<char>| #[trigger]
                    fields.contains(("negative_prompt"@, JsonTree::Text(prompt))) ==> after.contains(
                        ("text"@, JsonTree::Text(prompt)),
                    )
                &&& (forall|prompt: Seq<char>|
                    !(#[trigger] fields.contains(("negative_prompt"@, JsonTree::Text(prompt)))))
                    ==> after == inputs
            },
{
    let request = JsonTree::Object(fields);
    title_tells_role(node, meta);
    inputs_are_rewritten_in_payload(fields, workflows, client_id, drawn, nodes, payload, place, node, inputs);
    let role = NodeRole::NegativePrompt;
    let after = rewritten_inputs(role, inputs, request, drawn[place])->Ok_0;
    changed_inputs_are_taken(role, inputs, request, drawn[place], set!["text"@]);
    crate::json::typed_member_is_found_by_key(fields, "negative_prompt"@);
    if let Some(prompt) = request.text_member("negative_prompt"@) {
        assert(fields.contains(("negative_prompt"@, JsonTree::Text(prompt))));
        crate::json::stored_members_are_the_others_and_it(
            inputs,
            "text"@,
            JsonTree::Text(prompt),
            ("text"@, JsonTree::Text(prompt)),
        );
        assert forall|other: Seq<char>| #[trigger]
            fields.contains(("negative_prompt"@, JsonTree::Text(other))) implies after.contains(
            ("text"@, JsonTree::Text(other)),
        ) by {
            assert(request.text_member("negative_prompt"@) == Some(other));
        }
    } else {
        assert forall|other: Seq<char>|
            !(#[trigger] fields.contains(("negative_prompt"@, JsonTree::Text(other)))) by {
            if fields.contains(("negative_prompt"@, JsonTree::Text(other))) {
                assert(request.text_member("negative_prompt"@) == Some(other));
            }
        }
    }
    assert(sends_inputs(payload, place, after));
}

/// A node keeps every member but its inputs in what is sent, and one that takes nothing is sent as
/// it is, in a workflow of any size.
pub proof fn rest_of_nodes_is_sent_as_it_is(
    fields: Seq<(Seq<char>, JsonTree)>,
    workflows: Map<Seq<char>, JsonTree>,
    client_id: Seq<char>,
    drawn: Seq<u32>,
    nodes: Seq<(Seq<char>, JsonTree)>,
    payload: JsonTree,
    place: int,
)
    requires
        names_workflow(fields, workflows, nodes),
        translated(JsonTree::Object(fields), workflows, client_id, drawn)
            == TranslationOutcome::Payload(payload),
        0 <= place < nodes.len(),
        nodes[place].1 matches JsonTree::Object(node) ==> crate::json::keys_ascend(node),
    ensures
        ({
            let sent = payload->Object_0[1].1->Object_0[place].1;
            let loaded = nodes[place].1;
            &&& !(loaded is Object) || role(loaded) == NodeRole::Other ==> sent == loaded
            &&& loaded matches JsonTree::Object(node) ==> sent is Object && forall|
                key: Seq<char>,
                value: JsonTree,
            |
                key != "inputs"@ ==> (node.contains((key, value)) <==> #[trigger] sent->Object_0.contains(
                    (key, value),
                ))
        }),
{
    let request = JsonTree::Object(fields);
    node_is_rewritten_in_payload(fields, workflows, client_id, drawn, nodes, payload, place);
    let sent = payload->Object_0[1].1->Object_0[place].1;
    if let JsonTree::Object(node) = nodes[place].1 {
        let members = sent->Object_0;
        assert forall|key: Seq<char>, value: JsonTree| key != "inputs"@ implies (node.contains(
            (key, value),
        ) <==> #[trigger] members.contains((key, value))) by {
            if role(nodes[place].1) != NodeRole::Other {
                match member_of(node, "inputs"@) {
                    None => {
                        crate::json::stored_members_are_the_others_and_it(
                            node,
                            "inputs"@,
                            JsonTree::Null,
                            (key, value),
                        );
                    },
                    Some(JsonTree::Object(inputs)) => {
                        let changed = rewritten_inputs(
                            role(nodes[place].1),
                            inputs,
                            request,
                            drawn[place],
                        )->Ok_0;
                        crate::json::stored_members_are_the_others_and_it(
                            node,
                            "inputs"@,
                            JsonTree::Object(changed),
                            (key, value),
                        );
                    },
                    Some(_) => {},
                }
            }
        }
    }
}

/// A request that gives a size and a prompt and names a workflow without an untitled text node is
/// translated: nothing else is asked of it.
pub proof fn complete_request_is_translated(
    fields: Seq<(Seq<char>, JsonTree)>,
    workflows: Map<Seq<char>, JsonTree>,
    client_id: Seq<char>,
    drawn: Seq<u32>,
    nodes: Seq<(Seq<char>, JsonTree)>,
    size: Seq<char>,
    prompt: Seq<char>,
)
    requires
        names_workflow(fields, workflows, nodes),
        fields.contains(("size"@, JsonTree::Text(size))),
        fields.contains(("prompt"@, JsonTree::Text(prompt))),
        forall|i: int| 0 <= i < nodes.len() ==> !title_missing((#[trigger] nodes[i]).1),
    ensures
        translated(JsonTree::Object(fields), workflows, client_id, drawn) is Payload,
{
    named_workflow_is_walked(fields, workflows, client_id, drawn, nodes);
    crate::json::typed_member_is_found_by_key(fields, "size"@);
    crate::json::typed_member_is_found_by_key(fields, "prompt"@);
    complete_walk_is_finished(nodes, JsonTree::Object(fields), drawn);
}

proof fn complete_walk_is_finished(nodes: Seq<(Seq<char>, JsonTree)>, request: JsonTree, drawn: Seq<u32>)
    requires
        request.text_member("size"@) is Some,
        request.text_member("prompt"@) is Some,
        forall|i: int| 0 <= i < nodes.len() ==> !title_missing((#[trigger] nodes[i]).1),
    ensures
        walked_nodes(nodes, request, drawn) is Nodes,
    decreases nodes.len(),
{
    if nodes.len() > 0 {
        let front = nodes.drop_last();
        assert forall|i: int| 0 <= i < front.len() implies !title_missing((#[trigger] front[i]).1) by {
            assert(front[i] == nodes[i]);
        }
        complete_walk_is_finished(front, request, drawn);
        assert(!title_missing(nodes[nodes.len() - 1].1));
    }
}

/// A request whose workflow makes an image is refused without a size, and one whose workflow has a
/// text node for the prompt is refused without a prompt.
pub proof fn incomplete_request_is_refused(
    fields: Seq<(Seq<char>, JsonTree)>,
    workflows: Map<Seq<char>, JsonTree>,
    client_id: Seq<char>,
    drawn: Seq<u32>,
    nodes: Seq<(Seq<char>, JsonTree)>,
    place: int,
    node: Seq<(Seq<char>, JsonTree)>,
    inputs: Seq<(Seq<char>, JsonTree)>,
    meta: Seq<(Seq<char>, JsonTree)>,
)
    requires
        names_workflow(fields, workflows, nodes),
        takes_something(nodes, place, node, inputs),
        ({
            ||| (node.contains(("class_type"@, JsonTree::Text("EmptyLatentImage"@))) || node.contains(
                ("class_type"@, JsonTree::Text("EmptySD3LatentImage"@)),
            )) && forall|size: Seq<char>|
                !(#[trigger] fields.contains(("size"@, JsonTree::Text(size))))
            ||| node.contains(("class_type"@, JsonTree::Text("CLIPTextEncode"@))) && node.contains(
                ("_meta"@, JsonTree::Object(meta)),
            ) && crate::json::keys_ascend(meta) && meta.contains(
                ("title"@, JsonTree::Text("Positive Prompt"@)),
            ) && forall|prompt: Seq<char>|
                !(#[trigger] fields.contains(("prompt"@, JsonTree::Text(prompt))))
        }),
    ensures
        translated(JsonTree::Object(fields), workflows, client_id, drawn) is Refused,
{
    if let TranslationOutcome::Payload(payload) = translated(
        JsonTree::Object(fields),
        workflows,
        client_id,
        drawn,
    ) {
        if node.contains(("class_type"@, JsonTree::Text("CLIPTextEncode"@))) && node.contains(
            ("_meta"@, JsonTree::Object(meta)),
        ) && crate::json::keys_ascend(meta) && meta.contains(
            ("title"@, JsonTree::Text("Positive Prompt"@)),
        ) && forall|prompt: Seq<char>|
            !(#[trigger] fields.contains(("prompt"@, JsonTree::Text(prompt)))) {
            prompt_reaches_payload(
                fields,
                workflows,
                client_id,
                drawn,
                nodes,
                payload,
                place,
                node,
                inputs,
                meta,
            );
        } else {
            size_reaches_payload(
                fields,
                workflows,
                client_id,
                drawn,
                nodes,
                payload,
                place,
                node,
                inputs,
            );
        }
    }
}

/// A request without a model, or with one that no workflow is for, is refused with these words.
pub proof fn unknown_model_is_refused(
    fields: Seq<(Seq<char>, JsonTree)>,
    workflows: Map<Seq<char>, JsonTree>,
    client_id: Seq<char>,
    drawn: Seq<u32>,
    model: Seq<char>,
)
    requires
        crate::json::keys_ascend(fields),
    ensures
        (forall|other: Seq<char>|
            !(#[trigger] fields.contains(("model"@, JsonTree::Text(other))))) ==> (translated(
            JsonTree::Object(fields),
            workflows,
            client_id,
            drawn,
        ) matches TranslationOutcome::Refused(refusal) && refusal.kind is Json && refusal.message
            == "Failed to get model name from JSON"@),
        fields.contains(("model"@, JsonTree::Text(model))) && !workflows.contains_key(model) ==> (
        translated(
            JsonTree::Object(fields),
            workflows,
            client_id,
            drawn,
        ) matches TranslationOutcome::Refused(refusal) && refusal.kind is Json && refusal.message
            == "Workflow '"@ + model + "' not found"@),
{
    crate::json::typed_member_is_found_by_key(fields, "model"@);
    if let Some(other) = JsonTree::Object(fields).text_member("model"@) {
        assert(fields.contains(("model"@, JsonTree::Text(other))));
    }
}

/// A workflow that is no object is sent as it is, and a request that is no object sends empty texts
/// for prompt and client.
pub proof fn what_is_no_object_is_not_rewritten(
    fields: Seq<(Seq<char>, JsonTree)>,
    workflows: Map<Seq<char>, JsonTree>,
    client_id: Seq<char>,
    drawn: Seq<u32>,
    model: Seq<char>,
    other: JsonTree,
)
    requires
        crate::json::keys_ascend(fields),
        fields.contains(("model"@, JsonTree::Text(model))),
        workflows.contains_key(model),
        !(workflows[model] is Object),
        !(other is Object),
    ensures
        translated(JsonTree::Object(fields), workflows, client_id, drawn) matches TranslationOutcome::Payload(
            JsonTree::Object(top),
        ) && top.len() == 2 && top[0] == ("client_id"@, JsonTree::Text(client_id)) && top[1] == (
            "prompt"@,
            workflows[model],
        ),
        translated(other, workflows, client_id, drawn) matches TranslationOutcome::Payload(
            JsonTree::Object(top),
        ) && top.len() == 2 && top[0] == ("client_id"@, JsonTree::Text(""@)) && top[1] == (
            "prompt"@,
            JsonTree::Text(""@),
        ),
{
    crate::json::typed_member_is_found_by_key(fields, "model"@);
}

/// What is answered to a body is what its translation gives: a body that is empty stays so, one
/// that is no JSON is refused with the reason, a payload is written out whole, and a refusal is
/// handed on, for seeds below a million that were drawn for it.
pub proof fn body_is_answered_by_its_translation(
    body: Seq<u8>,
    workflows: Map<Seq<char>, JsonTree>,
    client_id: Seq<char>,
    result: Result<Seq<u8>, Refusal>,
)
    requires
        payload_result(body, workflows, client_id, result),
    ensures
        body.len() == 0 ==> (result matches Ok(sent) && sent.len() == 0),
        body.len() > 0 ==> match crate::document::parsed_json(body) {
            Err(reason) => result matches Err(refusal) && refusal.kind is Json && refusal.message
                == "Failed to parse JSON: "@ + reason,
            Ok(request) => exists|drawn: Seq<u32>|
                {
                    &&& forall|i: int| 0 <= i < drawn.len() ==> 0 <= #[trigger] drawn[i] < 1_000_000
                    &&& forall|fields: Seq<(Seq<char>, JsonTree)>, nodes: Seq<(Seq<char>, JsonTree)>|
                        request == JsonTree::Object(fields) && #[trigger] names_workflow(
                            fields,
                            workflows,
                            nodes,
                        ) ==> drawn.len() == nodes.len()
                    &&& match #[trigger] translated(request, workflows, client_id, drawn) {
                        TranslationOutcome::Payload(payload) => result matches Ok(sent) && sent
                            == crate::document::serialized_json(payload),
                        TranslationOutcome::Refused(refusal) => result matches Err(told) && told
                            == refusal,
                    }
                },
        },
{
    if body.len() > 0 {
        if let Ok(request) = crate::document::parsed_json(body) {
            let drawn = choose|drawn: Seq<u32>| #[trigger]
                seeds_in_range(drawn) && drawn.len() == nodes_named(request, workflows) && payload_for(
                    request,
                    workflows,
                    client_id,
                    drawn,
                    result,
                );
            assert(match translated(request, workflows, client_id, drawn) {
                TranslationOutcome::Payload(payload) => result matches Ok(sent) && sent
                    == crate::document::serialized_json(payload),
                TranslationOutcome::Refused(refusal) => result matches Err(told) && told == refusal,
            });
            assert forall|fields: Seq<(Seq<char>, JsonTree)>, nodes: Seq<(Seq<char>, JsonTree)>|
                request == JsonTree::Object(fields) && #[trigger] names_workflow(
                    fields,
                    workflows,
                    nodes,
                ) implies drawn.len() == nodes.len() by {
                crate::json::typed_member_is_found_by_key(fields, "model"@);
            }
            assert forall|i: int| 0 <= i < drawn.len() implies 0 <= #[trigger] drawn[i] < 1_000_000 by {
                assert(drawn[i] < SEED_LIMIT);
            }
        }
    }
}

/// A node that takes something but has no inputs is sent with `null` for them, and one whose inputs
/// are no object is sent as it is.
pub proof fn missing_inputs_are_null(
    fields: Seq<(Seq<char>, JsonTree)>,
    workflows: Map<Seq<char>, JsonTree>,
    client_id: Seq<char>,
    drawn: Seq<u32>,
    nodes: Seq<(Seq<char>, JsonTree)>,
    payload: JsonTree,
    place: int,
    node: Seq<(Seq<char>, JsonTree)>,
)
    requires
        names_workflow(fields, workflows, nodes),
        translated(JsonTree::Object(fields), workflows, client_id, drawn)
            == TranslationOutcome::Payload(payload),
        0 <= place < nodes.len(),
        nodes[place].1 == JsonTree::Object(node),
        crate::json::keys_ascend(node),
        role(nodes[place].1) != NodeRole::Other,
    ensures
        ({
            let sent = payload->Object_0[1].1->Object_0[place].1;
            &&& (forall|i: int| 0 <= i < node.len() ==> (#[trigger] node[i]).0 != "inputs"@) ==> sent
                is Object && sent->Object_0.contains(("inputs"@, JsonTree::Null))
            &&& forall|value: JsonTree| #[trigger]
                node.contains(("inputs"@, value)) && !(value is Object) ==> sent == nodes[place].1
        }),
{
    node_is_rewritten_in_payload(fields, workflows, client_id, drawn, nodes, payload, place);
    let sent = payload->Object_0[1].1->Object_0[place].1;
    crate::json::member_is_found_by_key(node, "inputs"@, JsonTree::Null);
    crate::json::stored_members_are_the_others_and_it(
        node,
        "inputs"@,
        JsonTree::Null,
        ("inputs"@, JsonTree::Null),
    );
    assert forall|value: JsonTree| #[trigger]
        node.contains(("inputs"@, value)) && !(value is Object) implies sent == nodes[place].1 by {
        crate::json::member_is_found_by_key(node, "inputs"@, value);
    }
}

/// The first node, in order, that cannot be served refuses the request, with these words for what
/// is lacking: a title, the size, or the prompt.
pub proof fn first_lacking_node_refuses(
    fields: Seq<(Seq<char>, JsonTree)>,
    workflows: Map<Seq<char>, JsonTree>,
    client_id: Seq<char>,
    drawn: Seq<u32>,
    nodes: Seq<(Seq<char>, JsonTree)>,
    place: int,
)
    requires
        names_workflow(fields, workflows, nodes),
        0 <= place < nodes.len(),
        forall|i: int|
            0 <= i < place ==> !title_missing((#[trigger] nodes[i]).1) && rewritten_node(
                nodes[i].1,
                JsonTree::Object(fields),
                drawn[i],
            ) is Ok,
    ensures
        ({
            let outcome = translated(JsonTree::Object(fields), workflows, client_id, drawn);
            let served = rewritten_node(nodes[place].1, JsonTree::Object(fields), drawn[place]);
            &&& title_missing(nodes[place].1) ==> (outcome matches TranslationOutcome::Refused(refusal)
                && refusal.kind is Json && refusal.message == "Failed to get title from workflow"@)
            &&& !title_missing(nodes[place].1) && served is Err ==> (
            outcome matches TranslationOutcome::Refused(refusal) && refusal.kind is Json
                && refusal.message == if role(nodes[place].1) == NodeRole::LatentImage {
                "Failed to get size from JSON"@
            } else {
                "Failed to get prompt from JSON"@
            })
        }),
{
    let request = JsonTree::Object(fields);
    named_workflow_is_walked(fields, workflows, client_id, drawn, nodes);
    served_nodes_are_walked(nodes.take(place), request, drawn);
    let next = nodes.take(place + 1);
    assert(next.drop_last() =~= nodes.take(place));
    assert(next.last() == nodes[place]);
    if !(walked_nodes(next, request, drawn) is Nodes) {
        stopped_walk_stands(nodes, place + 1, request, drawn);
    }
}

proof fn served_nodes_are_walked(nodes: Seq<(Seq<char>, JsonTree)>, request: JsonTree, drawn: Seq<u32>)
    requires
        forall|i: int|
            0 <= i < nodes.len() ==> !title_missing((#[trigger] nodes[i]).1) && rewritten_node(
                nodes[i].1,
                request,
                drawn[i],
            ) is Ok,
    ensures
        walked_nodes(nodes, request, drawn) is Nodes,
    decreases nodes.len(),
{
    if nodes.len() > 0 {
        let front = nodes.drop_last();
        assert forall|i: int| 0 <= i < front.len() implies !title_missing((#[trigger] front[i]).1)
            && rewritten_node(front[i].1, request, drawn[i]) is Ok by {
            assert(front[i] == nodes[i]);
        }
        served_nodes_are_walked(front, request, drawn);
        assert(!title_missing(nodes[nodes.len() - 1].1));
    }
}

/// A drawn seed may be any number below a million.
pub proof fn seeds_lie_below_a_million(drawn: Seq<u32>)
    ensures
        seeds_in_range(drawn) <==> forall|i: int|
            0 <= i < drawn.len() ==> #[trigger] drawn[i] < 1_000_000,
{
    if forall|i: int| 0 <= i < drawn.len() ==> #[trigger] drawn[i] < 1_000_000 {
        assert forall|i: int| 0 <= i < drawn.len() implies #[trigger] drawn[i] < SEED_LIMIT by {
            assert(drawn[i] < 1_000_000);
        }
    }
}

/// What comes out of a translation is seen whole: the bytes or the payload, or the error.
pub proof fn translations_are_seen_whole(
    result: Result<Vec<u8>, ProxyError>,
    walk: Walk,
    translation: Translation,
)
    ensures
        match result {
            Ok(bytes) => shown(result) matches Ok(seen) && seen == bytes@,
            Err(error) => shown(result) matches Err(seen) && seen == error@,
        },
        match walk {
            Walk::Nodes(nodes) => walk@ matches WalkOutcome::Nodes(seen) && seen == nodes@,
            Walk::Refused(error) => walk@ matches WalkOutcome::Refused(seen) && seen == error@,
        },
        match translation {
            Translation::Payload(payload) => translation@ matches TranslationOutcome::Payload(seen)
                && seen == payload@,
            Translation::Refused(error) => translation@ matches TranslationOutcome::Refused(seen) && seen
                == error@,
        },
{
}

} // verus!
