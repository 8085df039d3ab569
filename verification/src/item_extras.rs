//! What becomes of the items of a Responses request, of tools and of results on their way
//! between the formats.

use vstd::prelude::*;
use crate::chat_stream::ChatV;
use crate::convert_response::tool_blocks;
use crate::convert_reverse::{chat_part_text, chat_part_texts, chat_text, url_image};
use crate::forward::is_success;
use crate::items_told::lemma_item_types;
use crate::json::{JsonV, text_block};
use crate::json_text::json_parse;
use crate::message_told::Seen;
use crate::replies_told::lemma_usage_keys;
use crate::request_fields::{is_simple_schema, lemma_setting_keys, lemma_simple_schema, request_tools};
use crate::request_order::text_part;
use crate::requests_told::{block_seen, is_turn_item, lemma_part_types, lemma_request_items, only_item, request_messages, turn_seen};
use crate::responses_ends::{block_begins, block_grows};
use crate::responses_response::responses_usage;
use crate::responses_reverse::{input_part_blocks, input_parts_blocks, message_of_item, messages_of_input, request_of_responses};
use crate::stream_out::{lemma_shown_push, shown};
use crate::text::{decimal, has_prefix, join};
use crate::transform_responses::{instruction_texts, output_of_part, output_of_parts, responses_file, responses_output, responses_request, responses_tools};

verus! {

/// What a reader sees of the parts of a message of a Responses request: the texts that
/// are there and the images at web addresses.
pub open spec fn input_pieces(parts: Seq<JsonV>) -> Seq<Seen>
    decreases parts.len(),
{
    if parts.len() == 0 {
        Seq::empty()
    } else {
        let p = parts.last();
        let front = input_pieces(parts.drop_last());
        if p.str_at("type"@) == Some("input_text"@) || p.str_at("type"@) == Some("output_text"@) {
            if p.str_or("text"@, Seq::empty()).len() > 0 {
                front.push(Seen::Words(p.str_or("text"@, Seq::empty())))
            } else {
                front
            }
        } else {
            front.push(Seen::Picture(p.str_or("image_url"@, Seq::empty())))
        }
    }
}

/// Whether a part of a message of a Responses request is a text or an image at a web
/// address.
pub open spec fn is_plain_input(p: JsonV) -> bool {
    ||| p.str_at("type"@) == Some("input_text"@)
    ||| p.str_at("type"@) == Some("output_text"@)
    ||| p.str_at("type"@) == Some("input_image"@) && p.str_at("image_url"@) is Some && !has_prefix(
        p.str_at("image_url"@)->0,
        "data:"@,
    )
}

proof fn lemma_input_parts_seen(parts: Seq<JsonV>)
    requires
        forall|i: int| 0 <= i < parts.len() ==> is_plain_input(#[trigger] parts[i]),
    ensures
        Seq::new(input_parts_blocks(parts).len(), |i: int| block_seen(input_parts_blocks(parts)[i])) == input_pieces(
            parts,
        ),
    decreases parts.len(),
{
    lemma_part_types();
    lemma_seen_keys();
    let all = input_parts_blocks(parts);
    if parts.len() > 0 {
        let front = parts.drop_last();
        assert forall|i: int| 0 <= i < front.len() implies is_plain_input(#[trigger] front[i]) by {
            assert(front[i] == parts[i]);
        }
        lemma_input_parts_seen(front);
        let p = parts.last();
        assert(is_plain_input(parts[parts.len() - 1]));
        let more = input_part_blocks(p);
        let before = input_parts_blocks(front);
        if p.str_at("type"@) == Some("input_image"@) {
            let url = p.str_at("image_url"@)->0;
            assert(more == seq![url_image(url)]);
            assert(block_seen(more[0]) == Seen::Picture(url));
        } else {
            let t = p.str_or("text"@, Seq::empty());
            if t.len() > 0 {
                assert(more == seq![text_block(t)]);
                assert(block_seen(more[0]) == Seen::Words(t));
            } else {
                assert(more.len() == 0);
            }
        }
        assert(Seq::new(all.len(), |i: int| block_seen(all[i])) =~= Seq::new(
            before.len(),
            |i: int| block_seen(before[i]),
        ) + Seq::new(more.len(), |i: int| block_seen(more[i])));
        assert(Seq::new(all.len(), |i: int| block_seen(all[i])) =~= input_pieces(parts));
    } else {
        assert(Seq::new(all.len(), |i: int| block_seen(all[i])) =~= input_pieces(parts));
    }
}

/// The keys of blocks are all different.
proof fn lemma_seen_keys()
    ensures
        "type"@ != "text"@,
        "type"@ != "source"@,
        "type"@ != "url"@,
        "type"@ != "image_url"@,
        "type"@ != "role"@,
        "type"@ != "content"@,
        "text"@ != "source"@,
        "text"@ != "url"@,
        "text"@ != "image_url"@,
        "text"@ != "role"@,
        "text"@ != "content"@,
        "source"@ != "url"@,
        "source"@ != "image_url"@,
        "source"@ != "role"@,
        "source"@ != "content"@,
        "url"@ != "image_url"@,
        "url"@ != "role"@,
        "url"@ != "content"@,
        "image_url"@ != "role"@,
        "image_url"@ != "content"@,
        "role"@ != "content"@,
{
    reveal_strlit("type");
    reveal_strlit("text");
    reveal_strlit("source");
    reveal_strlit("url");
    reveal_strlit("image_url");
    reveal_strlit("role");
    reveal_strlit("content");
    assert("type"@.len() == 4 && "text"@.len() == 4 && "source"@.len() == 6 && "url"@.len() == 3 && "image_url"@.len() == 9 && "role"@.len() == 4 && "content"@.len() == 7);
    assert("type"@[1] == 'y' && "text"@[1] == 'e');
    assert("type"@[0] == 't' && "role"@[0] == 'r');
    assert("text"@[0] == 't' && "role"@[0] == 'r');
}
/// The types of items are different.
proof fn lemma_turn_items()
    ensures
        "message"@ != "function_call_output"@,
{
    reveal_strlit("message");
    reveal_strlit("function_call_output");
    assert("message"@.len() == 7 && "function_call_output"@.len() == 20);
}

/// A message of a Responses request comes to a message of the same role with the same
/// texts and images, in order; one that says nothing comes to an empty text.
pub proof fn law_input_message_keeps_its_content(item: JsonV)
    requires
        item.str_at("type"@) == Some("message"@),
        forall|i: int|
            0 <= i < item.items_at("content"@).len() ==> is_plain_input(#[trigger] item.items_at("content"@)[i]),
    ensures
        ({
            let turns = request_messages(request_of_responses(only_item(item)));
            let said = input_pieces(item.items_at("content"@));
            &&& turns.len() == 1
            &&& turns[0].str_at("role"@) == Some(item.str_or("role"@, "user"@))
            &&& said.len() > 0 ==> turn_seen(turns[0]) == said
            &&& said.len() == 0 ==> turns[0].items_at("content"@) == seq![text_part(Seq::empty())]
        }),
{
    lemma_seen_keys();
    lemma_turn_items();
    lemma_one_item(item);
    let parts = item.items_at("content"@);
    lemma_input_parts_seen(parts);
    let blocks = input_parts_blocks(parts);
    assert(blocks.len() == input_pieces(parts).len());
    let turn = message_of_item(item)->0;
    if blocks.len() > 0 {
        assert(turn.items_at("content"@) == blocks);
    }
}

proof fn lemma_one_item(item: JsonV)
    requires
        is_turn_item(item),
    ensures
        request_messages(request_of_responses(only_item(item))) == seq![message_of_item(item)->0],
{
    let one = only_item(item);
    assert(one.items_at("input"@) =~= seq![item]);
    lemma_request_items(one);
    reveal_with_fuel(messages_of_input, 2);
    assert(seq![item].drop_last() =~= Seq::empty());
    let m = message_of_item(item)->0;
    assert(Seq::<JsonV>::empty().push(m) =~= seq![m]);
}

/// The output of a call comes to a message of the user with that output, under the id of
/// the call.
pub proof fn law_call_output_keeps_its_result(item: JsonV)
    requires
        item.str_at("type"@) == Some("function_call_output"@),
    ensures
        request_messages(request_of_responses(only_item(item))) == seq![
            JsonV::Object(
                map![
                    "role"@ => JsonV::Text("user"@),
                    "content"@ => JsonV::Array(
                        seq![
                            JsonV::Object(
                                map![
                                    "type"@ => JsonV::Text("tool_result"@),
                                    "tool_use_id"@ => JsonV::Text(item.str_or("call_id"@, Seq::empty())),
                                    "content"@ => JsonV::Text(item.str_or("output"@, Seq::empty())),
                                ],
                            ),
                        ],
                    ),
                ],
            ),
        ],
{
    lemma_turn_items();
    lemma_one_item(item);
}

/// The tools of an Anthropic request that are passed on to a Responses upstream, in order.
pub open spec fn functions_of(tools: Seq<JsonV>) -> Seq<JsonV>
    decreases tools.len(),
{
    if tools.len() == 0 {
        Seq::empty()
    } else if tools.last().str_at("type"@) == Some("BatchTool"@) {
        functions_of(tools.drop_last())
    } else {
        functions_of(tools.drop_last()).push(tools.last())
    }
}

/// The keys of a function are all different.
proof fn lemma_function_keys()
    ensures
        "type"@ != "name"@,
        "type"@ != "description"@,
        "type"@ != "parameters"@,
        "name"@ != "description"@,
        "name"@ != "parameters"@,
        "description"@ != "parameters"@,
{
    reveal_strlit("type");
    reveal_strlit("name");
    reveal_strlit("description");
    reveal_strlit("parameters");
    assert("type"@.len() == 4 && "name"@.len() == 4 && "description"@.len() == 11 && "parameters"@.len() == 10);
    assert("type"@[0] == 't' && "name"@[0] == 'n');
}

proof fn lemma_responses_tools(tools: Seq<JsonV>, i: int)
    ensures
        responses_tools(tools).len() == functions_of(tools).len(),
        0 <= i < functions_of(tools).len() ==> {
            let f = responses_tools(tools)[i];
            let t = functions_of(tools)[i];
            &&& f.str_at("type"@) == Some("function"@)
            &&& f.str_at("name"@) == Some(t.str_or("name"@, Seq::empty()))
            &&& f.get("description"@) == Some(t.at("description"@))
            &&& is_simple_schema(t.at("input_schema"@)) ==> f.get("parameters"@) == t.get("input_schema"@)
        },
    decreases tools.len(),
{
    lemma_function_keys();
    if tools.len() > 0 {
        lemma_responses_tools(tools.drop_last(), i);
        let t = tools.last();
        if is_simple_schema(t.at("input_schema"@)) {
            lemma_simple_schema(t.at("input_schema"@), true);
        }
    }
}

/// The tools of an Anthropic request stand in the Responses request in their order, each
/// with its name, its description and its schema.
pub proof fn law_tools_are_kept_for_responses(body: JsonV, i: int)
    ensures
        ({
            let tools = functions_of(request_tools(body));
            let out = request_tools(responses_request(body));
            &&& out.len() == tools.len()
            &&& 0 <= i < tools.len() ==> {
                &&& out[i].str_at("type"@) == Some("function"@)
                &&& out[i].str_at("name"@) == Some(tools[i].str_or("name"@, Seq::empty()))
                &&& out[i].get("description"@) == Some(tools[i].at("description"@))
                &&& is_simple_schema(tools[i].at("input_schema"@)) ==> out[i].get("parameters"@) == tools[i].get(
                    "input_schema"@,
                )
            }
        }),
{
    lemma_setting_keys();
    let tools = request_tools(body);
    lemma_responses_tools(tools, i);
    let out = request_tools(responses_request(body));
    if responses_tools(tools).len() == 0 {
        assert(out =~= Seq::empty());
    } else {
        assert(out == responses_tools(tools));
    }
}

/// The texts of a system prompt in parts come to the instructions with an empty line
/// between them.
pub proof fn law_prompt_in_parts_is_joined(body: JsonV, t: Seq<char>, u: Seq<char>)
    requires
        body.get("system"@) == Some(JsonV::Array(seq![text_part(t), text_part(u)])),
        t.len() > 0,
        u.len() > 0,
        !has_prefix(t, "x-anthropic-billing-header:"@),
        !has_prefix(u, "x-anthropic-billing-header:"@),
    ensures
        responses_request(body).str_at("instructions"@) == Some(t + "\n\n"@ + u),
{
    lemma_setting_keys();
    lemma_seen_keys();
    let parts = seq![text_part(t), text_part(u)];
    reveal_with_fuel(instruction_texts, 3);
    assert(parts.drop_last() =~= seq![text_part(t)]);
    assert(parts.drop_last().drop_last() =~= Seq::empty());
    assert(instruction_texts(parts) =~= seq![t, u]);
    reveal_with_fuel(join, 3);
    assert(seq![t, u].drop_last() =~= seq![t]);
}

/// The texts of the parts of the result of a tool, in order.
pub open spec fn result_texts(parts: Seq<JsonV>) -> Seq<JsonV>
    decreases parts.len(),
{
    if parts.len() == 0 {
        Seq::empty()
    } else if parts.last().str_at("text"@) is Some {
        result_texts(parts.drop_last()).push(
            JsonV::Object(
                map![
                    "type"@ => JsonV::Text("input_text"@),
                    "text"@ => JsonV::Text(parts.last().str_at("text"@)->0),
                ],
            ),
        )
    } else {
        result_texts(parts.drop_last())
    }
}

proof fn lemma_result_texts(parts: Seq<JsonV>)
    requires
        forall|i: int| 0 <= i < parts.len() ==> (#[trigger] parts[i]).str_at("type"@) == Some("text"@),
    ensures
        output_of_parts(parts) == result_texts(parts),
    decreases parts.len(),
{
    if parts.len() > 0 {
        let front = parts.drop_last();
        assert forall|i: int| 0 <= i < front.len() implies (#[trigger] front[i]).str_at("type"@) == Some("text"@) by {
            assert(front[i] == parts[i]);
        }
        lemma_result_texts(front);
        assert(parts[parts.len() - 1].str_at("type"@) == Some("text"@));
        assert(output_of_parts(parts) =~= result_texts(parts));
    } else {
        assert(output_of_parts(parts) =~= result_texts(parts));
    }
}

/// The result of a tool that is a list of texts is handed on as these texts, in order,
/// behind a mark where the tool failed.
pub proof fn law_texts_of_results_are_kept(block: JsonV)
    requires
        block.array_at("content"@) is Some,
        forall|i: int|
            0 <= i < block.items_at("content"@).len() ==> (#[trigger] block.items_at("content"@)[i]).str_at("type"@)
                == Some("text"@),
    ensures
        ({
            let texts = result_texts(block.items_at("content"@));
            let mark = JsonV::Object(
                map![
                    "type"@ => JsonV::Text("input_text"@),
                    "text"@ => JsonV::Text("[cc-switch:tool-result-error]"@),
                ],
            );
            &&& block.get("is_error"@) != Some(JsonV::Bool(true)) ==> responses_output(block) == JsonV::Array(texts)
            &&& block.get("is_error"@) == Some(JsonV::Bool(true)) ==> responses_output(block) == JsonV::Array(
                seq![mark] + texts,
            )
        }),
{
    let parts = block.items_at("content"@);
    assert(block.get("content"@) == Some(JsonV::Array(parts)));
    lemma_result_texts(parts);
}

/// A document of an Anthropic message comes to a file of the Responses request with the
/// same name and the same data or address.
pub proof fn law_documents_are_kept(block: JsonV, name: Seq<char>, url: Seq<char>, data: Seq<char>, kind: Seq<char>)
    requires
        block.str_at("title"@) == Some(name),
        data.len() > 0,
    ensures
        ({
            let source = block.at("source"@);
            &&& source.str_at("type"@) == Some("url"@) && source.str_at("url"@) == Some("https://"@ + url)
                ==> responses_file(block) == Some(
                JsonV::Object(
                    map![
                        "type"@ => JsonV::Text("input_file"@),
                        "file_url"@ => JsonV::Text("https://"@ + url),
                        "filename"@ => JsonV::Text(name),
                    ],
                ),
            )
            &&& source.str_at("type"@) == Some("base64"@) && source.str_at("data"@) == Some(data) && source.str_at(
                "media_type"@,
            ) == Some(kind) ==> responses_file(block) == Some(
                JsonV::Object(
                    map![
                        "type"@ => JsonV::Text("input_file"@),
                        "file_data"@ => JsonV::Text("data:"@ + kind + ";base64,"@ + data),
                        "filename"@ => JsonV::Text(name),
                    ],
                ),
            )
        }),
{
    reveal_strlit("url");
    reveal_strlit("base64");
    assert("url"@.len() == 3 && "base64"@.len() == 6);
    let p = "https://"@;
    assert((p + url).take(p.len() as int) =~= p);
    if block.get("source"@) is None {
        assert(block.at("source"@) == JsonV::Null);
    }
}

/// The older form of a call of a Chat response comes to a call as well, with its name and
/// its arguments.
pub proof fn law_older_calls_are_kept(message: JsonV, name: Seq<char>, args: Seq<char>, v: JsonV)
    requires
        message.items_at("tool_calls"@).len() == 0,
        message.at("function_call"@).str_at("name"@) == Some(name),
        message.at("function_call"@).str_at("arguments"@) == Some(args),
        json_parse(args) == Ok::<JsonV, Seq<char>>(v),
        name != "SendMessage"@,
        name.len() > 0,
    ensures
        tool_blocks(message) == seq![
            JsonV::Object(
                map![
                    "type"@ => JsonV::Text("tool_use"@),
                    "id"@ => JsonV::Text(message.at("function_call"@).str_or("id"@, Seq::empty())),
                    "name"@ => JsonV::Text(name),
                    "input"@ => v,
                ],
            ),
        ],
{
    assert(message.get("function_call"@) is Some);
    assert(message.at("function_call"@).get("arguments"@) == Some(JsonV::Text(args)));
}

/// A call that never got its id or its name begins at the end of the message all the same,
/// under an id made of its number and a name that says that it is not known; what came of
/// its arguments follows.
pub proof fn law_unnamed_call_begins_late(s: ChatV, n: int)
    requires
        0 < n <= s.tools.len(),
        forall|k: int| 0 <= k < n - 1 ==> (#[trigger] s.tools[k]).started,
        !s.tools[n - 1].started,
        s.tools[n - 1].id.len() == 0,
        s.tools[n - 1].name.len() == 0,
        s.tools[n - 1].pending_args.len() > 0,
    ensures
        shown(s.late_started(n).out) == shown(s.out) + seq![
            block_begins(
                s.tools[n - 1].index,
                map![
                    "type"@ => JsonV::Text("tool_use"@),
                    "id"@ => JsonV::Text("tool_call_"@ + decimal(s.tools[n - 1].key as nat)),
                    "name"@ => JsonV::Text("unknown_tool"@),
                ],
            ),
            block_grows(s.tools[n - 1].index, "input_json_delta"@, "partial_json"@, s.tools[n - 1].pending_args),
        ],
{
    broadcast use lemma_shown_push;

    lemma_nothing_late(s, n - 1);
    let b = s.late_started(n);
    let k = b.out.len();
    assert(shown(b.out) =~= shown(s.out) + seq![b.out[k - 2], b.out[k - 1]]);
}

proof fn lemma_nothing_late(s: ChatV, n: int)
    requires
        0 <= n <= s.tools.len(),
        forall|k: int| 0 <= k < n ==> (#[trigger] s.tools[k]).started,
    ensures
        s.late_started(n) == s,
    decreases n,
{
    if n > 0 {
        lemma_nothing_late(s, n - 1);
    }
}

/// A status from 200 on and below 300 is a success, and no other is.
pub proof fn law_success_is_told_by_the_status(status: u16)
    ensures
        is_success(status) <==> 200 <= status < 300,
{
}

/// An image among the parts of the result of a tool is handed on as an image: by its data
/// or by its address.
pub proof fn law_images_of_results_are_kept(part: JsonV, kind: Seq<char>, data: Seq<char>, url: Seq<char>)
    requires
        part.str_at("type"@) == Some("image"@),
        data.len() > 0,
    ensures
        part.at("source"@).str_at("type"@) == Some("base64"@) && part.at("source"@).str_at("media_type"@) == Some(kind)
            && part.at("source"@).str_at("data"@) == Some(data) ==> output_of_part(part) == seq![
            JsonV::Object(
                map![
                    "type"@ => JsonV::Text("input_image"@),
                    "image_url"@ => JsonV::Text("data:"@ + kind + ";base64,"@ + data),
                ],
            ),
        ],
        part.at("source"@).str_at("type"@) == Some("url"@) && part.at("source"@).str_at("url"@) == Some(
            "https://"@ + url,
        ) ==> output_of_part(part) == seq![
            JsonV::Object(
                map![
                    "type"@ => JsonV::Text("input_image"@),
                    "image_url"@ => JsonV::Text("https://"@ + url),
                ],
            ),
        ],
{
    lemma_item_types();
    reveal_strlit("url");
    reveal_strlit("base64");
    assert("url"@.len() == 3 && "base64"@.len() == 6);
    let p = "https://"@;
    assert((p + url).take(p.len() as int) =~= p);
    if part.get("source"@) is None {
        assert(part.at("source"@) == JsonV::Null);
    }
}

/// A usage that names its counts as Chat does is read as well; the names of Responses go
/// first.
pub proof fn law_both_names_of_counts_are_read(usage: JsonV, n: u64, m: u64)
    requires
        usage is Object,
        usage.get("cache_read_input_tokens"@) is None,
        usage.get("cache_creation_input_tokens"@) is None,
        usage.get("input_tokens_details"@) is None,
        usage.get("prompt_tokens_details"@) is None,
    ensures
        ({
            let r = responses_usage(Some(usage));
            &&& usage.u64_at("input_tokens"@) == Some(n) ==> r.u64_at("input_tokens"@) == Some(n)
            &&& usage.u64_at("input_tokens"@) is None && usage.u64_at("prompt_tokens"@) == Some(n) ==> r.u64_at(
                "input_tokens"@,
            ) == Some(n)
            &&& usage.u64_at("output_tokens"@) == Some(m) ==> r.u64_at("output_tokens"@) == Some(m)
            &&& usage.u64_at("output_tokens"@) is None && usage.u64_at("completion_tokens"@) == Some(m) ==> r.u64_at(
                "output_tokens"@,
            ) == Some(m)
            &&& r.get("cache_read_input_tokens"@) is None
            &&& r.get("cache_creation_input_tokens"@) is None
        }),
{
    lemma_usage_keys();
}

/// A prompt in parts names its images in their place among its texts.
pub proof fn law_images_of_prompts_are_named(t: Seq<char>, image: JsonV)
    requires
        image.str_at("type"@) == Some("image_url"@) || image.str_at("type"@) == Some("input_image"@),
    ensures
        chat_text(Some(JsonV::Array(seq![text_part(t), image]))) == Some(t + " "@ + "[image]"@),
{
    lemma_part_types();
    lemma_seen_keys();
    let parts = seq![text_part(t), image];
    assert(text_part(t).str_at("type"@) == Some("text"@) && text_part(t).str_at("text"@) == Some(t));
    reveal_with_fuel(chat_part_texts, 3);
    assert(parts.drop_last() =~= seq![text_part(t)]);
    assert(seq![text_part(t)].drop_last() =~= Seq::empty());
    assert(chat_part_text(text_part(t)) == Some(t));
    assert(chat_part_text(image) == Some("[image]"@));
    assert(chat_part_texts(parts) =~= seq![t, "[image]"@]);
    reveal_with_fuel(join, 3);
    assert(seq![t, "[image]"@].drop_last() =~= seq![t]);
}

} // verus!
