//! The settings, the prompt and the tools of a request stay what they are when it is
//! converted.

use vstd::prelude::*;
use crate::convert::{chat_request, chat_tool, chat_tools, clean};
use crate::convert_reverse::{anthropic_request, anthropic_request_outcome, anthropic_tool, anthropic_tools};
use crate::json::JsonV;
use crate::responses_reverse::{request_of_responses, tools_of_responses};
use crate::text::ascii_lower;
use crate::transform_responses::responses_request;

verus! {

/// The tools of a request.
pub open spec fn request_tools(body: JsonV) -> Seq<JsonV> {
    body.items_at("tools"@)
}

/// The keys of requests are all different.
pub proof fn lemma_setting_keys()
    ensures
        "model"@ != "system"@,
        "model"@ != "messages"@,
        "model"@ != "max_tokens"@,
        "model"@ != "temperature"@,
        "model"@ != "top_p"@,
        "model"@ != "thinking"@,
        "model"@ != "stop_sequences"@,
        "model"@ != "tools"@,
        "model"@ != "tool_choice"@,
        "model"@ != "stream"@,
        "model"@ != "instructions"@,
        "model"@ != "input"@,
        "model"@ != "max_output_tokens"@,
        "model"@ != "reasoning"@,
        "model"@ != "reasoning_effort"@,
        "model"@ != "stop"@,
        "model"@ != "max_completion_tokens"@,
        "system"@ != "messages"@,
        "system"@ != "max_tokens"@,
        "system"@ != "temperature"@,
        "system"@ != "top_p"@,
        "system"@ != "thinking"@,
        "system"@ != "stop_sequences"@,
        "system"@ != "tools"@,
        "system"@ != "tool_choice"@,
        "system"@ != "stream"@,
        "system"@ != "instructions"@,
        "system"@ != "input"@,
        "system"@ != "max_output_tokens"@,
        "system"@ != "reasoning"@,
        "system"@ != "reasoning_effort"@,
        "system"@ != "stop"@,
        "system"@ != "max_completion_tokens"@,
        "messages"@ != "max_tokens"@,
        "messages"@ != "temperature"@,
        "messages"@ != "top_p"@,
        "messages"@ != "thinking"@,
        "messages"@ != "stop_sequences"@,
        "messages"@ != "tools"@,
        "messages"@ != "tool_choice"@,
        "messages"@ != "stream"@,
        "messages"@ != "instructions"@,
        "messages"@ != "input"@,
        "messages"@ != "max_output_tokens"@,
        "messages"@ != "reasoning"@,
        "messages"@ != "reasoning_effort"@,
        "messages"@ != "stop"@,
        "messages"@ != "max_completion_tokens"@,
        "max_tokens"@ != "temperature"@,
        "max_tokens"@ != "top_p"@,
        "max_tokens"@ != "thinking"@,
        "max_tokens"@ != "stop_sequences"@,
        "max_tokens"@ != "tools"@,
        "max_tokens"@ != "tool_choice"@,
        "max_tokens"@ != "stream"@,
        "max_tokens"@ != "instructions"@,
        "max_tokens"@ != "input"@,
        "max_tokens"@ != "max_output_tokens"@,
        "max_tokens"@ != "reasoning"@,
        "max_tokens"@ != "reasoning_effort"@,
        "max_tokens"@ != "stop"@,
        "max_tokens"@ != "max_completion_tokens"@,
        "temperature"@ != "top_p"@,
        "temperature"@ != "thinking"@,
        "temperature"@ != "stop_sequences"@,
        "temperature"@ != "tools"@,
        "temperature"@ != "tool_choice"@,
        "temperature"@ != "stream"@,
        "temperature"@ != "instructions"@,
        "temperature"@ != "input"@,
        "temperature"@ != "max_output_tokens"@,
        "temperature"@ != "reasoning"@,
        "temperature"@ != "reasoning_effort"@,
        "temperature"@ != "stop"@,
        "temperature"@ != "max_completion_tokens"@,
        "top_p"@ != "thinking"@,
        "top_p"@ != "stop_sequences"@,
        "top_p"@ != "tools"@,
        "top_p"@ != "tool_choice"@,
        "top_p"@ != "stream"@,
        "top_p"@ != "instructions"@,
        "top_p"@ != "input"@,
        "top_p"@ != "max_output_tokens"@,
        "top_p"@ != "reasoning"@,
        "top_p"@ != "reasoning_effort"@,
        "top_p"@ != "stop"@,
        "top_p"@ != "max_completion_tokens"@,
        "thinking"@ != "stop_sequences"@,
        "thinking"@ != "tools"@,
        "thinking"@ != "tool_choice"@,
        "thinking"@ != "stream"@,
        "thinking"@ != "instructions"@,
        "thinking"@ != "input"@,
        "thinking"@ != "max_output_tokens"@,
        "thinking"@ != "reasoning"@,
        "thinking"@ != "reasoning_effort"@,
        "thinking"@ != "stop"@,
        "thinking"@ != "max_completion_tokens"@,
        "stop_sequences"@ != "tools"@,
        "stop_sequences"@ != "tool_choice"@,
        "stop_sequences"@ != "stream"@,
        "stop_sequences"@ != "instructions"@,
        "stop_sequences"@ != "input"@,
        "stop_sequences"@ != "max_output_tokens"@,
        "stop_sequences"@ != "reasoning"@,
        "stop_sequences"@ != "reasoning_effort"@,
        "stop_sequences"@ != "stop"@,
        "stop_sequences"@ != "max_completion_tokens"@,
        "tools"@ != "tool_choice"@,
        "tools"@ != "stream"@,
        "tools"@ != "instructions"@,
        "tools"@ != "input"@,
        "tools"@ != "max_output_tokens"@,
        "tools"@ != "reasoning"@,
        "tools"@ != "reasoning_effort"@,
        "tools"@ != "stop"@,
        "tools"@ != "max_completion_tokens"@,
        "tool_choice"@ != "stream"@,
        "tool_choice"@ != "instructions"@,
        "tool_choice"@ != "input"@,
        "tool_choice"@ != "max_output_tokens"@,
        "tool_choice"@ != "reasoning"@,
        "tool_choice"@ != "reasoning_effort"@,
        "tool_choice"@ != "stop"@,
        "tool_choice"@ != "max_completion_tokens"@,
        "stream"@ != "instructions"@,
        "stream"@ != "input"@,
        "stream"@ != "max_output_tokens"@,
        "stream"@ != "reasoning"@,
        "stream"@ != "reasoning_effort"@,
        "stream"@ != "stop"@,
        "stream"@ != "max_completion_tokens"@,
        "instructions"@ != "input"@,
        "instructions"@ != "max_output_tokens"@,
        "instructions"@ != "reasoning"@,
        "instructions"@ != "reasoning_effort"@,
        "instructions"@ != "stop"@,
        "instructions"@ != "max_completion_tokens"@,
        "input"@ != "max_output_tokens"@,
        "input"@ != "reasoning"@,
        "input"@ != "reasoning_effort"@,
        "input"@ != "stop"@,
        "input"@ != "max_completion_tokens"@,
        "max_output_tokens"@ != "reasoning"@,
        "max_output_tokens"@ != "reasoning_effort"@,
        "max_output_tokens"@ != "stop"@,
        "max_output_tokens"@ != "max_completion_tokens"@,
        "reasoning"@ != "reasoning_effort"@,
        "reasoning"@ != "stop"@,
        "reasoning"@ != "max_completion_tokens"@,
        "reasoning_effort"@ != "stop"@,
        "reasoning_effort"@ != "max_completion_tokens"@,
        "stop"@ != "max_completion_tokens"@,
{
    reveal_strlit("model");
    reveal_strlit("system");
    reveal_strlit("messages");
    reveal_strlit("max_tokens");
    reveal_strlit("temperature");
    reveal_strlit("top_p");
    reveal_strlit("thinking");
    reveal_strlit("stop_sequences");
    reveal_strlit("tools");
    reveal_strlit("tool_choice");
    reveal_strlit("stream");
    reveal_strlit("instructions");
    reveal_strlit("input");
    reveal_strlit("max_output_tokens");
    reveal_strlit("reasoning");
    reveal_strlit("reasoning_effort");
    reveal_strlit("stop");
    reveal_strlit("max_completion_tokens");
    assert("model"@.len() == 5 && "system"@.len() == 6 && "messages"@.len() == 8 && "max_tokens"@.len() == 10 && "temperature"@.len() == 11 && "top_p"@.len() == 5 && "thinking"@.len() == 8 && "stop_sequences"@.len() == 14 && "tools"@.len() == 5 && "tool_choice"@.len() == 11 && "stream"@.len() == 6 && "instructions"@.len() == 12 && "input"@.len() == 5 && "max_output_tokens"@.len() == 17 && "reasoning"@.len() == 9 && "reasoning_effort"@.len() == 16 && "stop"@.len() == 4 && "max_completion_tokens"@.len() == 21);
    assert("model"@[0] == 'm' && "top_p"@[0] == 't');
    assert("model"@[0] == 'm' && "tools"@[0] == 't');
    assert("model"@[0] == 'm' && "input"@[0] == 'i');
    assert("system"@[1] == 'y' && "stream"@[1] == 't');
    assert("messages"@[0] == 'm' && "thinking"@[0] == 't');
    assert("temperature"@[1] == 'e' && "tool_choice"@[1] == 'o');
    assert("top_p"@[2] == 'p' && "tools"@[2] == 'o');
    assert("top_p"@[0] == 't' && "input"@[0] == 'i');
    assert("tools"@[0] == 't' && "input"@[0] == 'i');
}
/// The keys of tools are all different.
pub proof fn lemma_tool_keys()
    ensures
        "name"@ != "description"@,
        "name"@ != "input_schema"@,
        "name"@ != "type"@,
        "name"@ != "function"@,
        "name"@ != "parameters"@,
        "name"@ != "disable_parallel_tool_use"@,
        "description"@ != "input_schema"@,
        "description"@ != "type"@,
        "description"@ != "function"@,
        "description"@ != "parameters"@,
        "description"@ != "disable_parallel_tool_use"@,
        "input_schema"@ != "type"@,
        "input_schema"@ != "function"@,
        "input_schema"@ != "parameters"@,
        "input_schema"@ != "disable_parallel_tool_use"@,
        "type"@ != "function"@,
        "type"@ != "parameters"@,
        "type"@ != "disable_parallel_tool_use"@,
        "function"@ != "parameters"@,
        "function"@ != "disable_parallel_tool_use"@,
        "parameters"@ != "disable_parallel_tool_use"@,
{
    reveal_strlit("name");
    reveal_strlit("description");
    reveal_strlit("input_schema");
    reveal_strlit("type");
    reveal_strlit("function");
    reveal_strlit("parameters");
    reveal_strlit("disable_parallel_tool_use");
    assert("name"@.len() == 4 && "description"@.len() == 11 && "input_schema"@.len() == 12 && "type"@.len() == 4 && "function"@.len() == 8 && "parameters"@.len() == 10 && "disable_parallel_tool_use"@.len() == 25);
    assert("name"@[0] == 'n' && "type"@[0] == 't');
}
/// The choices are all different.
pub proof fn lemma_choices()
    ensures
        "none"@ != "auto"@,
        "none"@ != "required"@,
        "none"@ != "any"@,
        "none"@ != "tool"@,
        "none"@ != "function"@,
        "auto"@ != "required"@,
        "auto"@ != "any"@,
        "auto"@ != "tool"@,
        "auto"@ != "function"@,
        "required"@ != "any"@,
        "required"@ != "tool"@,
        "required"@ != "function"@,
        "any"@ != "tool"@,
        "any"@ != "function"@,
        "tool"@ != "function"@,
{
    reveal_strlit("none");
    reveal_strlit("auto");
    reveal_strlit("required");
    reveal_strlit("any");
    reveal_strlit("tool");
    reveal_strlit("function");
    assert("none"@.len() == 4 && "auto"@.len() == 4 && "required"@.len() == 8 && "any"@.len() == 3 && "tool"@.len() == 4 && "function"@.len() == 8);
    assert("none"@[0] == 'n' && "auto"@[0] == 'a');
    assert("none"@[0] == 'n' && "tool"@[0] == 't');
    assert("auto"@[0] == 'a' && "tool"@[0] == 't');
    assert("required"@[0] == 'r' && "function"@[0] == 'f');
}

/// The settings of a Chat request stand in the Anthropic request as they are: those
/// that both know under the same name, the limit of tokens under either of its names,
/// the stop sequences as a list, and an effort as whether to think.
pub proof fn law_chat_settings_are_kept(body: JsonV)
    ensures
        ({
            let r = anthropic_request(body);
            &&& r.str_at("model"@) == body.str_at("model"@)
            &&& r.get("temperature"@) == body.get("temperature"@)
            &&& r.get("top_p"@) == body.get("top_p"@)
            &&& r.get("stream"@) == body.get("stream"@)
            &&& body.get("max_completion_tokens"@) is Some ==> r.get("max_tokens"@) == body.get("max_completion_tokens"@)
            &&& body.get("max_completion_tokens"@) is None ==> r.get("max_tokens"@) == body.get("max_tokens"@)
            &&& forall|t: Seq<char>|
                body.str_at("stop"@) == Some(t) ==> #[trigger] r.array_at("stop_sequences"@) == Some(
                    seq![JsonV::Text(t)],
                )
            &&& body.items_at("stop"@).len() > 0 ==> r.array_at("stop_sequences"@) == Some(body.items_at("stop"@))
            &&& body.str_at("stop"@) is None && body.items_at("stop"@).len() == 0 ==> r.get("stop_sequences"@) is None
            &&& body.str_at("reasoning_effort"@) is None ==> r.get("thinking"@) is None
            &&& body.str_at("reasoning_effort"@) is Some ==> r.at("thinking"@).str_at("type"@) == Some(
                if ascii_lower(body.str_at("reasoning_effort"@)->0) == "none"@ {
                    "disabled"@
                } else {
                    "enabled"@
                },
            )
        }),
{
    lemma_setting_keys();
}

/// The settings of a Responses request stand in the Anthropic request as they are.
pub proof fn law_responses_settings_are_kept(body: JsonV)
    ensures
        ({
            let r = request_of_responses(body);
            &&& r.str_at("model"@) == body.str_at("model"@)
            &&& r.get("temperature"@) == body.get("temperature"@)
            &&& r.get("top_p"@) == body.get("top_p"@)
            &&& r.get("stream"@) == body.get("stream"@)
            &&& r.get("max_tokens"@) == body.get("max_output_tokens"@)
            &&& body.at("reasoning"@).str_at("effort"@) is None ==> r.get("thinking"@) is None
            &&& body.at("reasoning"@).str_at("effort"@) is Some ==> r.at("thinking"@).str_at("type"@) == Some(
                if ascii_lower(body.at("reasoning"@).str_at("effort"@)->0) == "none"@ {
                    "disabled"@
                } else {
                    "enabled"@
                },
            )
            &&& body.str_at("instructions"@) is Some && body.str_at("instructions"@)->0.len() > 0 ==> r.str_at("system"@)
                == body.str_at("instructions"@)
            &&& body.get("instructions"@) is None || body.str_at("instructions"@) == Some(Seq::<char>::empty())
                ==> r.get("system"@) is None
        }),
{
    lemma_setting_keys();
}

/// The settings of an Anthropic request stand in the Chat request as they are; the
/// limit of tokens of a model of the o-series goes under its newer name.
pub proof fn law_anthropic_settings_are_kept_for_chat(body: JsonV, preserve: bool)
    ensures
        ({
            let r = chat_request(body, preserve);
            let model = body.str_or("model"@, Seq::empty());
            let newer = model.len() > 1 && model[0] == 'o' && '0' <= model[1] <= '9';
            &&& r.str_at("model"@) == body.str_at("model"@)
            &&& r.get("temperature"@) == body.get("temperature"@)
            &&& r.get("top_p"@) == body.get("top_p"@)
            &&& r.get("stream"@) == body.get("stream"@)
            &&& r.get("stop"@) == body.get("stop_sequences"@)
            &&& newer ==> r.get("max_completion_tokens"@) == body.get("max_tokens"@) && r.get("max_tokens"@) is None
            &&& !newer ==> r.get("max_tokens"@) == body.get("max_tokens"@) && r.get("max_completion_tokens"@) is None
        }),
{
    lemma_setting_keys();
}

/// The settings of an Anthropic request stand in the Responses request as they are.
pub proof fn law_anthropic_settings_are_kept_for_responses(body: JsonV)
    ensures
        ({
            let r = responses_request(body);
            &&& r.str_at("model"@) == body.str_at("model"@)
            &&& r.get("temperature"@) == body.get("temperature"@)
            &&& r.get("top_p"@) == body.get("top_p"@)
            &&& r.get("stream"@) == body.get("stream"@)
            &&& r.get("max_output_tokens"@) == body.get("max_tokens"@)
        }),
{
    lemma_setting_keys();
}

proof fn lemma_anthropic_tools(tools: Seq<JsonV>, i: int)
    requires
        forall|j: int|
            0 <= j < tools.len() ==> (#[trigger] tools[j]).at("function"@).str_at("name"@) is Some,
    ensures
        anthropic_tools(tools).len() == tools.len(),
        0 <= i < tools.len() ==> Some(anthropic_tools(tools)[i]) == anthropic_tool(tools[i]),
    decreases tools.len(),
{
    if tools.len() > 0 {
        let front = tools.drop_last();
        assert forall|j: int| 0 <= j < front.len() implies (#[trigger] front[j]).at("function"@).str_at(
            "name"@,
        ) is Some by {
            assert(front[j] == tools[j]);
        }
        lemma_anthropic_tools(front, i);
        assert(tools[tools.len() - 1].at("function"@).str_at("name"@) is Some);
    }
}

/// The functions of a Chat request, each with a name, stand in the Anthropic request in
/// their order, each with its name, its description and its schema.
pub proof fn law_chat_functions_are_kept(body: JsonV, i: int)
    requires
        forall|j: int|
            0 <= j < request_tools(body).len() ==> (#[trigger] request_tools(body)[j]).at("function"@).str_at(
                "name"@,
            ) is Some,
    ensures
        ({
            let tools = request_tools(body);
            let out = request_tools(anthropic_request(body));
            &&& out.len() == tools.len()
            &&& 0 <= i < tools.len() ==> {
                let f = tools[i].at("function"@);
                &&& out[i].str_at("name"@) == f.str_at("name"@)
                &&& out[i].str_at("description"@) == f.str_at("description"@)
                &&& f.get("parameters"@) is Some ==> out[i].get("input_schema"@) == f.get("parameters"@)
                &&& f.get("parameters"@) is None ==> out[i].get("input_schema"@) == Some(JsonV::Object(Map::empty()))
            }
        }),
{
    lemma_setting_keys();
    lemma_tool_keys();
    let tools = request_tools(body);
    lemma_anthropic_tools(tools, i);
    let out = request_tools(anthropic_request(body));
    if tools.len() == 0 {
        assert(out =~= Seq::empty());
    } else {
        assert(out == anthropic_tools(tools));
    }
}

proof fn lemma_tools_of_responses(tools: Seq<JsonV>, i: int)
    requires
        forall|j: int| 0 <= j < tools.len() ==> (#[trigger] tools[j]).str_at("name"@) is Some,
    ensures
        tools_of_responses(tools).len() == tools.len(),
        0 <= i < tools.len() ==> {
            let out = tools_of_responses(tools)[i];
            &&& out.str_at("name"@) == tools[i].str_at("name"@)
            &&& out.str_at("description"@) == Some(tools[i].str_or("description"@, Seq::empty()))
            &&& tools[i].get("parameters"@) is Some ==> out.get("input_schema"@) == tools[i].get("parameters"@)
            &&& tools[i].get("parameters"@) is None ==> out.get("input_schema"@) == Some(JsonV::Object(Map::empty()))
        },
    decreases tools.len(),
{
    lemma_tool_keys();
    if tools.len() > 0 {
        let front = tools.drop_last();
        assert forall|j: int| 0 <= j < front.len() implies (#[trigger] front[j]).str_at("name"@) is Some by {
            assert(front[j] == tools[j]);
        }
        lemma_tools_of_responses(front, i);
        assert(tools[tools.len() - 1].str_at("name"@) is Some);
    }
}

/// The functions of a Responses request, each with a name, stand in the Anthropic
/// request in their order, each with its name, its description and its schema.
pub proof fn law_responses_functions_are_kept(body: JsonV, i: int)
    requires
        forall|j: int|
            0 <= j < request_tools(body).len() ==> (#[trigger] request_tools(body)[j]).str_at("name"@) is Some,
    ensures
        ({
            let tools = request_tools(body);
            let out = request_tools(request_of_responses(body));
            &&& out.len() == tools.len()
            &&& 0 <= i < tools.len() ==> {
                &&& out[i].str_at("name"@) == tools[i].str_at("name"@)
                &&& out[i].str_at("description"@) == Some(tools[i].str_or("description"@, Seq::empty()))
                &&& tools[i].get("parameters"@) is Some ==> out[i].get("input_schema"@) == tools[i].get("parameters"@)
                &&& tools[i].get("parameters"@) is None ==> out[i].get("input_schema"@) == Some(
                    JsonV::Object(Map::empty()),
                )
            }
        }),
{
    lemma_setting_keys();
    let tools = request_tools(body);
    lemma_tools_of_responses(tools, i);
    let out = request_tools(request_of_responses(body));
    if tools.len() == 0 {
        assert(out =~= Seq::empty());
    } else {
        assert(out == tools_of_responses(tools));
    }
}

/// Whether a tool of an Anthropic request is passed on to a Chat upstream.
pub open spec fn is_passed_on(tool: JsonV) -> bool {
    tool.str_at("type"@) != Some("BatchTool"@) && tool.str_at("name"@) != Some("SendMessage"@)
}

/// The tools of a list that are passed on to a Chat upstream, in order.
pub open spec fn tools_passed_on(tools: Seq<JsonV>) -> Seq<JsonV>
    decreases tools.len(),
{
    if tools.len() == 0 {
        Seq::empty()
    } else if is_passed_on(tools.last()) {
        tools_passed_on(tools.drop_last()).push(tools.last())
    } else {
        tools_passed_on(tools.drop_last())
    }
}

proof fn lemma_chat_tools(tools: Seq<JsonV>, i: int)
    ensures
        chat_tools(tools).len() == tools_passed_on(tools).len(),
        0 <= i < chat_tools(tools).len() ==> chat_tools(tools)[i] == chat_tool(tools_passed_on(tools)[i]),
    decreases tools.len(),
{
    if tools.len() > 0 {
        lemma_chat_tools(tools.drop_last(), i);
    }
}

/// A schema that already has a type and properties, each of them of no further
/// structure, and no format.
pub open spec fn is_simple_schema(v: JsonV) -> bool {
    v matches JsonV::Object(m) && m.contains_key("type"@) && !m.contains_key("properties"@) && !m.contains_key("items"@)
        && !m.contains_key("format"@)
}

pub proof fn lemma_simple_schema(v: JsonV, root: bool)
    requires
        is_simple_schema(v),
    ensures
        clean(v, root) == v,
{
    reveal_with_fuel(crate::convert::clean, 1);
}

/// The tools of an Anthropic request that are passed on stand in the Chat request in
/// their order, each with its name, its description and its schema.
pub proof fn law_tools_are_kept_for_chat(body: JsonV, preserve: bool, i: int)
    ensures
        ({
            let tools = tools_passed_on(request_tools(body));
            let out = request_tools(chat_request(body, preserve));
            &&& out.len() == tools.len()
            &&& 0 <= i < tools.len() ==> {
                let f = out[i].at("function"@);
                &&& out[i].str_at("type"@) == Some("function"@)
                &&& f.str_at("name"@) == Some(tools[i].str_or("name"@, Seq::empty()))
                &&& f.get("description"@) == Some(tools[i].at("description"@))
                &&& is_simple_schema(tools[i].at("input_schema"@)) ==> f.get("parameters"@) == tools[i].get(
                    "input_schema"@,
                )
            }
        }),
{
    lemma_setting_keys();
    lemma_tool_keys();
    let tools = request_tools(body);
    lemma_chat_tools(tools, i);
    let out = request_tools(chat_request(body, preserve));
    if chat_tools(tools).len() == 0 {
        assert(out =~= Seq::empty());
    } else {
        assert(out == chat_tools(tools));
        if 0 <= i < out.len() {
            let t = tools_passed_on(tools)[i];
            if is_simple_schema(t.at("input_schema"@)) {
                lemma_simple_schema(t.at("input_schema"@), true);
            }
        }
    }
}

/// A choice of a type.
pub open spec fn choice_of(kind: Seq<char>) -> JsonV {
    JsonV::Object(map!["type"@ => JsonV::Text(kind)])
}

/// A choice of one tool.
pub open spec fn choice_named(kind: Seq<char>, name: Seq<char>) -> JsonV {
    JsonV::Object(map!["type"@ => JsonV::Text(kind), "name"@ => JsonV::Text(name)])
}

/// A choice of one function, as Chat writes it.
pub open spec fn choice_of_function(name: Seq<char>) -> JsonV {
    JsonV::Object(
        map![
            "type"@ => JsonV::Text("function"@),
            "function"@ => JsonV::Object(map!["name"@ => JsonV::Text(name)]),
        ],
    )
}

/// The choice of tools means the same in every format: none, any of them or not, one of
/// them at least, or the one that is named.
pub proof fn law_choice_of_tools_is_kept(body: JsonV, name: Seq<char>, preserve: bool)
    requires
        name.len() > 0,
    ensures
        body.get("parallel_tool_calls"@) is None ==> {
            let a = anthropic_request(body).get("tool_choice"@);
            &&& body.get("tool_choice"@) == Some(JsonV::Text("none"@)) ==> a == Some(choice_of("none"@))
            &&& body.get("tool_choice"@) == Some(JsonV::Text("auto"@)) ==> a == Some(choice_of("auto"@))
            &&& body.get("tool_choice"@) == Some(JsonV::Text("required"@)) ==> a == Some(choice_of("any"@))
            &&& body.get("tool_choice"@) == Some(choice_of_function(name)) ==> a == Some(choice_named("tool"@, name))
            &&& body.get("tool_choice"@) is None ==> a is None
        },
        body.get("parallel_tool_calls"@) == Some(JsonV::Bool(false)) ==> {
            let a = anthropic_request(body).at("tool_choice"@);
            &&& a.get("disable_parallel_tool_use"@) == Some(JsonV::Bool(true))
            &&& body.get("tool_choice"@) is None ==> a.str_at("type"@) == Some("auto"@)
            &&& body.get("tool_choice"@) == Some(JsonV::Text("required"@)) ==> a.str_at("type"@) == Some("any"@)
        },
        body.get("tool_choice"@) == Some(choice_of("any"@)) ==> chat_request(body, preserve).get("tool_choice"@) == Some(
            JsonV::Text("required"@),
        ) && responses_request(body).get("tool_choice"@) == Some(JsonV::Text("required"@)),
        body.get("tool_choice"@) == Some(choice_of("auto"@)) ==> chat_request(body, preserve).get("tool_choice"@)
            == Some(JsonV::Text("auto"@)) && responses_request(body).get("tool_choice"@) == Some(JsonV::Text("auto"@)),
        body.get("tool_choice"@) == Some(choice_of("none"@)) ==> chat_request(body, preserve).get("tool_choice"@)
            == Some(JsonV::Text("none"@)) && responses_request(body).get("tool_choice"@) == Some(JsonV::Text("none"@)),
        body.get("tool_choice"@) == Some(choice_named("tool"@, name)) ==> chat_request(body, preserve).get(
            "tool_choice"@,
        ) == Some(choice_of_function(name)) && responses_request(body).get("tool_choice"@) == Some(
            choice_named("function"@, name),
        ),
        body.get("tool_choice"@) is None ==> chat_request(body, preserve).get("tool_choice"@) is None
            && responses_request(body).get("tool_choice"@) is None,
{
    lemma_setting_keys();
    lemma_tool_keys();
    lemma_choices();
    let named = choice_named("tool"@, name);
    assert(named.str_at("type"@) == Some("tool"@));
    assert(named.str_at("name"@) == Some(name));
    let function = choice_of_function(name);
    assert(function.str_at("type"@) == Some("function"@));
    assert(function.path2("function"@, "name"@) == Some(JsonV::Text(name)));
    assert(map!["type"@ => JsonV::Text("tool"@)].insert("name"@, JsonV::Text(name)) =~= map![
        "type"@ => JsonV::Text("tool"@),
        "name"@ => JsonV::Text(name),
    ]);
    assert(choice_of("any"@).str_at("type"@) == Some("any"@));
    assert(choice_of("auto"@).str_at("type"@) == Some("auto"@));
    assert(choice_of("none"@).str_at("type"@) == Some("none"@));
}

/// The choice of tools of a Responses request means the same in the Anthropic request.
pub proof fn law_choice_of_functions_is_kept(body: JsonV, name: Seq<char>)
    requires
        name.len() > 0,
        body.get("parallel_tool_calls"@) is None,
    ensures
        ({
            let a = request_of_responses(body).get("tool_choice"@);
            &&& body.get("tool_choice"@) == Some(choice_of("none"@)) ==> a == Some(choice_of("none"@))
            &&& body.get("tool_choice"@) == Some(choice_of("auto"@)) ==> a == Some(choice_of("auto"@))
            &&& body.get("tool_choice"@) == Some(choice_of("required"@)) ==> a == Some(choice_of("any"@))
            &&& body.get("tool_choice"@) == Some(choice_named("function"@, name)) ==> a == Some(
                choice_named("tool"@, name),
            )
            &&& body.get("tool_choice"@) is None ==> a is None
        }),
{
    lemma_setting_keys();
    lemma_tool_keys();
    lemma_choices();
    let named = choice_named("function"@, name);
    assert(named.str_at("type"@) == Some("function"@));
    assert(named.str_at("name"@) == Some(name));
    assert(map!["type"@ => JsonV::Text("tool"@)].insert("name"@, JsonV::Text(name)) =~= map![
        "type"@ => JsonV::Text("tool"@),
        "name"@ => JsonV::Text(name),
    ]);
    assert(choice_of("required"@).str_at("type"@) == Some("required"@));
    assert(choice_of("auto"@).str_at("type"@) == Some("auto"@));
    assert(choice_of("none"@).str_at("type"@) == Some("none"@));
}

/// A request for more than one candidate is refused, and no other is.
pub proof fn law_several_candidates_are_refused(body: JsonV)
    ensures
        anthropic_request_outcome(body) is Err <==> body.u64_at("n"@) is Some && body.u64_at("n"@)->0 > 1,
        anthropic_request_outcome(body) is Ok ==> anthropic_request_outcome(body)->Ok_0 == anthropic_request(body),
{
}

} // verus!
