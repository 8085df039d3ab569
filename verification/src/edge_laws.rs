//! What the parts at the edge of the proxy decide: headers, the command line, images and
//! their descriptions, and the log.

use vstd::prelude::*;
use vstd::utf8::*;
use crate::chat_stream::INFINITE_WHITESPACE_THRESHOLD;
use crate::cli::{ArgV, CliV, asks_help, asks_list, bad_arg, first_bad_arg, parsed_cli, positionals};
use crate::config::{DEFAULT_LISTEN_ADDR, DEFAULT_LISTEN_PORT, DEFAULT_MODEL, DEFAULT_PROFILE, VisionSettings, is_given, missing_keys};
use crate::convert::{part_texts, with_stream_usage};
use crate::error::LocalEntry;
use crate::forward::UpstreamType;
use crate::headers::{all_visible, default_headers, is_header, is_visible_byte, overridden, overrides, presented_token};
use crate::json::{JsonV, text_block};
use crate::media_sanitizer::{is_image_block, is_text_only, sanitized_block, sanitized_blocks, sanitized_body, sanitized_message, sanitized_messages};
use crate::passthrough_log::{SeenV, StreamFormat, first_delta, log_fragment};
use crate::reasoning_bridge::{OPENAI_REASONING_ITEM_PREFIX, summary_text};
use crate::reqlog::is_new_prompt;
use crate::request_order::{text_part, with_messages};
use crate::requests_told::only_item;
use crate::rule_laws::same_word;
use crate::server::{last_user, part_log_text, part_log_texts, request_log_text};
use crate::stream_data::is_blank;
use crate::streaming_responses::MAX_TRAILING_BYTES;
use crate::text::{ascii_lower, decimal, is_white_space, join, trim, words};
use crate::text_laws::{law_trim_takes_off_white_space_alone, law_words_hold_all_but_white_space, without_white_space};
use crate::told::joined_up;
use crate::tool_media::{MAX_MEDIA_TRAVERSAL_DEPTH, MIN_IMAGE_STRING_BYTES, ReplacementV, TOOL_RESULT_MEDIA_MOVED_MARKER, UNSUPPORTED_IMAGE_MARKER, content_part, linked_image, slot_part};
use crate::transform_responses::TOOL_RESULT_ERROR_MARKER;
use crate::vision::{AUTO_PROMPT, CACHE_TTL_SECONDS, COMPACT_PROMPT, CachedV, GENERAL_PROMPT, PromptMode, UI_PROMPT, Uncached, after_answer, answered, described_body, described_messages, fnv_hash, image_label, kept, kept_for, labelled_parts, mode_named, uncached_places, vision_message, vision_prompt, vision_request, vision_text};

verus! {

/// The names of the headers are all different.
proof fn lemma_header_names()
    ensures
        "x-api-key"@ != "anthropic-version"@,
        "x-api-key"@ != "authorization"@,
        "x-api-key"@ != "content-type"@,
        "anthropic-version"@ != "authorization"@,
        "anthropic-version"@ != "content-type"@,
        "authorization"@ != "content-type"@,
{
    reveal_strlit("x-api-key");
    reveal_strlit("anthropic-version");
    reveal_strlit("authorization");
    reveal_strlit("content-type");
    assert("x-api-key"@.len() == 9 && "anthropic-version"@.len() == 17 && "authorization"@.len() == 13 && "content-type"@.len() == 12);
}

/// A request to an Anthropic upstream carries the key by itself and the version; one to
/// an OpenAI upstream carries it as a bearer token; both say that they hold JSON.
pub proof fn law_request_carries_the_key(key: Seq<char>)
    ensures
        ({
            let a = default_headers(UpstreamType::AnthropicMessages, key);
            let c = default_headers(UpstreamType::OaiChat, key);
            let json = seq![encode_utf8("application/json"@)];
            &&& default_headers(UpstreamType::OaiResponses, key) == c
            &&& a.contains_key("x-api-key"@) && a["x-api-key"@] == seq![encode_utf8(key)]
            &&& a.contains_key("anthropic-version"@) && a["anthropic-version"@] == seq![encode_utf8("2023-06-01"@)]
            &&& a.contains_key("content-type"@) && a["content-type"@] == json
            &&& !a.contains_key("authorization"@)
            &&& c.contains_key("authorization"@) && c["authorization"@] == seq![encode_utf8("Bearer "@ + key)]
            &&& c.contains_key("content-type"@) && c["content-type"@] == json
            &&& !c.contains_key("x-api-key"@)
        }),
{
    lemma_header_names();
}

/// A header that is overridden has the last value of the override alone; any other stays
/// as it was, and no header comes from elsewhere.
pub proof fn law_overrides_win(base: Map<Seq<char>, Seq<Seq<u8>>>, over: Map<Seq<char>, Seq<Seq<u8>>>, k: Seq<char>)
    ensures
        over.contains_key(k) ==> overridden(base, over).contains_key(k) && overridden(base, over)[k] == seq![
            over[k].last(),
        ],
        !over.contains_key(k) && base.contains_key(k) ==> overridden(base, over).contains_key(k) && overridden(
            base,
            over,
        )[k] == base[k],
        !over.contains_key(k) && !base.contains_key(k) ==> !overridden(base, over).contains_key(k),
{
}

/// Of the pairs that are headers, the last of a name wins, whatever the case of the name;
/// a pair that is no header alters nothing.
pub proof fn law_later_pairs_win(pairs: Seq<(String, String)>, name: String, value: String, k: Seq<char>)
    ensures
        ({
            let m = overrides(pairs.push((name, value)));
            let good = is_header(name@, value@);
            &&& good ==> m.contains_key(ascii_lower(trim(name@))) && m[ascii_lower(trim(name@))] == seq![
                encode_utf8(trim(value@)),
            ]
            &&& good && k != ascii_lower(trim(name@)) || !good ==> m.contains_key(k) == overrides(pairs).contains_key(k)
                && (m.contains_key(k) ==> m[k] == overrides(pairs)[k])
        }),
{
    assert(pairs.push((name, value)).drop_last() =~= pairs);
}

/// Whether a text is made of visible ASCII characters.
pub open spec fn is_visible_text(t: Seq<char>) -> bool {
    forall|i: int| 0 <= i < t.len() ==> ' ' <= #[trigger] t[i] <= '~'
}

/// The token of a request is the value of the key header, or else what follows the word
/// in the header of the bearer token; a request with neither brings the empty token.
pub proof fn law_token_is_read_from_its_header(h: Map<Seq<char>, Seq<Seq<u8>>>, t: Seq<char>)
    requires
        is_visible_text(t),
    ensures
        h.contains_key("x-api-key"@) && h["x-api-key"@] == seq![encode_utf8(t)] ==> presented_token(h) == t,
        !h.contains_key("x-api-key"@) && h.contains_key("authorization"@) && h["authorization"@] == seq![
            encode_utf8("Bearer "@ + t),
        ] ==> presented_token(h) == t,
        !h.contains_key("x-api-key"@) && !h.contains_key("authorization"@) ==> presented_token(h).len() == 0,
{
    lemma_visible(t);
    reveal_strlit("Bearer ");
    let b = "Bearer "@ + t;
    assert forall|i: int| 0 <= i < b.len() implies ' ' <= #[trigger] b[i] <= '~' by {
        if i >= 7 {
            assert(b[i] == t[i - 7]);
        }
    }
    lemma_visible(b);
    assert(b.take(7) =~= "Bearer "@);
    assert(b.skip(7) =~= t);
}

proof fn lemma_visible(t: Seq<char>)
    requires
        is_visible_text(t),
    ensures
        all_visible(encode_utf8(t)),
        decode_utf8(encode_utf8(t)) == t,
{
    encode_utf8_decode_utf8(t);
    assert(is_ascii_chars(t));
    is_ascii_chars_encode_utf8(t);
    let b = encode_utf8(t);
    assert forall|i: int| 0 <= i < b.len() implies is_visible_byte(#[trigger] b[i]) by {
        assert(b[i] == t[i] as u8);
    }
}

/// The flags are all different.
proof fn lemma_flags()
    ensures
        "-l"@ != "--list"@,
        "-l"@ != "-h"@,
        "-l"@ != "--help"@,
        "--list"@ != "-h"@,
        "--list"@ != "--help"@,
        "-h"@ != "--help"@,
{
    reveal_strlit("-l");
    reveal_strlit("--list");
    reveal_strlit("-h");
    reveal_strlit("--help");
    assert("-l"@.len() == 2 && "--list"@.len() == 6 && "-h"@.len() == 2 && "--help"@.len() == 6);
    assert("-l"@[1] == 'l' && "-h"@[1] == 'h');
    assert("--list"@[2] == 'l' && "--help"@[2] == 'h');
}

proof fn lemma_one_arg(t: Seq<char>)
    ensures
        first_bad_arg(seq![ArgV::Text(t)]) == bad_arg(ArgV::Text(t)),
        positionals(seq![ArgV::Text(t)]) == if t.len() > 0 && t[0] == '-' {
            Seq::empty()
        } else {
            seq![t]
        },
{
    let a = seq![ArgV::Text(t)];
    reveal_with_fuel(first_bad_arg, 2);
    reveal_with_fuel(positionals, 2);
    assert(a.drop_last() =~= Seq::empty());
    assert(a.last() == ArgV::Text(t));
    assert(Seq::<Seq<char>>::empty().push(t) =~= seq![t]);
}

/// Without arguments the recorded profile runs; with a name, the profile of that name.
/// The flags in either form give the list and the help, and any other option is refused
/// by its name.
pub proof fn law_command_line_of_one_argument(t: Seq<char>)
    ensures
        parsed_cli(Seq::empty()) == Ok::<CliV, Seq<char>>(CliV::Run(None)),
        t.len() == 0 || t[0] != '-' ==> parsed_cli(seq![ArgV::Text(t)]) == Ok::<CliV, Seq<char>>(CliV::Run(Some(t))),
        t == "-l"@ || t == "--list"@ ==> parsed_cli(seq![ArgV::Text(t)]) == Ok::<CliV, Seq<char>>(CliV::List),
        t == "-h"@ || t == "--help"@ ==> parsed_cli(seq![ArgV::Text(t)]) == Ok::<CliV, Seq<char>>(CliV::Help),
        t.len() > 0 && t[0] == '-' && t != "-l"@ && t != "--list"@ && t != "-h"@ && t != "--help"@ ==> parsed_cli(
            seq![ArgV::Text(t)],
        ) == Err::<CliV, Seq<char>>("Unknown option: "@ + t),
{
    lemma_flags();
    reveal_strlit("-l");
    reveal_strlit("--list");
    reveal_strlit("-h");
    reveal_strlit("--help");
    lemma_one_arg(t);
    let a = seq![ArgV::Text(t)];
    assert(a[0] == ArgV::Text(t));
    if t == "-h"@ || t == "--help"@ {
        assert(asks_help(a[0]));
    } else {
        assert(!asks_help(a[0]));
        assert(!exists|i: int| 0 <= i < a.len() && #[trigger] asks_help(a[i]));
    }
    if t == "-l"@ || t == "--list"@ {
        assert(asks_list(a[0]));
    } else {
        assert(!asks_list(a[0]));
        assert(!exists|i: int| 0 <= i < a.len() && #[trigger] asks_list(a[i]));
    }
    assert(positionals(Seq::empty()) =~= Seq::empty());
}

/// A command line runs a profile only where no argument is an option or unreadable, and
/// at most one is given. Help is given wherever it is asked for and no argument is bad;
/// the list takes no names.
pub proof fn law_command_line_as_a_whole(args: Seq<ArgV>)
    ensures
        first_bad_arg(args) is Some ==> parsed_cli(args) == Err::<CliV, Seq<char>>(first_bad_arg(args)->0),
        parsed_cli(args) matches Ok(CliV::Run(p)) ==> positionals(args) == match p {
            Some(n) => seq![n],
            None => Seq::empty(),
        },
        parsed_cli(args) matches Ok(CliV::List) ==> positionals(args).len() == 0,
        first_bad_arg(args) is None && (exists|i: int| 0 <= i < args.len() && #[trigger] asks_help(args[i]))
            ==> parsed_cli(args) == Ok::<CliV, Seq<char>>(CliV::Help),
{
    let names = positionals(args);
    if names.len() == 0 {
        assert(names =~= Seq::empty());
    } else if names.len() == 1 {
        assert(names =~= seq![names[0]]);
    }
}

/// The modes are all different.
proof fn lemma_modes()
    ensures
        "general"@ != "ui"@,
        "general"@ != "compact"@,
        "ui"@ != "compact"@,
{
    reveal_strlit("general");
    reveal_strlit("ui");
    reveal_strlit("compact");
    assert("general"@.len() == 7 && "ui"@.len() == 2 && "compact"@.len() == 7);
    assert("general"@[0] == 'g' && "compact"@[0] == 'c');
}
/// The keys of a vision request are all different.
proof fn lemma_vision_keys()
    ensures
        "model"@ != "messages"@,
        "model"@ != "max_tokens"@,
        "model"@ != "stream"@,
        "model"@ != "role"@,
        "model"@ != "content"@,
        "model"@ != "type"@,
        "model"@ != "text"@,
        "messages"@ != "max_tokens"@,
        "messages"@ != "stream"@,
        "messages"@ != "role"@,
        "messages"@ != "content"@,
        "messages"@ != "type"@,
        "messages"@ != "text"@,
        "max_tokens"@ != "stream"@,
        "max_tokens"@ != "role"@,
        "max_tokens"@ != "content"@,
        "max_tokens"@ != "type"@,
        "max_tokens"@ != "text"@,
        "stream"@ != "role"@,
        "stream"@ != "content"@,
        "stream"@ != "type"@,
        "stream"@ != "text"@,
        "role"@ != "content"@,
        "role"@ != "type"@,
        "role"@ != "text"@,
        "content"@ != "type"@,
        "content"@ != "text"@,
        "type"@ != "text"@,
{
    reveal_strlit("model");
    reveal_strlit("messages");
    reveal_strlit("max_tokens");
    reveal_strlit("stream");
    reveal_strlit("role");
    reveal_strlit("content");
    reveal_strlit("type");
    reveal_strlit("text");
    assert("model"@.len() == 5 && "messages"@.len() == 8 && "max_tokens"@.len() == 10 && "stream"@.len() == 6 && "role"@.len() == 4 && "content"@.len() == 7 && "type"@.len() == 4 && "text"@.len() == 4);
    assert("role"@[0] == 'r' && "type"@[0] == 't');
    assert("role"@[0] == 'r' && "text"@[0] == 't');
    assert("type"@[1] == 'y' && "text"@[1] == 'e');
}

/// A mode is named in any case and with white space round it; all else is the mode that
/// goes by the image. A prompt that is set goes before the one of the mode, and two modes
/// have two prompts.
pub proof fn law_modes_have_their_prompts(t: Seq<char>, mode: PromptMode, custom: Seq<char>)
    ensures
        same_word(t, "general"@) ==> mode_named(Some(t)) == PromptMode::General,
        same_word(t, "ui"@) ==> mode_named(Some(t)) == PromptMode::Ui,
        same_word(t, "compact"@) ==> mode_named(Some(t)) == PromptMode::Compact,
        !same_word(t, "general"@) && !same_word(t, "ui"@) && !same_word(t, "compact"@) ==> mode_named(Some(t))
            == PromptMode::Auto,
        mode_named(None) == PromptMode::Auto,
        vision_prompt(mode, Some(custom)) == custom,
        vision_prompt(PromptMode::General, None) == GENERAL_PROMPT@,
        vision_prompt(PromptMode::Ui, None) == UI_PROMPT@,
        vision_prompt(PromptMode::Compact, None) == COMPACT_PROMPT@,
        vision_prompt(PromptMode::Auto, None) == AUTO_PROMPT@,
{
    lemma_modes();
}

/// The request to a vision model names the model and holds one message of the user with
/// the prompt first and the images after it; a limit is passed on where there is one, and
/// an OpenAI upstream is told not to stream.
pub proof fn law_vision_request_holds_the_images(
    model: Seq<char>,
    upstream: UpstreamType,
    limit: Option<u32>,
    prompt: Seq<char>,
    parts: Seq<JsonV>,
)
    ensures
        ({
            let r = vision_request(model, upstream, limit, vision_message(prompt, parts));
            let ms = r.items_at("messages"@);
            &&& r.str_at("model"@) == Some(model)
            &&& ms.len() == 1
            &&& ms[0].str_at("role"@) == Some("user"@)
            &&& ms[0].items_at("content"@).len() == parts.len() + 1
            &&& ms[0].items_at("content"@)[0].str_at("text"@) == Some(prompt)
            &&& ms[0].items_at("content"@).drop_first() == parts
            &&& r.u64_at("max_tokens"@) == (match limit {
                Some(n) => Some(n as u64),
                None => None,
            })
            &&& r.get("stream"@) == (if upstream == UpstreamType::AnthropicMessages {
                None
            } else {
                Some(JsonV::Bool(false))
            })
        }),
{
    lemma_vision_keys();
    let content = seq![text_block(prompt)] + parts;
    assert(content.drop_first() =~= parts);
}

/// The images that are asked about are those without a description, each once and in
/// order.
pub proof fn law_images_without_description_are_asked_about(c: Map<u64, CachedV>, images: Seq<JsonV>, now: u64)
    ensures
        forall|i: int|
            0 <= i < images.len() ==> (#[trigger] uncached_places(c, images, now).contains(i) <==> kept_for(
                c,
                images[i],
                now,
            ) is None),
        forall|j: int|
            0 <= j < uncached_places(c, images, now).len() ==> 0 <= #[trigger] uncached_places(c, images, now)[j]
                < images.len(),
        forall|j: int, k: int|
            0 <= j < k < uncached_places(c, images, now).len() ==> #[trigger] uncached_places(c, images, now)[j]
                < #[trigger] uncached_places(c, images, now)[k],
    decreases images.len(),
{
    let all = uncached_places(c, images, now);
    if images.len() > 0 {
        let less = images.drop_last();
        law_images_without_description_are_asked_about(c, less, now);
        let front = uncached_places(c, less, now);
        let n = images.len() - 1;
        assert forall|i: int| 0 <= i < images.len() implies (#[trigger] all.contains(i) <==> kept_for(c, images[i], now)
            is None) by {
            if i < n {
                assert(less[i] == images[i]);
                assert(front.contains(i) <==> kept_for(c, less[i], now) is None);
                if front.contains(i) {
                    let j = choose|j: int| 0 <= j < front.len() && front[j] == i;
                    assert(all[j] == i);
                }
                if all.contains(i) {
                    let j = choose|j: int| 0 <= j < all.len() && all[j] == i;
                    assert(j < front.len());
                    assert(front[j] == i);
                }
            } else {
                if kept_for(c, images[n], now) is None {
                    assert(all[front.len() as int] == n);
                } else if all.contains(n) {
                    let j = choose|j: int| 0 <= j < all.len() && all[j] == n;
                    assert(front[j] < less.len());
                }
            }
        }
        assert forall|j: int| 0 <= j < all.len() implies 0 <= #[trigger] all[j] < images.len() by {
            if j < front.len() {
                assert(all[j] == front[j]);
            }
        }
        assert forall|j: int, k: int| 0 <= j < k < all.len() implies #[trigger] all[j] < #[trigger] all[k] by {
            assert(all[j] == front[j]);
            if k < front.len() {
                assert(all[k] == front[k]);
            } else {
                assert(front[j] < less.len());
            }
        }
    }
}

/// Each image that is asked about follows a label with its number among all images of the
/// request, counted from one.
pub proof fn law_images_are_labelled(images: Seq<JsonV>, places: Seq<int>, place: int, part: JsonV)
    requires
        0 <= place < images.len(),
        content_part(images[place]) == Some(part),
    ensures
        labelled_parts(images, places.push(place)) == labelled_parts(images, places) + seq![
            JsonV::Object(
                map![
                    "type"@ => JsonV::Text("text"@),
                    "text"@ => JsonV::Text("[Image "@ + decimal((place + 1) as nat) + "]"@),
                ],
            ),
            part,
        ],
{
    assert(places.push(place).drop_last() =~= places);
    let front = labelled_parts(images, places);
    let label = image_label(place as nat);
    assert(front.push(label).push(part) =~= front + seq![label, part]);
}

/// An answer that is not blank becomes the description of every image that was asked
/// about, and of no other; without one, the descriptions stay as they are.
pub proof fn law_answer_describes_what_was_asked(d: Seq<Option<Seq<char>>>, places: Seq<int>, t: Seq<char>, i: int)
    requires
        0 <= i < d.len(),
    ensures
        answered(d, places, None) == d,
        is_blank(t) ==> answered(d, places, Some(t)) == d,
        !is_blank(t) && places.contains(i) ==> answered(d, places, Some(t))[i] == Some(t),
        !places.contains(i) ==> answered(d, places, Some(t))[i] == d[i],
        answered(d, places, Some(t)).len() == d.len(),
{
    law_trim_takes_off_white_space_alone(t);
    assert(answered(d, places, None) =~= d);
    if is_blank(t) {
        assert(answered(d, places, Some(t)) =~= d);
    }
}

/// What a vision model says is its text: the content of the first choice of a Chat
/// response, and the texts of an Anthropic response, one to a line.
pub proof fn law_vision_model_is_heard(v: JsonV, t: Seq<char>, u: Seq<char>)
    ensures
        v.items_at("choices"@).len() > 0 && v.items_at("choices"@)[0].at("message"@).str_at("content"@) == Some(t)
            ==> vision_text(v, UpstreamType::OaiChat) == Some(t),
        v.array_at("content"@) == Some(seq![text_part(t)]) ==> vision_text(v, UpstreamType::AnthropicMessages) == Some(t),
        v.array_at("content"@) == Some(seq![text_part(t), text_part(u)]) ==> vision_text(
            v,
            UpstreamType::AnthropicMessages,
        ) == Some(t + "\n"@ + u),
        v.items_at("content"@).len() == 0 ==> vision_text(v, UpstreamType::AnthropicMessages) is None,
        v.get("choices"@) is None ==> vision_text(v, UpstreamType::OaiChat) is None,
{
    lemma_vision_keys();
    reveal_with_fuel(part_texts, 3);
    reveal_with_fuel(join, 3);
    let one = seq![text_part(t)];
    let two = seq![text_part(t), text_part(u)];
    assert(one.drop_last() =~= Seq::empty());
    assert(two.drop_last() =~= one);
    assert(part_texts(one) =~= seq![t]);
    assert(part_texts(two) =~= seq![t, u]);
    assert(seq![t, u].drop_last() =~= seq![t]);
    if v.items_at("content"@).len() == 0 {
        assert(part_texts(v.items_at("content"@)) =~= Seq::empty());
    }
    if v.items_at("choices"@).len() > 0 {
        assert(v.get("choices"@) == Some(JsonV::Array(v.items_at("choices"@))));
    }
}

/// The types of images and their sources are all different.
proof fn lemma_image_words()
    ensures
        "image"@ != "image_url"@,
        "image"@ != "input_image"@,
        "image"@ != "base64"@,
        "image"@ != "url"@,
        "image_url"@ != "input_image"@,
        "image_url"@ != "base64"@,
        "image_url"@ != "url"@,
        "input_image"@ != "base64"@,
        "input_image"@ != "url"@,
        "base64"@ != "url"@,
{
    reveal_strlit("image");
    reveal_strlit("image_url");
    reveal_strlit("input_image");
    reveal_strlit("base64");
    reveal_strlit("url");
    assert("image"@.len() == 5 && "image_url"@.len() == 9 && "input_image"@.len() == 11 && "base64"@.len() == 6 && "url"@.len() == 3);
}
/// The keys of images are all different.
proof fn lemma_image_keys()
    ensures
        "type"@ != "source"@,
        "type"@ != "media_type"@,
        "type"@ != "data"@,
        "type"@ != "url"@,
        "type"@ != "mimeType"@,
        "type"@ != "image_url"@,
        "source"@ != "media_type"@,
        "source"@ != "data"@,
        "source"@ != "url"@,
        "source"@ != "mimeType"@,
        "source"@ != "image_url"@,
        "media_type"@ != "data"@,
        "media_type"@ != "url"@,
        "media_type"@ != "mimeType"@,
        "media_type"@ != "image_url"@,
        "data"@ != "url"@,
        "data"@ != "mimeType"@,
        "data"@ != "image_url"@,
        "url"@ != "mimeType"@,
        "url"@ != "image_url"@,
        "mimeType"@ != "image_url"@,
{
    reveal_strlit("type");
    reveal_strlit("source");
    reveal_strlit("media_type");
    reveal_strlit("data");
    reveal_strlit("url");
    reveal_strlit("mimeType");
    reveal_strlit("image_url");
    assert("type"@.len() == 4 && "source"@.len() == 6 && "media_type"@.len() == 10 && "data"@.len() == 4 && "url"@.len() == 3 && "mimeType"@.len() == 8 && "image_url"@.len() == 9);
    assert("type"@[0] == 't' && "data"@[0] == 'd');
}

/// An image with a URL, as Chat writes it.
pub open spec fn shown_at(url: Seq<char>) -> JsonV {
    JsonV::Object(
        map![
            "type"@ => JsonV::Text("image_url"@),
            "image_url"@ => JsonV::Object(map!["url"@ => JsonV::Text(url)]),
        ],
    )
}

/// An image is known in each form in which it may come, and stands for the same: by its
/// data and their type, or by its address.
pub proof fn law_images_are_known_in_each_form(kind: Seq<char>, data: Seq<char>, url: Seq<char>)
    ensures
        ({
            let by_data = JsonV::Object(
                map![
                    "type"@ => JsonV::Text("image"@),
                    "source"@ => JsonV::Object(
                        map![
                            "type"@ => JsonV::Text("base64"@),
                            "media_type"@ => JsonV::Text(kind),
                            "data"@ => JsonV::Text(data),
                        ],
                    ),
                ],
            );
            let by_url = JsonV::Object(
                map![
                    "type"@ => JsonV::Text("image"@),
                    "source"@ => JsonV::Object(map!["type"@ => JsonV::Text("url"@), "url"@ => JsonV::Text(url)]),
                ],
            );
            let bare = JsonV::Object(
                map!["type"@ => JsonV::Text("image"@), "data"@ => JsonV::Text(data), "mimeType"@ => JsonV::Text(kind)],
            );
            let input = JsonV::Object(
                map!["type"@ => JsonV::Text("input_image"@), "image_url"@ => JsonV::Text(url)],
            );
            let whole = "data:"@ + kind + ";base64,"@ + data;
            &&& slot_part(by_data, false) == Some(shown_at(whole))
            &&& slot_part(by_url, false) == Some(shown_at(url))
            &&& slot_part(bare, false) == Some(shown_at(whole))
            &&& slot_part(input, false) == Some(shown_at(url))
            &&& slot_part(shown_at(url), false) == Some(shown_at(url))
            &&& content_part(by_data) == Some(shown_at(whole))
            &&& content_part(by_url) == Some(shown_at(url))
            &&& content_part(input) == Some(shown_at(url))
            &&& content_part(shown_at(url)) == Some(shown_at(url))
            &&& sanitized_block(by_data) == (marker(), 1nat)
            &&& sanitized_block(by_url) == (marker(), 1nat)
            &&& sanitized_block(input) == (marker(), 1nat)
            &&& sanitized_block(shown_at(url)) == (marker(), 1nat)
        }),
{
    lemma_image_words();
    lemma_image_keys();
    reveal_strlit("cache_control");
    reveal_strlit("type");
    reveal_strlit("source");
    reveal_strlit("data");
    reveal_strlit("mimeType");
    reveal_strlit("image_url");
    assert("cache_control"@.len() == 13 && "type"@.len() == 4 && "source"@.len() == 6 && "data"@.len() == 4);
    assert("mimeType"@.len() == 8 && "image_url"@.len() == 9);
    let shown = shown_at(url);
    let target = JsonV::Object(map!["url"@ => JsonV::Text(url)]);
    assert(shown.get("image_url"@) == Some(target));
    assert(target.str_at("url"@) == Some(url));
    assert(linked_image(shown) == Some(shown));
}

/// What takes the place of an image that the model cannot take.
pub open spec fn marker() -> JsonV {
    JsonV::Object(map!["type"@ => JsonV::Text("text"@), "text"@ => JsonV::Text("[Unsupported Image]"@)])
}

/// Taking the images out of a message leaves as many blocks as there were, in order, and
/// alters none but the images and the results of tools.
pub proof fn law_other_blocks_are_left(blocks: Seq<JsonV>, i: int)
    requires
        0 <= i < blocks.len(),
    ensures
        sanitized_blocks(blocks).0.len() == blocks.len(),
        sanitized_blocks(blocks).0[i] == sanitized_block(blocks[i]).0,
        !is_image_block(blocks[i]) && blocks[i].str_at("type"@) != Some("tool_result"@) ==> sanitized_blocks(blocks).0[i]
            == blocks[i],
    decreases blocks.len(),
{
    let front = blocks.drop_last();
    if i < front.len() {
        law_other_blocks_are_left(front, i);
        assert(front[i] == blocks[i]);
    } else if front.len() > 0 {
        law_other_blocks_are_left(front, 0);
    } else {
        reveal_with_fuel(sanitized_blocks, 2);
        assert(sanitized_blocks(front).0.len() == 0);
    }
}

/// A prompt is logged where it is not blank and differs from the one that was logged last,
/// white space at the ends aside.
pub proof fn law_new_prompts_are_logged(last: Option<Seq<char>>, s: Seq<char>)
    ensures
        !is_new_prompt(last, None),
        is_blank(s) ==> !is_new_prompt(last, Some(s)),
        !is_blank(s) ==> (is_new_prompt(last, Some(s)) <==> last != Some(trim(s))),
        !is_new_prompt(Some(trim(s)), Some(s)),
{
    law_trim_takes_off_white_space_alone(s);
}

/// What a request is about is what the user said last: in the log stand its words, on one
/// line.
pub proof fn law_last_message_of_the_user_is_logged(ms: Seq<JsonV>, m: JsonV, rest: Seq<JsonV>, t: Seq<char>)
    requires
        m.str_at("role"@) == Some("user"@),
        m.str_at("content"@) == Some(t),
        !is_blank(t),
        forall|i: int| 0 <= i < rest.len() ==> (#[trigger] rest[i]).str_at("role"@) != Some("user"@),
    ensures
        request_log_text(with_messages(ms.push(m) + rest), LocalEntry::OaiChat) == join(words(t), " "@),
        request_log_text(with_messages(ms.push(m) + rest), LocalEntry::AnthropicMessages) == join(words(t), " "@),
{
    let all = ms.push(m) + rest;
    let body = with_messages(all);
    assert(body.array_at("messages"@) == Some(all));
    lemma_last_user(LocalEntry::OaiChat, ms, m, rest);
    lemma_last_user(LocalEntry::AnthropicMessages, ms, m, rest);
    assert(m.get("content"@) == Some(JsonV::Text(t)));
    lemma_line_is_not_blank(t);
}

proof fn lemma_last_user(entry: LocalEntry, ms: Seq<JsonV>, m: JsonV, rest: Seq<JsonV>)
    requires
        entry != LocalEntry::OaiResponses,
        m.str_at("role"@) == Some("user"@),
        forall|i: int| 0 <= i < rest.len() ==> (#[trigger] rest[i]).str_at("role"@) != Some("user"@),
    ensures
        last_user(entry, ms.push(m) + rest) == Some(m),
    decreases rest.len(),
{
    let all = ms.push(m) + rest;
    if rest.len() == 0 {
        assert(all =~= ms.push(m));
        assert(all.last() == m);
    } else {
        let front = rest.drop_last();
        assert(rest[rest.len() - 1].str_at("role"@) != Some("user"@));
        assert forall|i: int| 0 <= i < front.len() implies (#[trigger] front[i]).str_at("role"@) != Some("user"@) by {
            assert(front[i] == rest[i]);
        }
        lemma_last_user(entry, ms, m, front);
        assert(all.drop_last() =~= ms.push(m) + front);
    }
}

proof fn lemma_line_is_not_blank(t: Seq<char>)
    requires
        !is_blank(t),
    ensures
        trim(join(words(t), " "@)).len() > 0,
{
    law_words_hold_all_but_white_space(t);
    let ws = words(t);
    let i = choose|i: int| 0 <= i < t.len() && !is_white_space(#[trigger] t[i]);
    lemma_something_is_left(t, i);
    if ws.len() == 0 {
        assert(joined_up(ws).len() == 0);
    }
    let line = join(ws, " "@);
    let last = ws[ws.len() - 1];
    assert(last.len() > 0);
    assert(line.len() >= last.len() && line.last() == last.last()) by {
        if ws.len() == 1 {
            assert(line == ws[0]);
        } else {
            assert(line == join(ws.drop_last(), " "@) + " "@ + ws.last());
        }
    }
    assert(without_white_space(last) == last);
    assert(!is_white_space(last.last())) by {
        if is_white_space(last.last()) {
            lemma_less_is_left(last.drop_last());
        }
    }
    law_trim_takes_off_white_space_alone(line);
    if is_blank(line) {
        assert(is_white_space(line[line.len() - 1]));
    }
}

proof fn lemma_less_is_left(s: Seq<char>)
    ensures
        without_white_space(s).len() <= s.len(),
    decreases s.len(),
{
    if s.len() > 0 {
        lemma_less_is_left(s.drop_last());
    }
}

proof fn lemma_something_is_left(s: Seq<char>, i: int)
    requires
        0 <= i < s.len(),
        !is_white_space(s[i]),
    ensures
        without_white_space(s).len() > 0,
    decreases s.len(),
{
    if i < s.len() - 1 {
        lemma_something_is_left(s.drop_last(), i);
    }
}

/// A request that streams asks a Chat upstream to count what it used; any other stays as
/// it is, and so does every other member.
pub proof fn law_streams_are_counted(v: JsonV, key: Seq<char>)
    ensures
        v is Object && v.get("stream"@) == Some(JsonV::Bool(true)) ==> with_stream_usage(v).at("stream_options"@).get(
            "include_usage"@,
        ) == Some(JsonV::Bool(true)),
        v.get("stream"@) != Some(JsonV::Bool(true)) ==> with_stream_usage(v) == v,
        key != "stream_options"@ ==> with_stream_usage(v).get(key) == v.get(key),
{
}

/// What holds where nothing is set, and the limits that are fixed.
pub proof fn law_defaults()
    ensures
        DEFAULT_PROFILE@ == "default"@,
        DEFAULT_MODEL@ == "deepseek-v4-flash"@,
        DEFAULT_LISTEN_ADDR@ == "127.0.0.1"@,
        DEFAULT_LISTEN_PORT == 18650,
        CACHE_TTL_SECONDS == 3600,
        MAX_MEDIA_TRAVERSAL_DEPTH == 32,
        MIN_IMAGE_STRING_BYTES == 8192,
        INFINITE_WHITESPACE_THRESHOLD == 500,
        MAX_TRAILING_BYTES == 500,
        OPENAI_REASONING_ITEM_PREFIX@ == "ccswitch-openai-reasoning-v1:"@,
        TOOL_RESULT_MEDIA_MOVED_MARKER@ == "[Image moved to the following user message]"@,
        UNSUPPORTED_IMAGE_MARKER@ == "[Unsupported Image]"@,
        TOOL_RESULT_ERROR_MARKER@ == "[cc-switch:tool-result-error]"@,
{
}

/// A setting is given where it is not blank, and of the three that a vision model needs
/// those that are not given are named.
pub proof fn law_missing_settings_are_named(v: VisionSettings, t: String)
    ensures
        is_given(Some(t)) <==> !is_blank(t@),
        !is_given(None),
        missing_keys(v).contains("url"@) <==> !is_given(v.url),
        missing_keys(v).contains("api_key"@) <==> !is_given(v.api_key),
        missing_keys(v).contains("model"@) <==> !is_given(v.model),
        missing_keys(v).len() <= 3,
{
    law_trim_takes_off_white_space_alone(t@);
    lemma_setting_names();
    let all = missing_keys(v);
    let a = if is_given(v.url) {
        Seq::<Seq<char>>::empty()
    } else {
        seq!["url"@]
    };
    let b = if is_given(v.api_key) {
        a
    } else {
        a.push("api_key"@)
    };
    if !is_given(v.url) {
        assert(a[0] == "url"@ && b[0] == "url"@ && all[0] == "url"@);
    }
    if !is_given(v.api_key) {
        assert(b[a.len() as int] == "api_key"@ && all[a.len() as int] == "api_key"@);
    }
    if !is_given(v.model) {
        assert(all[b.len() as int] == "model"@);
    }
}

/// The names of the settings are all different.
proof fn lemma_setting_names()
    ensures
        "url"@ != "api_key"@,
        "url"@ != "model"@,
        "api_key"@ != "model"@,
{
    reveal_strlit("url");
    reveal_strlit("api_key");
    reveal_strlit("model");
    assert("url"@.len() == 3 && "api_key"@.len() == 7 && "model"@.len() == 5);
}

/// The fingerprint of bytes starts from the basis of the hash and takes in one byte after
/// the other: it is mixed in, and the result is multiplied by the prime.
pub proof fn law_fingerprint_takes_in_every_byte(s: Seq<u8>, b: u8)
    ensures
        fnv_hash(Seq::empty()) == 0xcbf29ce484222325u64,
        fnv_hash(s.push(b)) as int == ((fnv_hash(s) ^ (b as u64)) as int * 0x100000001b3int) % 0x1_0000_0000_0000_0000int,
{
    assert(s.push(b).drop_last() =~= s);
}

/// A cache breakpoint stays on the mark that takes the place of an image.
pub proof fn law_cache_breakpoints_stay(block: JsonV, c: JsonV)
    requires
        block.str_at("type"@) == Some("image"@),
        block.get("cache_control"@) == Some(c),
    ensures
        sanitized_block(block).0.get("cache_control"@) == Some(c),
        sanitized_block(block).0.str_at("text"@) == Some("[Unsupported Image]"@),
        sanitized_block(block).1 == 1,
{
    reveal_strlit("cache_control");
    reveal_strlit("type");
    reveal_strlit("text");
    assert("cache_control"@.len() == 13 && "type"@[1] == 'y' && "text"@[1] == 'e');
}

/// The text of a reasoning item is that of the parts of its summary that are texts, put
/// one after another.
pub proof fn law_reasoning_is_read_from_its_summary(parts: Seq<JsonV>, part: JsonV, t: Seq<char>)
    requires
        part.str_at("text"@) == Some(t),
    ensures
        part.str_at("type"@) == Some("summary_text"@) || part.str_at("type"@) == Some("reasoning_text"@)
            ==> summary_text(parts.push(part)) == summary_text(parts) + t,
        part.str_at("type"@) is None ==> summary_text(parts.push(part)) == summary_text(parts),
        summary_text(Seq::empty()).len() == 0,
{
    assert(parts.push(part).drop_last() =~= parts);
    assert(summary_text(parts) + Seq::<char>::empty() =~= summary_text(parts));
}

/// What a stream that is passed on says goes to the log as it is, in each format: its
/// text and its reasoning.
pub proof fn law_passed_text_is_logged(seen: SeenV, v: JsonV, t: Seq<char>)
    requires
        t.len() > 0,
    ensures
        v.str_at("type"@) == Some("content_block_delta"@) && v.at("delta"@).str_at("type"@) == Some("text_delta"@)
            && v.at("delta"@).str_at("text"@) == Some(t) ==> log_fragment(StreamFormat::Anthropic, seen, v).text == Some(t)
            && log_fragment(StreamFormat::Anthropic, seen, v).seen.has_text,
        v.str_at("type"@) == Some("content_block_delta"@) && v.at("delta"@).str_at("type"@) == Some("thinking_delta"@)
            && v.at("delta"@).str_at("thinking"@) == Some(t) ==> log_fragment(StreamFormat::Anthropic, seen, v).text
            == Some(t),
        v.str_at("type"@) == Some("response.output_text.delta"@) && v.str_at("delta"@) == Some(t) ==> log_fragment(
            StreamFormat::Responses,
            seen,
            v,
        ).text == Some(t),
        v.items_at("choices"@).len() > 0 && v.items_at("choices"@)[0].at("delta"@).str_at("content"@) == Some(t)
            && v.items_at("choices"@)[0].at("delta"@).get("reasoning_content"@) is None && v.items_at(
            "choices"@,
        )[0].at("delta"@).get("tool_calls"@) is None ==> log_fragment(StreamFormat::Chat, seen, v).text == Some(t)
            && log_fragment(StreamFormat::Chat, seen, v).seen.has_text,
{
    reveal_strlit("text_delta");
    reveal_strlit("thinking_delta");
    assert("text_delta"@.len() == 10 && "thinking_delta"@.len() == 14);
    if v.items_at("choices"@).len() > 0 {
        assert(v.get("choices"@) == Some(JsonV::Array(v.items_at("choices"@))));
        let delta = v.items_at("choices"@)[0].at("delta"@);
        if delta.str_at("content"@) == Some(t) {
            assert(first_delta(v) == Some(delta));
        }
    }
}

/// A tool that a stream names before any text is named in the log, once.
pub proof fn law_passed_calls_are_logged(seen: SeenV, v: JsonV, name: Seq<char>)
    requires
        name.len() > 0,
        v.str_at("type"@) == Some("content_block_start"@),
        v.at("content_block"@).str_at("type"@) == Some("tool_use"@),
        v.at("content_block"@).str_at("name"@) == Some(name),
    ensures
        ({
            let f = log_fragment(StreamFormat::Anthropic, seen, v);
            &&& !seen.has_text && !seen.tools.contains(name) ==> f.text == Some("[tool_use: "@ + name + "]"@)
                && f.seen.tools == seen.tools.push(name)
            &&& seen.has_text || seen.tools.contains(name) ==> f.text is None && f.seen == seen
        }),
{
    reveal_strlit("content_block_start");
    reveal_strlit("content_block_delta");
    assert("content_block_start"@[14] == 's' && "content_block_delta"@[14] == 'd');
}

/// Taking the images out of a request leaves as many messages as there were, in order, and
/// of each all but its content.
pub proof fn law_messages_are_left(ms: Seq<JsonV>, i: int, key: Seq<char>)
    requires
        0 <= i < ms.len(),
    ensures
        sanitized_messages(ms).0.len() == ms.len(),
        sanitized_messages(ms).0[i] == sanitized_message(ms[i]).0,
        key != "content"@ ==> sanitized_messages(ms).0[i].get(key) == ms[i].get(key),
        ms[i].array_at("content"@) is None ==> sanitized_messages(ms).0[i] == ms[i],
    decreases ms.len(),
{
    let front = ms.drop_last();
    if i < front.len() {
        law_messages_are_left(front, i, key);
        assert(front[i] == ms[i]);
    } else if front.len() > 0 {
        law_messages_are_left(front, 0, key);
    } else {
        reveal_with_fuel(sanitized_messages, 2);
        assert(sanitized_messages(front).0.len() == 0);
    }
}

/// Describing the images of a request leaves as many messages as there were, in order, and
/// of each all but its content; a request of which nothing is a list stays as it is.
pub proof fn law_described_messages_are_left(ms: Seq<JsonV>, how: ReplacementV, i: int, key: Seq<char>)
    requires
        0 <= i < ms.len(),
    ensures
        described_messages(ms, how).0.len() == ms.len(),
        key != "content"@ ==> described_messages(ms, how).0[i].get(key) == ms[i].get(key),
        ms[i].array_at("content"@) is None ==> described_messages(ms, how).0[i] == ms[i],
    decreases ms.len(),
{
    let front = ms.drop_last();
    if i < front.len() {
        law_described_messages_are_left(front, how, i, key);
        assert(front[i] == ms[i]);
    } else if front.len() > 0 {
        law_described_messages_are_left(front, how, 0, key);
    } else {
        reveal_with_fuel(described_messages, 2);
        assert(described_messages(front, how).0.len() == 0);
    }
}

/// A request to a model that takes images is not touched, and of one to a model that does
/// not, nothing but the messages is.
pub proof fn law_rest_of_the_request_is_left(body: JsonV, entry: LocalEntry, model: Seq<char>, key: Seq<char>)
    requires
        body is Object,
    ensures
        !is_text_only(model) ==> sanitized_body(body, entry, model) == (body, 0nat),
        key != "messages"@ && key != "input"@ ==> sanitized_body(body, entry, model).0.get(key) == body.get(key),
        entry != LocalEntry::OaiResponses ==> sanitized_body(body, entry, model).0.get("input"@) == body.get("input"@),
        entry == LocalEntry::OaiResponses ==> sanitized_body(body, entry, model).0.get("messages"@) == body.get(
            "messages"@,
        ),
{
    reveal_strlit("messages");
    reveal_strlit("input");
    assert("messages"@.len() == 8 && "input"@.len() == 5);
}

/// What a Responses request is about is what the last message of the user in it says.
pub proof fn law_last_input_of_the_user_is_logged(item: JsonV, t: Seq<char>)
    requires
        item.str_at("type"@) == Some("message"@),
        item.str_at("role"@) == Some("user"@),
        item.array_at("content"@) == Some(
            seq![JsonV::Object(map!["type"@ => JsonV::Text("input_text"@), "text"@ => JsonV::Text(t)])],
        ),
        !is_blank(t),
    ensures
        request_log_text(only_item(item), LocalEntry::OaiResponses) == join(words(t), " "@),
{
    reveal_strlit("type");
    reveal_strlit("text");
    assert("type"@[1] == 'y' && "text"@[1] == 'e');
    let part = JsonV::Object(map!["type"@ => JsonV::Text("input_text"@), "text"@ => JsonV::Text(t)]);
    let parts = seq![part];
    assert(part.str_at("type"@) == Some("input_text"@) && part.str_at("text"@) == Some(t));
    assert(item.get("content"@) == Some(JsonV::Array(parts)));
    reveal_with_fuel(part_log_texts, 2);
    assert(parts.drop_last() =~= Seq::empty());
    assert(part_log_text(part) == Some(t));
    assert(part_log_texts(parts) =~= seq![t]);
    assert(join(seq![t], " "@) == t);
    let items = seq![item];
    assert(items.last() == item);
    assert(only_item(item).array_at("input"@) == Some(items));
    assert(last_user(LocalEntry::OaiResponses, items) == Some(item));
    lemma_line_is_not_blank(t);
}

/// The reasoning of a stream that is passed on goes to the log as it is, and does not
/// count as text.
pub proof fn law_passed_reasoning_is_logged(seen: SeenV, v: JsonV, t: Seq<char>)
    requires
        t.len() > 0,
    ensures
        v.str_at("type"@) == Some("response.reasoning_summary_text.delta"@) && v.str_at("delta"@) == Some(t)
            ==> log_fragment(StreamFormat::Responses, seen, v).text == Some(t) && log_fragment(
            StreamFormat::Responses,
            seen,
            v,
        ).seen == seen,
        v.items_at("choices"@).len() > 0 && v.items_at("choices"@)[0].at("delta"@).str_at("reasoning_content"@) == Some(t)
            && v.items_at("choices"@)[0].at("delta"@).get("content"@) is None && v.items_at("choices"@)[0].at(
            "delta"@,
        ).get("tool_calls"@) is None ==> log_fragment(StreamFormat::Chat, seen, v).text == Some(t) && log_fragment(
            StreamFormat::Chat,
            seen,
            v,
        ).seen == seen,
{
    reveal_strlit("response.output_text.delta");
    reveal_strlit("response.reasoning_summary_text.delta");
    assert("response.output_text.delta"@.len() == 26 && "response.reasoning_summary_text.delta"@.len() == 37);
    if v.items_at("choices"@).len() > 0 {
        assert(v.get("choices"@) == Some(JsonV::Array(v.items_at("choices"@))));
        let delta = v.items_at("choices"@)[0].at("delta"@);
        if delta.str_at("reasoning_content"@) == Some(t) {
            assert(first_delta(v) == Some(delta));
        }
    }
}

/// An answer of the vision model that is not blank is kept for every image that was asked
/// about, and nothing else is altered; a blank one is not kept.
pub proof fn law_answers_are_kept(c: Map<u64, CachedV>, v: Seq<Uncached>, last: Uncached, t: Seq<char>, now: u64)
    requires
        !is_blank(t),
    ensures
        last.fingerprint != 0 ==> kept(after_answer(c, v.push(last), Some(t), now), last.fingerprint, now) == Some(t),
        last.fingerprint == 0 ==> after_answer(c, v.push(last), Some(t), now) == after_answer(c, v, Some(t), now),
        after_answer(c, v, None, now) == c,
        after_answer(c, Seq::empty(), Some(t), now) == c,
{
    law_trim_takes_off_white_space_alone(t);
    assert(v.push(last).drop_last() =~= v);
}

/// Describing the images of a request alters nothing in it but its messages.
pub proof fn law_rest_of_a_described_request_is_left(body: JsonV, how: ReplacementV, key: Seq<char>)
    requires
        body is Object,
    ensures
        key != "messages"@ ==> described_body(body, LocalEntry::OaiChat, how).value.get(key) == body.get(key),
        key != "messages"@ ==> described_body(body, LocalEntry::AnthropicMessages, how).value.get(key) == body.get(key),
        key != "input"@ ==> described_body(body, LocalEntry::OaiResponses, how).value.get(key) == body.get(key),
{
}

} // verus!
