# ai-bridge

A local HTTP proxy that lets Anthropic Messages, OpenAI Chat Completions and
OpenAI Responses clients talk to one configured upstream. A request is converted
from the format of the local entry to that of the upstream, and the response,
whole or streamed, is converted back. When both have the same format, only the
model and the reasoning settings are changed.

## Layout

- `src/` is the library, written in [Verus](https://github.com/verus-lang/verus):
  every function states what it computes and is proved to do so.
  - `json`, `json_text`, `json_canonical`: JSON documents, reading them, and their
    compact text. Documents are modelled with objects as maps.
  - `text`: the string operations that everything else is stated with.
  - `convert`, `convert_message`, `convert_response`: Anthropic requests to Chat
    requests, and Chat responses to Anthropic responses.
  - `convert_reverse`: Chat requests to Anthropic requests, and Anthropic
    responses to Chat responses.
  - `transform_responses`, `responses_response`: the same for Anthropic entries
    before a Responses upstream.
  - `responses_reverse`: the same for Responses entries before an Anthropic
    upstream.
  - `sse`, `chunk_text`, `chat_chunk`, `stream_out`: the framing of event streams,
    the text and the members of the chunks of a Chat stream, and what a conversion
    gives out.
  - `chat_stream`, `streaming_responses`, `reverse_stream`,
    `responses_reverse_stream`: the state machines that convert streams, and
    `bridge`, which chooses and chains them.
  - `block_order`, `thinking_order`, `responses_order`, `chunking`: the content
    blocks of converted streams are in order, thinking blocks are signed with their
    thinking, and streams are converted the same however their bytes
    are cut into chunks, as long as blank lines with and without carriage returns
    are not mixed.
  - `reasoning_bridge`: reasoning items inside Anthropic thinking blocks.
  - `tool_media`, `media_sanitizer`, `vision`: images in tool results, images for
    models that take text only, and their descriptions.
  - `config`, `headers`, `forward`, `server`, `pipeline`, `error`, `reqlog`,
    `passthrough_log`, `cli`: the rules of the proxy.
- `app/` is the program around it: the command line, the profiles on disk, the
  HTTP server and the HTTP client.
- `tests/` runs the library on concrete documents and streams.

## What is proved and what is trusted

Contracts are stated over models: a document is a `JsonV`, a stream conversion is
a state with a list of what it has given out. The functions whose names start
with `law_` state what holds across functions. The calls into `serde_json`,
`base64` and `http`, and a few of the standard library, stand behind small
functions marked `external_body`, whose comments say what is taken on trust.

## Configuration

One file per upstream, `~/.ai-bridge/<profile>.toml`:

```toml
upstream_type = "oai-chat"     # anthropic-messages | oai-chat | oai-responses
url     = "https://api.example.com/v1/chat/completions"
api_key = "sk-your-upstream-key"

model             = "deepseek-v4-flash"
listen_addr       = "127.0.0.1"
listen_port       = 18650
auth_key          = "local-token"
vision_supplement = false

[headers]
X-Tenant = "default"

[reasoning]
thinking = true
effort   = "max"

[vision]
url      = "https://vl.example.com/v1/chat/completions"
api_key  = "sk-your-vision-key"
model    = "vl-model"
prompt_mode = "auto"   # auto | general | ui | compact
prompt   = ""          # takes the place of the prompt for the mode
max_tokens = 1024
```

The first three keys are required. `ai-bridge <profile>` serves a profile and
records it; `ai-bridge` alone serves the recorded one; `ai-bridge --list` lists
them.
