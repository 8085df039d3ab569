//! A bridge between the Anthropic Messages, OpenAI Chat Completions and OpenAI
//! Responses formats: the conversions, the stream state machines and the rules
//! of the proxy, each with its contract.

pub mod json;
pub mod json_canonical;
pub mod json_text;
pub mod error;
pub mod reasoning_bridge;
pub mod tool_media;
pub mod convert;
pub mod convert_message;
pub mod convert_response;
pub mod sse;
pub mod stream_out;
pub mod chat_chunk;
pub mod chunk_text;
pub mod chat_stream;
pub mod convert_reverse;
pub mod reverse_stream;
pub mod transform_responses;
pub mod responses_response;
pub mod streaming_responses;
pub mod responses_reverse;
pub mod responses_reverse_stream;
pub mod media_sanitizer;
pub mod reqlog;
pub mod passthrough_log;
pub mod config;
pub mod headers;
pub mod forward;
pub mod server;
pub mod pipeline;
pub mod bridge;
pub mod cli;
pub mod vision;
pub mod block_order;
pub mod thinking_order;
pub mod chunking;
pub mod responses_order;
pub mod told;
pub mod stream_data;
pub mod chat_told;
pub mod chat_run;
pub mod chat_ends;
pub mod chat_arguments;
pub mod responses_told;
pub mod responses_ends;
pub mod responses_replies;
pub mod replies_told;
pub mod items_told;
pub mod request_order;
pub mod request_fields;
pub mod requests_told;
pub mod message_told;
pub mod reverse_told;
pub mod to_responses_told;
pub mod text_laws;
pub mod wire_laws;
pub mod rule_laws;
pub mod edge_laws;
pub mod message_extras;
pub mod item_extras;
pub mod log_laws;
pub mod text;
