//! The conversion of a streamed response, by the formats of entry and upstream:
//! one stage, or two by way of the Anthropic format.

use vstd::prelude::*;
use vstd::string::*;
use vstd::utf8::*;
use crate::chat_stream::{ChatToAnthropic, ChatV};
use crate::error::LocalEntry;
use crate::forward::UpstreamType;
use crate::json::{lemma_step, lemma_whole};
use crate::passthrough_log::{PassthroughLog, PassthroughV, StreamFormat, entry_format};
use crate::pipeline::{is_passthrough, same_format};
use crate::responses_reverse_stream::{AnthropicToResponses, ToResponsesV};
use crate::reverse_stream::{AnthropicToChat, ReverseV};
use crate::stream_out::{OutV, StreamOut, add_steps, group_outs, outs};
use crate::streaming_responses::{ResponsesToAnthropic, ResponsesV};
use crate::text::cat;

verus! {

/// What comes of one step of the first stage in the second stage: events go on,
/// and the log is written as it is.
pub open spec fn relayed_to_chat(s: ReverseV, o: OutV) -> ReverseV {
    match o.client_text() {
        Some(t) => s.with_bytes(encode_utf8(t)),
        None => s.emit(o),
    }
}

/// What comes of the steps of the first stage in the second stage.
pub open spec fn all_relayed_to_chat(s: ReverseV, list: Seq<OutV>) -> ReverseV
    decreases list.len(),
{
    if list.len() == 0 {
        s
    } else {
        relayed_to_chat(all_relayed_to_chat(s, list.drop_last()), list.last())
    }
}

/// What comes of one step of the first stage in the second stage.
pub open spec fn relayed_to_responses(s: ToResponsesV, o: OutV) -> ToResponsesV {
    match o.client_text() {
        Some(t) => s.with_bytes(encode_utf8(t)),
        None => s.emit(o),
    }
}

/// What comes of the steps of the first stage in the second stage.
pub open spec fn all_relayed_to_responses(s: ToResponsesV, list: Seq<OutV>) -> ToResponsesV
    decreases list.len(),
{
    if list.len() == 0 {
        s
    } else {
        relayed_to_responses(all_relayed_to_responses(s, list.drop_last()), list.last())
    }
}

impl AnthropicToChat {
    /// Takes in the steps of a stage that gives out Anthropic events.
    pub fn relay(&mut self, list: Vec<StreamOut>) -> (r: Vec<StreamOut>)
        ensures
            outs(r@) == all_relayed_to_chat(old(self)@, outs(list@)).out,
            final(self)@ == all_relayed_to_chat(old(self)@, outs(list@)).drained(),
    {
        broadcast use group_outs;

        let ghost all = outs(list@);
        let ghost items = list@;
        for o in it: list
            invariant
                it.seq() == items,
                all == outs(items),
                self@ == all_relayed_to_chat(old(self)@, all.take(it.index() as int)),
        {
            let ghost i = it.index() as int;
            proof {
                lemma_step(all, i);
                assert(all[i] == o@);
            }
            match o.client_text() {
                Some(t) => {
                    self.take_in(t.as_str().as_bytes());
                },
                None => {
                    self.give(o);
                },
            }
        }
        proof {
            lemma_whole(all);
        }
        self.drain()
    }
}

impl AnthropicToResponses {
    /// Takes in the steps of a stage that gives out Anthropic events.
    pub fn relay(&mut self, list: Vec<StreamOut>) -> (r: Vec<StreamOut>)
        ensures
            outs(r@) == all_relayed_to_responses(old(self)@, outs(list@)).out,
            final(self)@ == all_relayed_to_responses(old(self)@, outs(list@)).drained(),
    {
        broadcast use group_outs;

        let ghost all = outs(list@);
        let ghost items = list@;
        for o in it: list
            invariant
                it.seq() == items,
                all == outs(items),
                self@ == all_relayed_to_responses(old(self)@, all.take(it.index() as int)),
        {
            let ghost i = it.index() as int;
            proof {
                lemma_step(all, i);
                assert(all[i] == o@);
            }
            match o.client_text() {
                Some(t) => {
                    self.take_in(t.as_str().as_bytes());
                },
                None => {
                    self.give(o);
                },
            }
        }
        proof {
            lemma_whole(all);
        }
        self.drain()
    }
}

/// The conversion of one streamed response.
pub enum StreamBridge {
    Passthrough(PassthroughLog),
    ChatToAnthropic(ChatToAnthropic),
    ResponsesToAnthropic(ResponsesToAnthropic),
    AnthropicToChat(AnthropicToChat),
    AnthropicToResponses(AnthropicToResponses),
    ResponsesToChat(ResponsesToAnthropic, AnthropicToChat),
    ChatToResponses(ChatToAnthropic, AnthropicToResponses),
}

/// The model of the conversion.
pub enum BridgeV {
    Passthrough(PassthroughV),
    ChatToAnthropic(ChatV),
    ResponsesToAnthropic(ResponsesV),
    AnthropicToChat(ReverseV),
    AnthropicToResponses(ToResponsesV),
    ResponsesToChat(ResponsesV, ReverseV),
    ChatToResponses(ChatV, ToResponsesV),
}

impl View for StreamBridge {
    type V = BridgeV;

    open spec fn view(&self) -> BridgeV {
        match self {
            StreamBridge::Passthrough(a) => BridgeV::Passthrough(a@),
            StreamBridge::ChatToAnthropic(a) => BridgeV::ChatToAnthropic(a@),
            StreamBridge::ResponsesToAnthropic(a) => BridgeV::ResponsesToAnthropic(a@),
            StreamBridge::AnthropicToChat(a) => BridgeV::AnthropicToChat(a@),
            StreamBridge::AnthropicToResponses(a) => BridgeV::AnthropicToResponses(a@),
            StreamBridge::ResponsesToChat(a, b) => BridgeV::ResponsesToChat(a@, b@),
            StreamBridge::ChatToResponses(a, b) => BridgeV::ChatToResponses(a@, b@),
        }
    }
}

impl BridgeV {
    /// The conversion for an entry and an upstream. In a bridge of two stages the
    /// first one writes the log.
    pub open spec fn initial(entry: LocalEntry, upstream: UpstreamType, model: Seq<char>) -> BridgeV {
        if upstream == same_format(entry) {
            BridgeV::Passthrough(PassthroughV::initial(entry_format(entry)))
        } else {
            match (entry, upstream) {
                (LocalEntry::AnthropicMessages, UpstreamType::OaiChat) => BridgeV::ChatToAnthropic(
                    ChatV::initial(model),
                ),
                (LocalEntry::AnthropicMessages, _) => BridgeV::ResponsesToAnthropic(ResponsesV::initial(model)),
                (LocalEntry::OaiChat, UpstreamType::AnthropicMessages) => BridgeV::AnthropicToChat(
                    ReverseV::initial(model, true),
                ),
                (LocalEntry::OaiChat, _) => BridgeV::ResponsesToChat(
                    ResponsesV::initial(model),
                    ReverseV::initial(model, false),
                ),
                (LocalEntry::OaiResponses, UpstreamType::AnthropicMessages) => BridgeV::AnthropicToResponses(
                    ToResponsesV::initial(model, true),
                ),
                (LocalEntry::OaiResponses, _) => BridgeV::ChatToResponses(
                    ChatV::initial(model),
                    ToResponsesV::initial(model, false),
                ),
            }
        }
    }

    /// What bytes of the upstream give out, and the conversion after them.
    pub open spec fn pushed(self, bytes: Seq<u8>) -> (Seq<OutV>, BridgeV) {
        match self {
            BridgeV::Passthrough(a) => {
                let a = a.with_bytes(bytes);
                (a.out, BridgeV::Passthrough(a.drained()))
            },
            BridgeV::ChatToAnthropic(a) => {
                let a = a.with_bytes(bytes);
                (a.out, BridgeV::ChatToAnthropic(a.drained()))
            },
            BridgeV::ResponsesToAnthropic(a) => {
                let a = a.with_bytes(bytes);
                (a.progress.out, BridgeV::ResponsesToAnthropic(a.drained()))
            },
            BridgeV::AnthropicToChat(a) => {
                let a = a.with_bytes(bytes);
                (a.out, BridgeV::AnthropicToChat(a.drained()))
            },
            BridgeV::AnthropicToResponses(a) => {
                let a = a.with_bytes(bytes);
                (a.out, BridgeV::AnthropicToResponses(a.drained()))
            },
            BridgeV::ResponsesToChat(a, b) => {
                let a = a.with_bytes(bytes);
                let b = all_relayed_to_chat(b, a.progress.out);
                (b.out, BridgeV::ResponsesToChat(a.drained(), b.drained()))
            },
            BridgeV::ChatToResponses(a, b) => {
                let a = a.with_bytes(bytes);
                let b = all_relayed_to_responses(b, a.out);
                (b.out, BridgeV::ChatToResponses(a.drained(), b.drained()))
            },
        }
    }

    /// What a failure of the connection to the upstream gives out. To a second
    /// stage it is the end of the first.
    pub open spec fn failed(self, message: Seq<char>) -> Seq<OutV> {
        match self {
            BridgeV::Passthrough(_) => seq![OutV::LogError("Stream error: "@ + message), OutV::LogDone],
            BridgeV::ChatToAnthropic(a) => a.failed(message).out,
            BridgeV::ResponsesToAnthropic(a) => a.broken(message).progress.out,
            BridgeV::AnthropicToChat(a) => a.failed(message).out,
            BridgeV::AnthropicToResponses(a) => a.failed(message).out,
            BridgeV::ResponsesToChat(a, b) => {
                let relayed = all_relayed_to_chat(b, a.broken(message).progress.out);
                relayed.out + relayed.drained().ended().out
            },
            BridgeV::ChatToResponses(a, b) => {
                let relayed = all_relayed_to_responses(b, a.failed(message).out);
                relayed.out + relayed.drained().ended().out
            },
        }
    }

    /// What the end of the upstream gives out.
    pub open spec fn ended(self) -> Seq<OutV> {
        match self {
            BridgeV::Passthrough(_) => seq![OutV::LogDone],
            BridgeV::ChatToAnthropic(a) => a.ended().out,
            BridgeV::ResponsesToAnthropic(a) => a.ended().progress.out,
            BridgeV::AnthropicToChat(a) => a.ended().out,
            BridgeV::AnthropicToResponses(a) => a.ended().out,
            BridgeV::ResponsesToChat(a, b) => {
                let relayed = all_relayed_to_chat(b, a.ended().progress.out);
                relayed.out + relayed.drained().ended().out
            },
            BridgeV::ChatToResponses(a, b) => {
                let relayed = all_relayed_to_responses(b, a.ended().out);
                relayed.out + relayed.drained().ended().out
            },
        }
    }
}

impl StreamBridge {
    /// The conversion for an entry and an upstream. `model` is the model that the
    /// client asked for.
    pub fn new(entry: LocalEntry, upstream: UpstreamType, model: &str) -> (r: StreamBridge)
        ensures
            r@ == BridgeV::initial(entry, upstream, model@),
    {
        if is_passthrough(entry, upstream) {
            return StreamBridge::Passthrough(PassthroughLog::new(StreamFormat::from_local_entry(entry)));
        }
        match entry {
            LocalEntry::AnthropicMessages => if upstream == UpstreamType::OaiChat {
                StreamBridge::ChatToAnthropic(ChatToAnthropic::new(model))
            } else {
                StreamBridge::ResponsesToAnthropic(ResponsesToAnthropic::new(model))
            },
            LocalEntry::OaiChat => if upstream == UpstreamType::AnthropicMessages {
                StreamBridge::AnthropicToChat(AnthropicToChat::new(model, true))
            } else {
                StreamBridge::ResponsesToChat(
                    ResponsesToAnthropic::new(model),
                    AnthropicToChat::new(model, false),
                )
            },
            LocalEntry::OaiResponses => if upstream == UpstreamType::AnthropicMessages {
                StreamBridge::AnthropicToResponses(AnthropicToResponses::new(model, true))
            } else {
                StreamBridge::ChatToResponses(
                    ChatToAnthropic::new(model),
                    AnthropicToResponses::new(model, false),
                )
            },
        }
    }

    /// Whether the client gets the bytes of the upstream as they are.
    pub fn forwards_bytes(&self) -> (r: bool)
        ensures
            r == (self@ is Passthrough),
    {
        match self {
            StreamBridge::Passthrough(_) => true,
            _ => false,
        }
    }

    /// Takes in bytes of the upstream response, and gives out what they come to.
    pub fn push_bytes(&mut self, bytes: &[u8]) -> (r: Vec<StreamOut>)
        ensures
            (outs(r@), final(self)@) == old(self)@.pushed(bytes@),
    {
        match self {
            StreamBridge::Passthrough(a) => a.push_bytes(bytes),
            StreamBridge::ChatToAnthropic(a) => a.push_bytes(bytes),
            StreamBridge::ResponsesToAnthropic(a) => a.push_bytes(bytes),
            StreamBridge::AnthropicToChat(a) => a.push_bytes(bytes),
            StreamBridge::AnthropicToResponses(a) => a.push_bytes(bytes),
            StreamBridge::ResponsesToChat(a, b) => {
                let first = a.push_bytes(bytes);
                b.relay(first)
            },
            StreamBridge::ChatToResponses(a, b) => {
                let first = a.push_bytes(bytes);
                b.relay(first)
            },
        }
    }

    /// Takes note that the connection to the upstream failed.
    pub fn fail(&mut self, message: &str) -> (r: Vec<StreamOut>)
        ensures
            outs(r@) == old(self)@.failed(message@),
    {
        broadcast use group_outs;

        match self {
            StreamBridge::Passthrough(_) => {
                let mut list: Vec<StreamOut> = Vec::new();
                list.push(StreamOut::LogError(cat("Stream error: ", message)));
                list.push(StreamOut::LogDone);
                assert(outs(list@) =~= seq![OutV::LogError("Stream error: "@ + message@), OutV::LogDone]);
                list
            },
            StreamBridge::ChatToAnthropic(a) => a.fail(message),
            StreamBridge::ResponsesToAnthropic(a) => a.fail(message),
            StreamBridge::AnthropicToChat(a) => a.fail(message),
            StreamBridge::AnthropicToResponses(a) => a.fail(message),
            StreamBridge::ResponsesToChat(a, b) => {
                let first = a.fail(message);
                let mut list = b.relay(first);
                add_steps(&mut list, b.finish());
                list
            },
            StreamBridge::ChatToResponses(a, b) => {
                let first = a.fail(message);
                let mut list = b.relay(first);
                add_steps(&mut list, b.finish());
                list
            },
        }
    }

    /// Takes note that the upstream came to its end.
    pub fn finish(&mut self) -> (r: Vec<StreamOut>)
        ensures
            outs(r@) == old(self)@.ended(),
    {
        broadcast use group_outs;

        match self {
            StreamBridge::Passthrough(_) => {
                let mut list: Vec<StreamOut> = Vec::new();
                list.push(StreamOut::LogDone);
                assert(outs(list@) =~= seq![OutV::LogDone]);
                list
            },
            StreamBridge::ChatToAnthropic(a) => a.finish(),
            StreamBridge::ResponsesToAnthropic(a) => a.finish(),
            StreamBridge::AnthropicToChat(a) => a.finish(),
            StreamBridge::AnthropicToResponses(a) => a.finish(),
            StreamBridge::ResponsesToChat(a, b) => {
                let first = a.finish();
                let mut list = b.relay(first);
                add_steps(&mut list, b.finish());
                list
            },
            StreamBridge::ChatToResponses(a, b) => {
                let first = a.finish();
                let mut list = b.relay(first);
                add_steps(&mut list, b.finish());
                list
            },
        }
    }
}

} // verus!
