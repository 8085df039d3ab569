//! The compact log of requests and responses.
//!
//! ```text
//! [REQ #0001]: sonnet-5 hello, please do something ...
//! [RESP #0001]: Hello! This is the response text, streamed live onto one line...
//! ```
//!
//! Streamed text is added to the open `[RESP #id]: ` line, which ends with the
//! response. Errors go to a tagged line of their own. Each method gives the text
//! that is to be written.

use vstd::prelude::*;
use vstd::string::*;
use crate::json::{opt_string, opt_text};
use crate::text::{cat, cat3, hex, hex_text, trim, trimmed};

verus! {

/// The log of one request and its response.
pub struct ReqLog {
    pub id: String,
    pub header_printed: bool,
    pub done: bool,
}

/// The model of a log.
pub struct ReqLogV {
    pub id: Seq<char>,
    pub header_printed: bool,
    pub done: bool,
}

impl View for ReqLog {
    type V = ReqLogV;

    open spec fn view(&self) -> ReqLogV {
        ReqLogV { id: self.id@, header_printed: self.header_printed, done: self.done }
    }
}

impl ReqLogV {
    /// A line of its own, after two blank lines.
    pub open spec fn line(self, tag: Seq<char>, text: Seq<char>) -> Seq<char> {
        "\n\n["@ + tag + " #"@ + self.id + "]: "@ + text
    }

    /// What the start of the response line adds.
    pub open spec fn header_text(self, prefix: Seq<char>) -> Seq<char> {
        if self.header_printed {
            Seq::empty()
        } else {
            self.line("RESP"@, prefix)
        }
    }

    /// What the end of the response adds.
    pub open spec fn done_text(self) -> Seq<char> {
        if self.done {
            Seq::empty()
        } else {
            "\n"@
        }
    }

    /// Whether the response line is open.
    pub open spec fn is_open(self) -> bool {
        self.header_printed && !self.done
    }
}

/// Whether a system prompt is to be printed: it is not blank, and it is not the
/// one that was printed last.
pub open spec fn is_new_prompt(last: Option<Seq<char>>, system: Option<Seq<char>>) -> bool {
    match system {
        Some(s) => trim(s).len() > 0 && last != Some(trim(s)),
        None => false,
    }
}

/// The line for a system prompt, where it differs from the one printed last.
/// `last` is kept up to date.
pub fn report_system_prompt(last: &mut Option<String>, system: Option<&str>) -> (r: Option<String>)
    ensures
        match r {
            Some(line) => is_new_prompt(opt_string(*old(last)), opt_text(system)) && line@ == "[REQ SYSTEM]: "@
                + trim(system->0@) + "\n"@ && opt_string(*final(last)) == Some(trim(system->0@)),
            None => !is_new_prompt(opt_string(*old(last)), opt_text(system)) && *final(last) == *old(last),
        },
{
    let text = match system {
        Some(s) => trimmed(s),
        None => {
            return None;
        },
    };
    if text.is_empty() {
        return None;
    }
    if let Some(l) = last {
        if l.as_str().eq(text) {
            return None;
        }
    }
    *last = Some(text.to_owned());
    Some(cat3("[REQ SYSTEM]: ", text, "\n"))
}

impl ReqLog {
    /// The log of the request with number `n`, named by its last four
    /// hexadecimal digits.
    pub fn new(n: u64) -> (r: ReqLog)
        ensures
            r@ == (ReqLogV { id: hex((n % 0x1_0000) as nat, 4), header_printed: false, done: false }),
    {
        ReqLog { id: hex_text(n % 0x1_0000, 4), header_printed: false, done: false }
    }

    fn line(&self, tag: &str, text: &str) -> (r: String)
        ensures
            r@ == self@.line(tag@, text@),
    {
        let mut s = cat3("\n\n[", tag, " #");
        s.append(self.id.as_str());
        s.append("]: ");
        s.append(text);
        s
    }

    /// Request summary line, after two blank lines so each pair is visually
    /// separated in the terminal.
    pub fn req(&self, summary: &str) -> (r: String)
        ensures
            r@ == self@.line("REQ"@, summary@) + "\n"@,
    {
        cat(self.line("REQ", summary).as_str(), "\n")
    }

    /// A note after the request line.
    pub fn append_media_note(&self, note: &str) -> (r: String)
        ensures
            r@ == note@,
    {
        note.to_owned()
    }

    /// The start of the response line, which is printed once.
    pub fn resp_header(&mut self, prefix: &str) -> (r: String)
        ensures
            r@ == old(self)@.header_text(prefix@),
            final(self)@ == (ReqLogV { header_printed: true, ..old(self)@ }),
    {
        if self.header_printed {
            return String::new();
        }
        self.header_printed = true;
        self.line("RESP", prefix)
    }

    /// Text on the open response line; nothing where the line is not open.
    pub fn append(&self, text: &str) -> (r: String)
        ensures
            r@ == if self@.is_open() {
                text@
            } else {
                Seq::empty()
            },
    {
        if self.header_printed && !self.done {
            text.to_owned()
        } else {
            String::new()
        }
    }

    /// The whole response line for a response that was not streamed.
    pub fn resp(&mut self, summary: &str) -> (r: String)
        ensures
            r@ == old(self)@.header_text(Seq::empty()) + summary@ + old(self)@.done_text(),
            final(self)@ == (ReqLogV { header_printed: true, done: true, ..old(self)@ }),
    {
        let empty = String::new();
        let mut s = self.resp_header(empty.as_str());
        s.append(summary);
        s.append(self.done().as_str());
        s
    }

    /// The end of the response line, which is printed once.
    pub fn done(&mut self) -> (r: String)
        ensures
            r@ == old(self)@.done_text(),
            final(self)@ == (ReqLogV { done: true, ..old(self)@ }),
    {
        if self.done {
            return String::new();
        }
        self.done = true;
        "\n".to_owned()
    }

    /// A failure before any response.
    pub fn err_req(&self, msg: &str) -> (r: String)
        ensures
            r@ == self@.line("ERR-REQ"@, msg@) + "\n"@,
    {
        cat(self.line("ERR-REQ", msg).as_str(), "\n")
    }

    /// A failure during the response, which ends it.
    pub fn err_resp(&mut self, msg: &str) -> (r: String)
        ensures
            r@ == old(self)@.line("ERR-RESP"@, msg@) + "\n"@ + old(self)@.done_text(),
            final(self)@ == (ReqLogV { done: true, ..old(self)@ }),
    {
        let mut s = cat(self.line("ERR-RESP", msg).as_str(), "\n");
        s.append(self.done().as_str());
        s
    }
}

/// The start of the response line is printed once, however often it is asked for.
pub proof fn law_header_is_printed_once(s: ReqLogV, prefix: Seq<char>)
    ensures
        (ReqLogV { header_printed: true, ..s }).header_text(prefix) == Seq::<char>::empty(),
{
}

/// The end of the response line is printed once.
pub proof fn law_end_is_printed_once(s: ReqLogV)
    ensures
        (ReqLogV { done: true, ..s }).done_text() == Seq::<char>::empty(),
{
}

/// Text is added to the response line only between its start and its end.
pub proof fn law_line_is_open_between_start_and_end(s: ReqLogV)
    ensures
        !s.header_printed ==> !s.is_open(),
        (ReqLogV { header_printed: true, done: false, ..s }).is_open(),
        !(ReqLogV { done: true, ..s }).is_open(),
{
}

} // verus!
