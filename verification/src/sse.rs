//! Frames of a stream of server-sent events.
//!
//! A frame is a few lines of text that end with an empty line. Nothing in a
//! frame is escaped: a text that holds a line break itself breaks the frame.

use crate::response::LocalResponse;
use crate::text::{decimal, decimal_string};
use vstd::prelude::*;

verus! {

/// The frame of a message: a line that names the event, unless the name is
/// empty, and a line that holds the data.
pub open spec fn message_frame(event: Seq<char>, data: Seq<char>) -> Seq<char> {
    if event.len() == 0 {
        "data: "@ + data + "\n\n"@
    } else {
        "event: "@ + event + "\n"@ + "data: "@ + data + "\n\n"@
    }
}

/// The frame of a comment, which a reader of the stream passes over.
pub open spec fn comment_frame(comment: Seq<char>) -> Seq<char> {
    ": "@ + comment + "\n\n"@
}

/// The frame that tells the reader after how many milliseconds to connect
/// again.
pub open spec fn retry_frame(retry_ms: nat) -> Seq<char> {
    "retry: "@ + decimal(retry_ms) + "\n\n"@
}

/// The frame that sets the identifier of the last event.
pub open spec fn event_id_frame(id: Seq<char>) -> Seq<char> {
    "id: "@ + id + "\n\n"@
}

/// The text ends with an empty line.
pub open spec fn ends_frame(text: Seq<char>) -> bool {
    &&& text.len() >= 2
    &&& text[text.len() - 2] == '\n'
    &&& text[text.len() - 1] == '\n'
}

/// Every frame ends with an empty line.
pub proof fn lemma_frames_end(event: Seq<char>, data: Seq<char>, retry_ms: nat)
    ensures
        ends_frame(message_frame(event, data)),
        ends_frame(comment_frame(data)),
        ends_frame(retry_frame(retry_ms)),
        ends_frame(event_id_frame(data)),
{
    reveal_strlit("\n\n");
    let end = "\n\n"@;
    assert(end.len() == 2 && end[0] == '\n' && end[1] == '\n');
    assert forall|front: Seq<char>| ends_frame(#[trigger] (front + end)) by {
        let text = front + end;
        assert(text[text.len() - 2] == end[0]);
        assert(text[text.len() - 1] == end[1]);
    }
}

impl LocalResponse {
    /// The frame of a message with the data `data`, and with the event name
    /// `event` unless that is empty.
    pub fn sse_message(event: &str, data: &str) -> (frame: String)
        ensures
            frame@ == message_frame(event@, data@),
    {
        let mut message = String::new();
        if !event.is_empty() {
            message.append("event: ");
            message.append(event);
            message.append("\n");
        }
        message.append("data: ");
        message.append(data);
        message.append("\n\n");
        assert(message@ =~= message_frame(event@, data@));
        message
    }

    /// The frame of the comment `comment`.
    pub fn sse_comment(comment: &str) -> (frame: String)
        ensures
            frame@ == comment_frame(comment@),
    {
        let mut frame = String::from_str(": ");
        frame.append(comment);
        frame.append("\n\n");
        frame
    }

    /// The frame that sets the time to connect again to `retry_ms`
    /// milliseconds, written in decimal.
    pub fn sse_retry(retry_ms: u64) -> (frame: String)
        ensures
            frame@ == retry_frame(retry_ms as nat),
    {
        let number = decimal_string(retry_ms);
        let mut frame = String::from_str("retry: ");
        frame.append(number.as_str());
        frame.append("\n\n");
        frame
    }

    /// The frame that sets the identifier of the last event to `id`.
    pub fn sse_event_id(id: &str) -> (frame: String)
        ensures
            frame@ == event_id_frame(id@),
    {
        let mut frame = String::from_str("id: ");
        frame.append(id);
        frame.append("\n\n");
        frame
    }
}

} // verus!
