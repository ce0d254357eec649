//! Provider choice and the events reported to the user interface.
use vstd::prelude::*;

verus! {

broadcast use vstd::string::group_string_axioms;

/// Which cloud speech-to-text backend to use.
#[derive(Debug, Clone, Copy, PartialEq, Eq, Structural)]
pub enum CloudSttProvider {
    /// Streaming recognition over a WebSocket, with interim results.
    Claude,
    /// Batch transcription of a whole recording over HTTP.
    Codex,
}

impl Default for CloudSttProvider {
    fn default() -> (p: Self)
        ensures
            p == CloudSttProvider::Claude,
    {
        CloudSttProvider::Claude
    }
}

/// A piece of recognised text; final pieces are part of the transcript.
#[derive(Debug)]
pub struct CloudTranscriptEvent {
    pub text: String,
    pub is_final: bool,
}

/// A change of connection status, with an optional explanation.
#[derive(Debug)]
pub struct CloudSttStatusEvent {
    pub status: String,
    pub message: Option<String>,
}

/// The characters of an optional string.
pub open spec fn opt_chars(o: Option<String>) -> Option<Seq<char>> {
    match o {
        Some(s) => Some(s@),
        None => None,
    }
}

/// An event as the contracts see it.
pub enum EventModel {
    Transcript { text: Seq<char>, is_final: bool },
    Status { status: Seq<char>, message: Option<Seq<char>> },
}

/// An event for the user interface: a transcript piece or a status change.
#[derive(Debug)]
pub enum SttEvent {
    Transcript(CloudTranscriptEvent),
    Status(CloudSttStatusEvent),
}

impl View for SttEvent {
    type V = EventModel;

    open spec fn view(&self) -> EventModel {
        match self {
            SttEvent::Transcript(e) => EventModel::Transcript { text: e.text@, is_final: e.is_final },
            SttEvent::Status(e) => EventModel::Status {
                status: e.status@,
                message: opt_chars(e.message),
            },
        }
    }
}

/// The views of a list of events.
pub open spec fn events_view(v: Seq<SttEvent>) -> Seq<EventModel> {
    v.map_values(|e: SttEvent| e@)
}

/// A status event.
pub fn status_event(status: &str, message: Option<String>) -> (e: SttEvent)
    ensures
        e@ == (EventModel::Status { status: status@, message: opt_chars(message) }),
{
    SttEvent::Status(CloudSttStatusEvent { status: status.to_string(), message })
}

/// A transcript event.
pub fn transcript_event(text: String, is_final: bool) -> (e: SttEvent)
    ensures
        e@ == (EventModel::Transcript { text: text@, is_final }),
{
    SttEvent::Transcript(CloudTranscriptEvent { text, is_final })
}

} // verus!
