//! The streaming recognition session: what each server frame does to the
//! transcript, and which events it raises.
use vstd::prelude::*;
use crate::cloud_stt::{
    events_view, opt_chars, status_event, transcript_event, EventModel, SttEvent,
};
use crate::text::{
    contains_seq, contains_str, law_trim_idempotent, occurs_at, replace_all, replace_all_str,
    str_eq, trim_str, trim_ws,
};

verus! {

broadcast use vstd::string::group_string_axioms;

/// A JSON text frame from the recognition server.
#[derive(Debug)]
pub struct WsMessage {
    pub msg_type: String,
    pub data: Option<String>,
    pub description: Option<String>,
    pub error_code: Option<String>,
    pub message: Option<String>,
}

/// A server message as the contracts see it.
pub struct MessageModel {
    pub msg_type: Seq<char>,
    pub data: Option<Seq<char>>,
    pub description: Option<Seq<char>>,
    pub error_code: Option<Seq<char>>,
    pub message: Option<Seq<char>>,
}

impl View for WsMessage {
    type V = MessageModel;

    open spec fn view(&self) -> MessageModel {
        MessageModel {
            msg_type: self.msg_type@,
            data: opt_chars(self.data),
            description: opt_chars(self.description),
            error_code: opt_chars(self.error_code),
            message: opt_chars(self.message),
        }
    }
}

/// What the read side of the socket delivered.
#[derive(Debug)]
pub enum WsFrame {
    /// A text frame that parsed as a server message.
    Message(WsMessage),
    /// A text frame that did not parse as a server message.
    Unreadable,
    /// The server closed the connection.
    Closed,
    /// Reading failed.
    Failed,
    /// Any other frame (binary, ping, pong).
    Other,
}

/// The state of a stream as the contracts see it.
pub struct StreamModel {
    /// The latest interim text not yet made final.
    pub interim: Seq<char>,
    /// The final texts so far, separated by single spaces.
    pub transcript: Seq<char>,
}

/// `acc` with the final text `seg` appended, a space between them when `acc` is not empty.
pub open spec fn append_segment(acc: Seq<char>, seg: Seq<char>) -> Seq<char> {
    if acc.len() == 0 {
        seg
    } else {
        acc + seq![' '] + seg
    }
}

/// The first of two optional texts that is present, else `fallback`.
pub open spec fn first_present(a: Option<Seq<char>>, b: Option<Seq<char>>, fallback: Seq<char>) -> Seq<char> {
    match a {
        Some(x) => x,
        None => match b {
            Some(y) => y,
            None => fallback,
        },
    }
}

/// The effect of one server message: the new state and the events raised.
pub open spec fn message_step(m: StreamModel, msg: MessageModel) -> (StreamModel, Seq<EventModel>) {
    if msg.msg_type == "TranscriptText"@ {
        match msg.data {
            Some(d) => {
                let t = trim_ws(d);
                if t.len() > 0 {
                    (
                        StreamModel { interim: t, transcript: m.transcript },
                        seq![EventModel::Transcript { text: t, is_final: false }],
                    )
                } else {
                    (m, seq![])
                }
            },
            None => (m, seq![]),
        }
    } else if msg.msg_type == "TranscriptEndpoint"@ {
        if m.interim.len() > 0 {
            (
                StreamModel {
                    interim: seq![],
                    transcript: append_segment(m.transcript, m.interim),
                },
                seq![EventModel::Transcript { text: m.interim, is_final: true }],
            )
        } else {
            (m, seq![])
        }
    } else if msg.msg_type == "TranscriptError"@ {
        (
            m,
            seq![
                EventModel::Status {
                    status: "error"@,
                    message: Some(first_present(msg.description, msg.error_code, "unknown error"@)),
                },
            ],
        )
    } else if msg.msg_type == "error"@ {
        (
            m,
            seq![
                EventModel::Status {
                    status: "error"@,
                    message: Some(first_present(msg.message, None, "server error"@)),
                },
            ],
        )
    } else {
        (m, seq![])
    }
}

/// Whether reading goes on after a frame: it stops when the server closes or a read fails.
pub open spec fn keeps_reading(f: WsFrame) -> bool {
    !(f is Closed || f is Failed)
}

/// The effect of the end of the stream: a pending interim text becomes final,
/// then the stream reports that it is disconnected.
pub open spec fn finish_step(m: StreamModel) -> (StreamModel, Seq<EventModel>) {
    let disconnected = EventModel::Status { status: "disconnected"@, message: None };
    if m.interim.len() > 0 {
        (
            StreamModel { interim: seq![], transcript: append_segment(m.transcript, m.interim) },
            seq![EventModel::Transcript { text: m.interim, is_final: true }, disconnected],
        )
    } else {
        (m, seq![disconnected])
    }
}

/// The state and events after applying `msgs` in order.
pub open spec fn run_messages(m: StreamModel, msgs: Seq<MessageModel>) -> (StreamModel, Seq<EventModel>)
    decreases msgs.len(),
{
    if msgs.len() == 0 {
        (m, seq![])
    } else {
        let (m1, e1) = message_step(m, msgs[0]);
        let (m2, e2) = run_messages(m1, msgs.drop_first());
        (m2, e1 + e2)
    }
}

/// `acc` with the texts of the final transcript events among `events` appended in order.
pub open spec fn apply_finals(acc: Seq<char>, events: Seq<EventModel>) -> Seq<char>
    decreases events.len(),
{
    if events.len() == 0 {
        acc
    } else {
        let next = match events[0] {
            EventModel::Transcript { text, is_final } => if is_final {
                append_segment(acc, text)
            } else {
                acc
            },
            _ => acc,
        };
        apply_finals(next, events.drop_first())
    }
}

proof fn lemma_apply_finals_concat(acc: Seq<char>, e1: Seq<EventModel>, e2: Seq<EventModel>)
    ensures
        apply_finals(acc, e1 + e2) == apply_finals(apply_finals(acc, e1), e2),
    decreases e1.len(),
{
    if e1.len() > 0 {
        assert((e1 + e2).drop_first() =~= e1.drop_first() + e2);
        assert((e1 + e2)[0] == e1[0]);
        let next = match e1[0] {
            EventModel::Transcript { text, is_final } => if is_final {
                append_segment(acc, text)
            } else {
                acc
            },
            _ => acc,
        };
        lemma_apply_finals_concat(next, e1.drop_first(), e2);
    } else {
        assert(e1 + e2 =~= e2);
    }
}

proof fn lemma_step_finals(m: StreamModel, msg: MessageModel)
    ensures
        message_step(m, msg).0.transcript == apply_finals(m.transcript, message_step(m, msg).1),
{
    reveal_with_fuel(apply_finals, 2);
    let e = message_step(m, msg).1;
    if e.len() > 0 {
        assert(e.drop_first() =~= seq![]);
    }
}

proof fn lemma_finish_finals(m: StreamModel)
    ensures
        finish_step(m).0.transcript == apply_finals(m.transcript, finish_step(m).1),
{
    reveal_with_fuel(apply_finals, 3);
    let e = finish_step(m).1;
    if e.len() == 2 {
        assert(e.drop_first().drop_first() =~= seq![]);
    } else {
        assert(e.drop_first() =~= seq![]);
    }
}

/// The transcript is exactly the final texts reported, in order, each
/// separated from the one before by a space: after any sequence of server
/// messages and the end of the stream, the transcript equals the starting
/// transcript with the final texts of all events raised appended.
pub proof fn law_transcript_is_reported_finals(m: StreamModel, msgs: Seq<MessageModel>)
    ensures
        ({
            let (m1, e1) = run_messages(m, msgs);
            let (m2, e2) = finish_step(m1);
            &&& m1.transcript == apply_finals(m.transcript, e1)
            &&& m2.transcript == apply_finals(m.transcript, e1 + e2)
        }),
    decreases msgs.len(),
{
    if msgs.len() > 0 {
        let (m1, e1) = message_step(m, msgs[0]);
        lemma_step_finals(m, msgs[0]);
        law_transcript_is_reported_finals(m1, msgs.drop_first());
        let (mr, er) = run_messages(m1, msgs.drop_first());
        lemma_apply_finals_concat(m.transcript, e1, er);
    }
    let (m1, e1) = run_messages(m, msgs);
    let (m2, e2) = finish_step(m1);
    lemma_apply_finals_concat(m.transcript, e1, e2);
    lemma_finish_finals(m1);
}

/// The transcript only grows: whatever it held before a sequence of server
/// messages and the end of the stream is a prefix of what it holds after.
pub proof fn law_transcript_only_grows(m: StreamModel, msgs: Seq<MessageModel>)
    ensures
        m.transcript.is_prefix_of(run_messages(m, msgs).0.transcript),
        m.transcript.is_prefix_of(finish_step(run_messages(m, msgs).0).0.transcript),
    decreases msgs.len(),
{
    if msgs.len() > 0 {
        let (m1, e1) = message_step(m, msgs[0]);
        law_transcript_only_grows(m1, msgs.drop_first());
        assert(m.transcript.is_prefix_of(m1.transcript));
    }
    let r = run_messages(m, msgs).0;
    assert(r.transcript.is_prefix_of(finish_step(r).0.transcript));
}

/// No transcript event, interim or final, carries empty text.
pub proof fn law_transcript_events_not_empty(m: StreamModel, msgs: Seq<MessageModel>)
    ensures
        forall|i: int|
            0 <= i < run_messages(m, msgs).1.len() ==> (#[trigger] run_messages(m, msgs).1[i] matches EventModel::Transcript { text, .. } ==> text.len() > 0),
        forall|i: int|
            0 <= i < finish_step(m).1.len() ==> (#[trigger] finish_step(m).1[i] matches EventModel::Transcript { text, .. } ==> text.len() > 0),
    decreases msgs.len(),
{
    if msgs.len() > 0 {
        let (m1, e1) = message_step(m, msgs[0]);
        law_transcript_events_not_empty(m1, msgs.drop_first());
        let er = run_messages(m1, msgs.drop_first()).1;
        assert forall|i: int| 0 <= i < (e1 + er).len() implies (#[trigger] (e1 + er)[i] matches EventModel::Transcript { text, .. } ==> text.len() > 0) by {
            if i >= e1.len() {
                assert((e1 + er)[i] == er[i - e1.len()]);
            }
        }
    }
}

/// An interim text is reported exactly as it will later become final:
/// already trimmed of surrounding white space, and not empty.
pub proof fn law_interim_text_is_trimmed(m: StreamModel, msg: MessageModel)
    ensures
        message_step(m, msg).1.len() > 0 ==> match message_step(m, msg).1[0] {
            EventModel::Transcript { text, is_final } => !is_final ==> trim_ws(text) == text
                && text.len() > 0 && message_step(m, msg).0.interim == text,
            _ => true,
        },
{
    if let Some(d) = msg.data {
        law_trim_idempotent(d);
    }
}

/// An interim result never reaches the transcript: a `TranscriptText`
/// message leaves the transcript as it was; when its data is not blank, its
/// trimmed data replaces the pending interim text (whatever that was) and is
/// the one event raised, not final; otherwise nothing changes.
pub proof fn law_interim_replaces_pending(m: StreamModel, msg: MessageModel)
    requires
        msg.msg_type == "TranscriptText"@,
    ensures
        message_step(m, msg).0.transcript == m.transcript,
        match msg.data {
            Some(d) => if trim_ws(d).len() > 0 {
                &&& message_step(m, msg).0.interim == trim_ws(d)
                &&& message_step(m, msg).1 == seq![EventModel::Transcript { text: trim_ws(d), is_final: false }]
            } else {
                message_step(m, msg) == (m, Seq::<EventModel>::empty())
            },
            None => message_step(m, msg) == (m, Seq::<EventModel>::empty()),
        },
{
}

/// Only an endpoint makes text final: a message of any other type leaves the
/// transcript as it was and raises no final transcript event.
pub proof fn law_only_endpoint_commits(m: StreamModel, msg: MessageModel)
    requires
        msg.msg_type != "TranscriptEndpoint"@,
    ensures
        message_step(m, msg).0.transcript == m.transcript,
        forall|i: int|
            0 <= i < message_step(m, msg).1.len() ==> !(#[trigger] message_step(m, msg).1[i] matches EventModel::Transcript { is_final: true, .. }),
{
}

/// An endpoint commits the pending interim text, if any: it is appended to
/// the transcript (after a space unless the transcript is empty), reported
/// as the one final event, and no interim text is pending afterwards.
pub proof fn law_endpoint_commits_pending(m: StreamModel, msg: MessageModel)
    requires
        msg.msg_type == "TranscriptEndpoint"@,
    ensures
        m.interim.len() > 0 ==> {
            &&& message_step(m, msg).0.transcript == (if m.transcript.len() == 0 {
                m.interim
            } else {
                m.transcript + seq![' '] + m.interim
            })
            &&& message_step(m, msg).0.interim.len() == 0
            &&& message_step(m, msg).1 == seq![EventModel::Transcript { text: m.interim, is_final: true }]
        },
        m.interim.len() == 0 ==> message_step(m, msg) == (m, Seq::<EventModel>::empty()),
{
    reveal_strlit("TranscriptText");
    reveal_strlit("TranscriptEndpoint");
    assert("TranscriptEndpoint"@.len() != "TranscriptText"@.len());
}

/// Error frames leave the text alone and raise one `error` status: a
/// `TranscriptError` carries its description, else its error code, else
/// "unknown error"; an `error` frame carries its message, else "server
/// error". A message of any other type changes nothing and raises nothing.
pub proof fn law_error_frames_report_error(m: StreamModel, msg: MessageModel)
    ensures
        msg.msg_type == "TranscriptError"@ ==> message_step(m, msg) == (m, seq![
            EventModel::Status {
                status: "error"@,
                message: Some(
                    if msg.description is Some {
                        msg.description->0
                    } else if msg.error_code is Some {
                        msg.error_code->0
                    } else {
                        "unknown error"@
                    },
                ),
            },
        ]),
        msg.msg_type == "error"@ ==> message_step(m, msg) == (m, seq![
            EventModel::Status {
                status: "error"@,
                message: Some(if msg.message is Some { msg.message->0 } else { "server error"@ }),
            },
        ]),
        msg.msg_type != "TranscriptText"@ && msg.msg_type != "TranscriptEndpoint"@ && msg.msg_type
            != "TranscriptError"@ && msg.msg_type != "error"@ ==> message_step(m, msg) == (
            m,
            Seq::<EventModel>::empty(),
        ),
{
    reveal_strlit("TranscriptText");
    reveal_strlit("TranscriptEndpoint");
    reveal_strlit("TranscriptError");
    reveal_strlit("error");
    assert("TranscriptError"@.len() != "TranscriptText"@.len());
    assert("TranscriptError"@.len() != "TranscriptEndpoint"@.len());
    assert("error"@.len() != "TranscriptText"@.len());
    assert("error"@.len() != "TranscriptEndpoint"@.len());
    assert("error"@.len() != "TranscriptError"@.len());
}

/// The end of the stream commits a pending interim text exactly as an
/// endpoint would, and the last event is always the `disconnected` status.
pub proof fn law_finish_commits_pending(m: StreamModel)
    ensures
        finish_step(m).0.interim.len() == 0,
        finish_step(m).0.transcript == (if m.interim.len() == 0 {
            m.transcript
        } else if m.transcript.len() == 0 {
            m.interim
        } else {
            m.transcript + seq![' '] + m.interim
        }),
        finish_step(m).1.len() == (if m.interim.len() > 0 { 2int } else { 1int }),
        finish_step(m).1.last() == (EventModel::Status { status: "disconnected"@, message: None }),
        m.interim.len() > 0 ==> finish_step(m).1[0] == (EventModel::Transcript { text: m.interim, is_final: true }),
{
}

/// A revised interim result replaces the earlier one: after two interim
/// results and an endpoint, only the second is committed. The events are the
/// two interim texts, then the second as final, and the transcript gains the
/// second text alone.
pub proof fn law_revised_interim_commits_last(
    m: StreamModel,
    first: MessageModel,
    second: MessageModel,
    endpoint: MessageModel,
    a: Seq<char>,
    b: Seq<char>,
)
    requires
        first.msg_type == "TranscriptText"@,
        second.msg_type == "TranscriptText"@,
        endpoint.msg_type == "TranscriptEndpoint"@,
        first.data == Some(a),
        second.data == Some(b),
        trim_ws(a).len() > 0,
        trim_ws(b).len() > 0,
    ensures
        run_messages(m, seq![first, second, endpoint]).1 == seq![
            EventModel::Transcript { text: trim_ws(a), is_final: false },
            EventModel::Transcript { text: trim_ws(b), is_final: false },
            EventModel::Transcript { text: trim_ws(b), is_final: true },
        ],
        run_messages(m, seq![first, second, endpoint]).0.transcript == (if m.transcript.len() == 0 {
            trim_ws(b)
        } else {
            m.transcript + seq![' '] + trim_ws(b)
        }),
        run_messages(m, seq![first, second, endpoint]).0.interim.len() == 0,
{
    reveal_strlit("TranscriptText");
    reveal_strlit("TranscriptEndpoint");
    assert("TranscriptEndpoint"@.len() != "TranscriptText"@.len());
    let msgs = seq![first, second, endpoint];
    let (m1, e1) = message_step(m, first);
    let (m2, e2) = message_step(m1, second);
    let (m3, e3) = message_step(m2, endpoint);
    assert(msgs.drop_first() =~= seq![second, endpoint]);
    assert(msgs.drop_first().drop_first() =~= seq![endpoint]);
    assert(msgs.drop_first().drop_first().drop_first() =~= Seq::<MessageModel>::empty());
    assert(seq![endpoint].drop_first() =~= Seq::<MessageModel>::empty());
    assert(run_messages(m3, Seq::<MessageModel>::empty()) == (m3, Seq::<EventModel>::empty()));
    assert(seq![endpoint][0] == endpoint);
    assert(run_messages(m2, seq![endpoint]) == (m3, e3 + Seq::<EventModel>::empty()));
    assert(run_messages(m1, seq![second, endpoint]) == (m3, e2 + (e3 + Seq::<EventModel>::empty())));
    assert(run_messages(m, msgs) == (m3, e1 + (e2 + (e3 + Seq::<EventModel>::empty()))));
    assert(e1 + (e2 + (e3 + Seq::<EventModel>::empty())) =~= seq![
        EventModel::Transcript { text: trim_ws(a), is_final: false },
        EventModel::Transcript { text: trim_ws(b), is_final: false },
        EventModel::Transcript { text: trim_ws(b), is_final: true },
    ]);
}

/// The recognition state of one streaming session.
pub struct SttStream {
    last_interim: String,
    transcript: String,
}

impl View for SttStream {
    type V = StreamModel;

    closed spec fn view(&self) -> StreamModel {
        StreamModel { interim: self.last_interim@, transcript: self.transcript@ }
    }
}

impl SttStream {
    /// A stream with no text yet.
    pub fn new() -> (s: Self)
        ensures
            s@.interim.len() == 0,
            s@.transcript.len() == 0,
    {
        SttStream { last_interim: String::new(), transcript: String::new() }
    }

    /// The final texts so far, separated by single spaces.
    pub fn transcript(&self) -> (t: String)
        ensures
            t@ == self@.transcript,
    {
        self.transcript.clone()
    }

    fn push_final(&mut self, seg: &str)
        ensures
            final(self)@.transcript == append_segment(old(self)@.transcript, seg@),
            final(self)@.interim == old(self)@.interim,
    {
        if !self.transcript.as_str().is_empty() {
            self.transcript.append(" ");
        }
        self.transcript.append(seg);
        proof {
            reveal_strlit(" ");
        }
    }

    /// Applies one server message; returns the events it raises.
    pub fn handle_message(&mut self, msg: &WsMessage) -> (events: Vec<SttEvent>)
        ensures
            (final(self)@, events_view(events@)) == message_step(old(self)@, msg@),
            msg@.msg_type != "TranscriptEndpoint"@ ==> final(self)@.transcript == old(self)@.transcript,
            msg@.msg_type == "TranscriptText"@ ==> events@.len() <= 1,
    {
        let mut events: Vec<SttEvent> = Vec::new();
        let ty = msg.msg_type.as_str();
        if str_eq(ty, "TranscriptText") {
            if let Some(data) = &msg.data {
                let trimmed = trim_str(data.as_str());
                if !trimmed.as_str().is_empty() {
                    self.last_interim = trimmed.clone();
                    events.push(transcript_event(trimmed, false));
                }
            }
        } else if str_eq(ty, "TranscriptEndpoint") {
            if !self.last_interim.as_str().is_empty() {
                let final_text = self.last_interim.clone();
                self.push_final(final_text.as_str());
                events.push(transcript_event(final_text, true));
                self.last_interim = String::new();
            }
        } else if str_eq(ty, "TranscriptError") {
            let desc = match &msg.description {
                Some(d) => d.clone(),
                None => match &msg.error_code {
                    Some(c) => c.clone(),
                    None => "unknown error".to_string(),
                },
            };
            events.push(status_event("error", Some(desc)));
        } else if str_eq(ty, "error") {
            let text = match &msg.message {
                Some(t) => t.clone(),
                None => "server error".to_string(),
            };
            events.push(status_event("error", Some(text)));
        }
        assert(events_view(events@) =~= message_step(old(self)@, msg@).1);
        events
    }

    /// Applies one frame; returns the events it raises and whether reading goes on.
    pub fn handle_frame(&mut self, frame: &WsFrame) -> (out: (Vec<SttEvent>, bool))
        ensures
            out.1 == keeps_reading(*frame),
            match frame {
                WsFrame::Message(msg) => (final(self)@, events_view(out.0@)) == message_step(
                    old(self)@,
                    msg@,
                ),
                _ => final(self)@ == old(self)@ && out.0@.len() == 0,
            },
    {
        match frame {
            WsFrame::Message(msg) => (self.handle_message(msg), true),
            WsFrame::Closed => (Vec::new(), false),
            WsFrame::Failed => (Vec::new(), false),
            _ => (Vec::new(), true),
        }
    }

    /// Ends the stream: a pending interim text becomes final, then the
    /// disconnected status is reported.
    pub fn finish(&mut self) -> (events: Vec<SttEvent>)
        ensures
            (final(self)@, events_view(events@)) == finish_step(old(self)@),
    {
        let mut events: Vec<SttEvent> = Vec::new();
        if !self.last_interim.as_str().is_empty() {
            let final_text = self.last_interim.clone();
            self.push_final(final_text.as_str());
            events.push(transcript_event(final_text, true));
            self.last_interim = String::new();
        }
        events.push(status_event("disconnected", None));
        assert(events_view(events@) =~= finish_step(old(self)@).1);
        events
    }
}


/// The path and fixed query of the voice stream endpoint; the language code follows it.
pub open spec fn voice_stream_path() -> Seq<char> {
    "/api/ws/speech_to_text/voice_stream?encoding=linear16&sample_rate=16000&channels=1&endpointing_ms=300&utterance_end_ms=1000&language="@
}

/// The WebSocket URL for an origin: `https://` becomes `wss://`, then
/// `http://` becomes `ws://`, and the voice stream path and language follow.
pub open spec fn ws_url(origin: Seq<char>, language: Seq<char>) -> Seq<char> {
    replace_all(replace_all(origin, "https://"@, "wss://"@), "http://"@, "ws://"@) + voice_stream_path()
        + language
}

/// The WebSocket URL of the voice stream for `origin` and `language`.
pub fn build_ws_url(origin: &str, language: &str) -> (url: String)
    ensures
        url@ == ws_url(origin@, language@),
{
    let secure = replace_all_str(origin, "https://", "wss://");
    let mut url = replace_all_str(secure.as_str(), "http://", "ws://");
    url.append(
        "/api/ws/speech_to_text/voice_stream?encoding=linear16&sample_rate=16000&channels=1&endpointing_ms=300&utterance_end_ms=1000&language=",
    );
    url.append(language);
    url
}

proof fn lemma_replace_absent(s: Seq<char>, p: Seq<char>, r: Seq<char>)
    requires
        p.len() > 0,
        !contains_seq(s, p),
    ensures
        replace_all(s, p, r) == s,
    decreases s.len(),
{
    if s.len() > 0 {
        assert(!occurs_at(s, p, 0));
        assert forall|i: int| !occurs_at(s.drop_first(), p, i) by {
            if occurs_at(s.drop_first(), p, i) {
                assert(s.subrange(i + 1, i + 1 + p.len()) =~= s.drop_first().subrange(i, i + p.len()));
                assert(occurs_at(s, p, i + 1));
            }
        }
        lemma_replace_absent(s.drop_first(), p, r);
        assert(seq![s[0]] + s.drop_first() =~= s);
    }
}

proof fn lemma_replace_leading_match(p: Seq<char>, h: Seq<char>, r: Seq<char>)
    requires
        p.len() > 0,
    ensures
        replace_all(p + h, p, r) == r + replace_all(h, p, r),
{
    assert((p + h).subrange(0, p.len() as int) =~= p);
    assert((p + h).skip(p.len() as int) =~= h);
}

proof fn lemma_replace_leading_plain(a: Seq<char>, s: Seq<char>, p: Seq<char>, r: Seq<char>)
    requires
        p.len() > 0,
        forall|i: int| 0 <= i < a.len() ==> a[i] != p[0],
    ensures
        replace_all(a + s, p, r) == a + replace_all(s, p, r),
    decreases a.len(),
{
    if a.len() > 0 {
        assert((a + s)[0] == a[0]);
        assert(!occurs_at(a + s, p, 0)) by {
            if occurs_at(a + s, p, 0) {
                assert((a + s).subrange(0, p.len() as int)[0] == a[0]);
            }
        }
        assert((a + s).drop_first() =~= a.drop_first() + s);
        lemma_replace_leading_plain(a.drop_first(), s, p, r);
        assert(seq![a[0]] + (a.drop_first() + replace_all(s, p, r)) =~= a + replace_all(s, p, r));
    } else {
        assert(a + s =~= s);
    }
}

/// An `https://` origin is reached over `wss://` and a plain `http://` origin
/// over `ws://`, with the rest of the origin unchanged, provided that rest
/// holds no further `http://` or `https://`.
pub proof fn law_ws_url_scheme(host: Seq<char>, language: Seq<char>)
    requires
        !contains_seq(host, "https://"@),
        !contains_seq(host, "http://"@),
    ensures
        ws_url("https://"@ + host, language) == "wss://"@ + host + voice_stream_path() + language,
        ws_url("http://"@ + host, language) == "ws://"@ + host + voice_stream_path() + language,
{
    reveal_strlit("https://");
    reveal_strlit("http://");
    reveal_strlit("wss://");
    reveal_strlit("ws://");
    let https = "https://"@;
    let http = "http://"@;
    lemma_replace_leading_match(https, host, "wss://"@);
    lemma_replace_absent(host, https, "wss://"@);
    lemma_replace_leading_plain("wss://"@, host, http, "ws://"@);
    lemma_replace_absent(host, http, "ws://"@);
    // "http://" + host holds no "https://": the scheme differs at its fifth character.
    assert(!contains_seq(http + host, https)) by {
        assert forall|i: int| !occurs_at(http + host, https, i) by {
            if occurs_at(http + host, https, i) {
                if i == 0 {
                    assert((http + host).subrange(0, 8)[4] == ':');
                } else if i < 7 {
                    assert((http + host).subrange(i, i + 8)[0] == (http + host)[i]);
                } else {
                    assert((http + host).subrange(i, i + 8) =~= host.subrange(i - 7, i + 1));
                    assert(occurs_at(host, https, i - 7));
                }
            }
        }
    }
    lemma_replace_absent(http + host, https, "wss://"@);
    lemma_replace_leading_match(http, host, "ws://"@);
}

/// The headers of the WebSocket handshake: the bearer token, and the client
/// identification that the service expects (`x-app: cli` and the command-line
/// client's user agent `client_agent`).
pub fn ws_request_headers(token: &str, client_agent: &str) -> (headers: Vec<(String, String)>)
    ensures
        headers@.len() == 3,
        headers@[0].0@ == "Authorization"@ && headers@[0].1@ == "Bearer "@ + token@,
        headers@[1].0@ == "x-app"@ && headers@[1].1@ == "cli"@,
        headers@[2].0@ == "User-Agent"@ && headers@[2].1@ == client_agent@,
{
    let mut bearer = "Bearer ".to_string();
    bearer.append(token);
    let mut headers: Vec<(String, String)> = Vec::new();
    headers.push(("Authorization".to_string(), bearer));
    headers.push(("x-app".to_string(), "cli".to_string()));
    headers.push(("User-Agent".to_string(), client_agent.to_string()));
    headers
}

/// The wait before connection attempt `attempt` (0, 1, 2), in milliseconds.
pub open spec fn backoff_ms(attempt: int) -> u64 {
    if attempt == 0 {
        0
    } else if attempt == 1 {
        1000
    } else {
        3000
    }
}

/// Whether a connection error reads as a refusal of the credentials (HTTP 401 or 403).
pub open spec fn is_auth_error(error_text: Seq<char>) -> bool {
    contains_seq(error_text, "401"@) || contains_seq(error_text, "403"@)
}

/// Only a refusal of the credentials is retried: an error whose text names
/// neither 401 nor 403 (a 429, a 500, a refused TCP connection) is never
/// read as one, and one that names either always is.
pub proof fn law_only_401_or_403_reloads(error_text: Seq<char>)
    ensures
        !contains_seq(error_text, "401"@) && !contains_seq(error_text, "403"@) ==> !is_auth_error(error_text),
        contains_seq(error_text, "401"@) || contains_seq(error_text, "403"@) ==> is_auth_error(error_text),
{
}

/// What to do after a failed connection attempt.
#[derive(Debug)]
pub enum RetryStep {
    /// Re-read the stored credentials, then report what was found with `after_reload`.
    ReloadCredentials,
    /// Stop trying, with this error.
    GiveUp(String),
}

/// Connection attempts with backoff: at most three, where only a refusal of
/// the credentials leads to another attempt, possibly with a fresher token.
pub struct ConnectRetry {
    attempt: usize,
    token: String,
}

impl ConnectRetry {
    #[verifier::type_invariant]
    closed spec fn attempts_bounded(self) -> bool {
        self.attempt < 3
    }

    /// The number of the current attempt, from 0.
    pub closed spec fn attempt_index(self) -> int {
        self.attempt as int
    }

    /// The token the current attempt uses.
    pub closed spec fn current_token(self) -> Seq<char> {
        self.token@
    }

    /// The first attempt, with `initial_token`.
    pub fn new(initial_token: &str) -> (c: Self)
        ensures
            c.attempt_index() == 0,
            c.current_token() == initial_token@,
    {
        ConnectRetry { attempt: 0, token: initial_token.to_string() }
    }

    /// The number of the current attempt, from 0; always below 3.
    pub fn attempt(&self) -> (n: usize)
        ensures
            n == self.attempt_index(),
            n < 3,
    {
        proof {
            use_type_invariant(self);
        }
        self.attempt
    }

    /// How long to wait before the current attempt.
    pub fn delay_ms(&self) -> (ms: u64)
        ensures
            ms == backoff_ms(self.attempt_index()),
    {
        proof {
            use_type_invariant(self);
        }
        if self.attempt == 0 {
            0
        } else if self.attempt == 1 {
            1000
        } else {
            3000
        }
    }

    /// The token for the current attempt.
    pub fn token(&self) -> (t: String)
        ensures
            t@ == self.current_token(),
    {
        self.token.clone()
    }

    /// Decides what follows a failed attempt whose error reads `error_text`:
    /// a refusal of the credentials before the last attempt leads to a reload,
    /// anything else ends the attempts with the connection error.
    pub fn on_failure(&self, error_text: &str) -> (step: RetryStep)
        ensures
            is_auth_error(error_text@) && self.attempt_index() < 2 ==> step is ReloadCredentials,
            !(is_auth_error(error_text@) && self.attempt_index() < 2) ==> (step matches RetryStep::GiveUp(
                msg,
            ) && msg@ == "WebSocket connection failed: "@ + error_text@),
            !contains_seq(error_text@, "401"@) && !contains_seq(error_text@, "403"@) ==> (
            step matches RetryStep::GiveUp(msg) && msg@ == "WebSocket connection failed: "@
                + error_text@),
            step is ReloadCredentials ==> (contains_seq(error_text@, "401"@) || contains_seq(
                error_text@,
                "403"@,
            )) && self.attempt_index() < 2,
    {
        proof {
            use_type_invariant(self);
        }
        let auth = contains_str(error_text, "401") || contains_str(error_text, "403");
        if auth && self.attempt < 2 {
            RetryStep::ReloadCredentials
        } else {
            let mut msg = "WebSocket connection failed: ".to_string();
            msg.append(error_text);
            RetryStep::GiveUp(msg)
        }
    }

    /// Moves to the next attempt after a reload of the credentials found
    /// `reloaded` (`None` when nothing was loaded): a token that differs from
    /// the current one replaces it.
    pub fn after_reload(&mut self, reloaded: Option<String>)
        requires
            old(self).attempt_index() < 2,
        ensures
            final(self).attempt_index() == old(self).attempt_index() + 1,
            final(self).current_token() == match reloaded {
                Some(t) => t@,
                None => old(self).current_token(),
            },
    {
        proof {
            use_type_invariant(&*self);
        }
        if let Some(t) = reloaded {
            if !(t == self.token) {
                self.token = t;
            }
        }
        self.attempt = self.attempt + 1;
    }
}

/// The status that a session reports before its first connection attempt.
pub fn connecting_event() -> (e: SttEvent)
    ensures
        e@ == (EventModel::Status { status: "connecting"@, message: None }),
{
    status_event("connecting", None)
}

/// What a session reports once its connection attempts have ended, and
/// whether it goes on to stream: on success the status `connected` and
/// `true`; on failure the status `error` with the failure's message, and
/// `false`.
pub fn connection_outcome(result: Result<(), String>) -> (out: (SttEvent, bool))
    ensures
        match result {
            Ok(()) => out.0@ == (EventModel::Status { status: "connected"@, message: None })
                && out.1,
            Err(m) => out.0@ == (EventModel::Status { status: "error"@, message: Some(m@) })
                && !out.1,
        },
{
    match result {
        Ok(()) => (status_event("connected", None), true),
        Err(m) => (status_event("error", Some(m)), false),
    }
}

} // verus!
