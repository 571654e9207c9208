//! Private, bounded control messages between the plugin and its one engine
//! helper: one JSON value per line. Pixels and input never use this pipe.
use vstd::prelude::*;

verus! {

/// The largest line, newline included, either side writes or reads.
pub const MAX_FRAME: u64 = 1048576;

/// What the engine reports about a pane.
#[derive(Debug, Clone, PartialEq, Eq)]
pub enum EngineEvent {
    /// A message the page posted to the pane (JSON text).
    Message(String),
    Title(String),
    Started(String),
    Finished(String),
    Failed(String),
    Download(String),
    History { loading: bool, back: bool, forward: bool },
}

/// An engine event, with its texts as character sequences.
pub enum EngineEventView {
    Message(Seq<char>),
    Title(Seq<char>),
    Started(Seq<char>),
    Finished(Seq<char>),
    Failed(Seq<char>),
    Download(Seq<char>),
    History { loading: bool, back: bool, forward: bool },
}

impl View for EngineEvent {
    type V = EngineEventView;

    open spec fn view(&self) -> EngineEventView {
        match self {
            EngineEvent::Message(v) => EngineEventView::Message(v@),
            EngineEvent::Title(v) => EngineEventView::Title(v@),
            EngineEvent::Started(v) => EngineEventView::Started(v@),
            EngineEvent::Finished(v) => EngineEventView::Finished(v@),
            EngineEvent::Failed(v) => EngineEventView::Failed(v@),
            EngineEvent::Download(v) => EngineEventView::Download(v@),
            EngineEvent::History { loading, back, forward } => EngineEventView::History {
                loading: *loading,
                back: *back,
                forward: *forward,
            },
        }
    }
}

/// A command for one pane, numbered so that its reply can be matched.
#[derive(Debug, Clone, PartialEq, Eq)]
pub struct Request {
    pub sequence: u64,
    pub pane: u64,
    pub command: Command,
}

/// What the plugin asks the engine to do.
#[derive(Debug, Clone, PartialEq, Eq)]
pub enum Command {
    Create { parent: u32, script: String, url: Option<String>, html: String },
    Resize { x: i32, y: i32, width: u32, height: u32 },
    Visible(bool),
    Focus(bool),
    Url(String),
    Html(String),
    Script(String),
    Back,
    Forward,
    Reload,
    Destroy,
    Shutdown,
}

/// What the engine writes back: the outcome of a request, or a pane's event.
#[derive(Debug, Clone, PartialEq, Eq)]
pub enum Reply {
    Done { sequence: u64, error: Option<String> },
    Event { pane: u64, event: EngineEvent },
}

/// The line that carries `message`: the message and a newline, when it fits
/// in `MAX_FRAME`.
pub open spec fn spec_frame(message: Seq<u8>) -> Option<Seq<u8>> {
    if message.len() + 1 <= MAX_FRAME {
        Some(message.push(10u8))
    } else {
        None
    }
}

/// The line to write for the serialized `message`, or `None` when it is too
/// large to send.
pub fn frame(message: Vec<u8>) -> (r: Option<Vec<u8>>)
    ensures
        match r {
            Some(line) => spec_frame(message@) == Some(line@),
            None => spec_frame(message@) is None,
        },
{
    if message.len() as u64 >= MAX_FRAME {
        None
    } else {
        let mut line = message;
        line.push(10u8);
        Some(line)
    }
}

/// How a reader treats a line of `size` bytes, read with a limit of
/// `MAX_FRAME + 1` bytes.
#[derive(Debug, Clone, PartialEq, Eq)]
pub enum FrameRead {
    /// The other side closed the pipe.
    End,
    /// The line is longer than `MAX_FRAME`; the stream cannot be trusted.
    Oversized,
    /// A line to parse.
    Line,
}

pub open spec fn spec_classify_frame(size: u64) -> FrameRead {
    if size == 0 {
        FrameRead::End
    } else if size > MAX_FRAME {
        FrameRead::Oversized
    } else {
        FrameRead::Line
    }
}

/// What a reader does with a line of `size` bytes.
pub fn classify_frame(size: u64) -> (r: FrameRead)
    ensures
        r == spec_classify_frame(size),
{
    if size == 0 {
        FrameRead::End
    } else if size > MAX_FRAME {
        FrameRead::Oversized
    } else {
        FrameRead::Line
    }
}

/// Every line that one side writes, the other side reads as a line: it ends
/// with a newline and is neither empty nor oversized.
pub proof fn lemma_written_frames_are_read(message: Seq<u8>)
    ensures
        spec_frame(message) matches Some(line) ==> line.last() == 10u8 && spec_classify_frame(
            line.len() as u64,
        ) == FrameRead::Line,
{
}

/// The outcome that a `Done` reply reports to the waiting request.
pub fn done_outcome(error: Option<String>) -> (r: Result<(), String>)
    ensures
        match error {
            Some(e) => r == Err::<(), String>(e),
            None => r is Ok,
        },
{
    match error {
        Some(e) => Err(e),
        None => Ok(()),
    }
}

/// Whether a request ends the engine's session once it is answered.
pub fn ends_session(command: &Command) -> (r: bool)
    ensures
        r == (*command is Shutdown),
{
    match command {
        Command::Shutdown => true,
        _ => false,
    }
}

} // verus!
