//! The host's native surface interface, version 1: the values that cross it
//! as JSON, and the checks on what the host hands over.
use vstd::prelude::*;
use crate::address::option_view;

verus! {

/// The interface version this plugin speaks.
pub const ABI_VERSION: u32 = 1;

/// A parent that is an X11 window id.
pub const PARENT_X11: u32 = 1;

/// A parent that is an AppKit view.
pub const PARENT_NS_VIEW: u32 = 2;

/// The largest message either side passes in one call.
pub const MAX_MESSAGE_BYTES: usize = 1048576;

/// Whether a message of `len` bytes, whose data pointer is null or not, may
/// be read: at most `MAX_MESSAGE_BYTES`, and with data unless it is empty.
pub open spec fn spec_message_is_valid(len: usize, data_is_null: bool) -> bool {
    len <= MAX_MESSAGE_BYTES && !(len > 0 && data_is_null)
}

/// Whether the host's message descriptor may be read.
pub fn message_is_valid(len: usize, data_is_null: bool) -> (r: bool)
    ensures
        r == spec_message_is_valid(len, data_is_null),
{
    !(len > MAX_MESSAGE_BYTES || (len > 0 && data_is_null))
}

/// The colours and font size of the host's interface, as CSS values.
#[derive(Debug, Clone, PartialEq, Eq)]
pub struct Theme {
    pub page: String,
    pub field: String,
    pub border: String,
    pub focus: String,
    pub text: String,
    pub muted: String,
    pub ui_font_size: String,
}

/// Which pane the host is creating: its space, its id, and the host's theme.
#[derive(Debug, Clone, PartialEq, Eq)]
pub struct Instance {
    pub space: String,
    pub instance_id: u64,
    pub theme: Theme,
}

/// What the host asks of a pane.
#[derive(Debug, Clone, PartialEq, Eq)]
pub enum Input {
    /// Handle the events the pane announced with `Wake`.
    Poll,
    /// A toolbar control was used, or a text input submitted.
    Action { id: String, value: Option<String> },
    /// The host's theme changed.
    Theme { theme: Theme },
}

/// One toolbar control.
#[derive(Debug, Clone, PartialEq, Eq)]
pub struct Control {
    pub id: String,
    pub label: String,
    /// A package-relative SVG.
    pub icon: Option<String>,
    pub enabled: bool,
    /// `Some` for a text input, `None` for a button.
    pub value: Option<String>,
}

/// A keyboard shortcut and the action it triggers.
#[derive(Debug, Clone, PartialEq, Eq)]
pub struct Shortcut {
    pub key: String,
    pub action: String,
    pub content_only: bool,
}

/// What a pane tells the host.
#[derive(Debug, Clone, PartialEq, Eq)]
pub enum Event {
    /// The pane has events to handle; the host answers with `Poll`.
    Wake,
    /// The pane's title, toolbar and shortcuts.
    State { title: String, controls: Vec<Control>, shortcuts: Vec<Shortcut> },
    /// Logical focus: a control to focus, or `None` when the page has it.
    Focus { control: Option<String>, select_all: bool },
    /// A failure to show to the user.
    Error { message: String },
}

pub struct ControlView {
    pub id: Seq<char>,
    pub label: Seq<char>,
    pub icon: Option<Seq<char>>,
    pub enabled: bool,
    pub value: Option<Seq<char>>,
}

impl View for Control {
    type V = ControlView;

    open spec fn view(&self) -> ControlView {
        ControlView {
            id: self.id@,
            label: self.label@,
            icon: option_view(self.icon),
            enabled: self.enabled,
            value: option_view(self.value),
        }
    }
}

pub struct ShortcutView {
    pub key: Seq<char>,
    pub action: Seq<char>,
    pub content_only: bool,
}

impl View for Shortcut {
    type V = ShortcutView;

    open spec fn view(&self) -> ShortcutView {
        ShortcutView { key: self.key@, action: self.action@, content_only: self.content_only }
    }
}

pub enum EventView {
    Wake,
    State { title: Seq<char>, controls: Seq<ControlView>, shortcuts: Seq<ShortcutView> },
    Focus { control: Option<Seq<char>>, select_all: bool },
    Error { message: Seq<char> },
}

impl View for Event {
    type V = EventView;

    open spec fn view(&self) -> EventView {
        match self {
            Event::Wake => EventView::Wake,
            Event::State { title, controls, shortcuts } => EventView::State {
                title: title@,
                controls: controls@.map_values(|c: Control| c@),
                shortcuts: shortcuts@.map_values(|s: Shortcut| s@),
            },
            Event::Focus { control, select_all } => EventView::Focus {
                control: option_view(*control),
                select_all: *select_all,
            },
            Event::Error { message } => EventView::Error { message: message@ },
        }
    }
}

} // verus!
