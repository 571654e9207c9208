//! Decisions of the private engine helper: its package, which requests reach
//! which pane, which keys are browser shortcuts, and what pages may post.
use vstd::prelude::*;
use crate::client::{paths_equal, same_path};
use crate::pages::{html_url, join_path, spec_html_url};
use crate::text::{chars_of, owned, str_option_view};
use crate::wire::Command;

verus! {

/// Records the package the helper runs from: another package is refused, and
/// the first one stays.
pub fn configure(slot: &mut Option<String>, package: String) -> (r: Result<(), String>)
    ensures
        match *old(slot) {
            Some(existing) => if paths_equal(existing@, package@) {
                r is Ok && *final(slot) == *old(slot)
            } else {
                &&& r matches Err(e) && e@
                    == "Browser runtime is already loaded from another package"@
                &&& *final(slot) == *old(slot)
            },
            None => r is Ok && *final(slot) == Some(package),
        },
        // The same package again is always accepted: a path equals itself.
        (*old(slot) matches Some(existing) && existing@ == package@) ==> r is Ok,
{
    match slot {
        Some(existing) => {
            if !same_path(existing.as_str(), package.as_str()) {
                return Err(owned("Browser runtime is already loaded from another package"));
            }
        },
        None => {
            *slot = Some(package);
        },
    }
    Ok(())
}

/// The directories that may hold the bundled Chromium resources, in order:
/// `browser-runtime` inside the package, then the package itself.
pub open spec fn spec_runtime_candidates(package: Seq<char>) -> Seq<Seq<char>> {
    seq![join_path(package, "browser-runtime"@), package]
}

/// The directories to search for the bundled Chromium resources.
pub fn runtime_candidates(package: &str) -> (r: Vec<String>)
    ensures
        r@.map_values(|s: String| s@) == spec_runtime_candidates(package@),
{
    let name = chars_of("browser-runtime");
    let mut r: Vec<String> = Vec::new();
    r.push(crate::pages::join_to(package, name.as_slice()));
    r.push(owned(package));
    assert(r@.map_values(|s: String| s@) =~= spec_runtime_candidates(package@));
    r
}

/// The largest message, in bytes, that a page may post to the pane.
pub const MAX_PAGE_MESSAGE: usize = 65536;

/// Whether a page message of `len` bytes is passed on.
pub fn accepts_page_message(len: usize) -> (r: bool)
    ensures
        r == (len <= MAX_PAGE_MESSAGE),
{
    len <= MAX_PAGE_MESSAGE
}

/// Shift, as Chromium's key events flag it.
pub const EVENTFLAG_SHIFT_DOWN: u32 = 2;
/// Control.
pub const EVENTFLAG_CONTROL_DOWN: u32 = 4;
/// Alt.
pub const EVENTFLAG_ALT_DOWN: u32 = 8;
/// Command.
pub const EVENTFLAG_COMMAND_DOWN: u32 = 128;
/// AltGr.
pub const EVENTFLAG_ALTGR_DOWN: u32 = 4096;

/// The modifier keys that select a shortcut; other flags (lock keys, mouse
/// buttons) are ignored.
pub open spec fn shortcut_modifiers(modifiers: u32) -> u32 {
    modifiers & (EVENTFLAG_SHIFT_DOWN | EVENTFLAG_CONTROL_DOWN | EVENTFLAG_ALT_DOWN
        | EVENTFLAG_COMMAND_DOWN | EVENTFLAG_ALTGR_DOWN)
}

/// The browser action for a key press, before the page sees it: Ctrl+L
/// focuses the address, Ctrl+R reloads, Alt+Left and Alt+Right go back and
/// forward, and Escape alone stops. Only key-down events count, and only with
/// exactly those modifiers.
pub open spec fn spec_shortcut_action(key_down: bool, modifiers: u32, key_code: i32) -> Option<
    Seq<char>,
> {
    let m = shortcut_modifiers(modifiers);
    if !key_down {
        None
    } else if m == EVENTFLAG_CONTROL_DOWN {
        if key_code == 0x4c {
            Some("focus-address"@)
        } else if key_code == 0x52 {
            Some("reload"@)
        } else {
            None
        }
    } else if m == EVENTFLAG_ALT_DOWN {
        if key_code == 0x25 {
            Some("back"@)
        } else if key_code == 0x27 {
            Some("forward"@)
        } else {
            None
        }
    } else if m == 0 && key_code == 0x1b {
        Some("stop"@)
    } else {
        None
    }
}

/// The browser shortcut a key event triggers, if any.
pub fn shortcut_action(key_down: bool, modifiers: u32, key_code: i32) -> (r: Option<&'static str>)
    ensures
        str_option_view(r) == spec_shortcut_action(key_down, modifiers, key_code),
{
    if !key_down {
        return None;
    }
    let m = modifiers & (EVENTFLAG_SHIFT_DOWN | EVENTFLAG_CONTROL_DOWN | EVENTFLAG_ALT_DOWN
        | EVENTFLAG_COMMAND_DOWN | EVENTFLAG_ALTGR_DOWN);
    if m == EVENTFLAG_CONTROL_DOWN {
        if key_code == 0x4c {
            Some("focus-address")
        } else if key_code == 0x52 {
            Some("reload")
        } else {
            None
        }
    } else if m == EVENTFLAG_ALT_DOWN {
        if key_code == 0x25 {
            Some("back")
        } else if key_code == 0x27 {
            Some("forward")
        } else {
            None
        }
    } else if m == 0 && key_code == 0x1b {
        Some("stop")
    } else {
        None
    }
}

/// A key event that the focus proxy forwards to the host window is moved one
/// pixel up and left (the proxy sits at -1, -1), without wrapping.
pub fn forwarded_coordinates(x: i16, y: i16) -> (r: (i16, i16))
    ensures
        r.0 == (if x == i16::MIN { x as int } else { x - 1 }),
        r.1 == (if y == i16::MIN { y as int } else { y - 1 }),
{
    let nx = if x == i16::MIN {
        x
    } else {
        x - 1
    };
    let ny = if y == i16::MIN {
        y
    } else {
        y - 1
    };
    (nx, ny)
}

/// What the helper does for one request.
#[derive(Debug, Clone, PartialEq, Eq)]
pub enum PaneAction {
    /// Open a new pane in `parent`, running `script` in its pages, at `url`.
    Create { parent: u32, script: String, url: String },
    /// Close the pane, if it is open.
    Destroy,
    /// Close every pane.
    DestroyAll,
    SetBounds { x: i32, y: i32, width: u32, height: u32 },
    SetVisible(bool),
    Focus,
    FocusParent,
    LoadUrl(String),
    LoadHtml(String),
    EvaluateScript(String),
    GoBack,
    GoForward,
    Reload,
}

/// The action for `command` on a pane that is open or not: a pane is created
/// once (with its HTML as a `data:` URL when it has no address), closing is
/// always allowed, and any other command needs an open pane.
pub fn route(command: Command, pane_exists: bool) -> (r: Result<PaneAction, String>)
    ensures
        match command {
            Command::Create { parent, script, url, html } => if pane_exists {
                r matches Err(e) && e@ == "Duplicate pane"@
            } else {
                r matches Ok(PaneAction::Create { parent: p, script: s, url: u }) && p == parent
                    && s == script && u@ == (match url {
                    Some(given) => given@,
                    None => spec_html_url(html@),
                })
            },
            Command::Destroy => r == Ok::<PaneAction, String>(PaneAction::Destroy),
            Command::Shutdown => r == Ok::<PaneAction, String>(PaneAction::DestroyAll),
            _ => if !pane_exists {
                r matches Err(e) && e@ == "Pane is closed"@
            } else {
                r == Ok::<PaneAction, String>(
                    match command {
                        Command::Resize { x, y, width, height } => PaneAction::SetBounds {
                            x,
                            y,
                            width,
                            height,
                        },
                        Command::Visible(v) => PaneAction::SetVisible(v),
                        Command::Focus(true) => PaneAction::Focus,
                        Command::Focus(false) => PaneAction::FocusParent,
                        Command::Url(v) => PaneAction::LoadUrl(v),
                        Command::Html(v) => PaneAction::LoadHtml(v),
                        Command::Script(v) => PaneAction::EvaluateScript(v),
                        Command::Back => PaneAction::GoBack,
                        Command::Forward => PaneAction::GoForward,
                        _ => PaneAction::Reload,
                    },
                )
            },
        },
{
    match command {
        Command::Create { parent, script, url, html } => {
            if pane_exists {
                return Err(owned("Duplicate pane"));
            }
            let url = match url {
                Some(given) => given,
                None => html_url(html.as_str()),
            };
            return Ok(PaneAction::Create { parent, script, url });
        },
        Command::Destroy => {
            return Ok(PaneAction::Destroy);
        },
        Command::Shutdown => {
            return Ok(PaneAction::DestroyAll);
        },
        _ => {},
    }
    if !pane_exists {
        return Err(owned("Pane is closed"));
    }
    match command {
        Command::Resize { x, y, width, height } => Ok(PaneAction::SetBounds { x, y, width, height }),
        Command::Visible(v) => Ok(PaneAction::SetVisible(v)),
        Command::Focus(true) => Ok(PaneAction::Focus),
        Command::Focus(false) => Ok(PaneAction::FocusParent),
        Command::Url(v) => Ok(PaneAction::LoadUrl(v)),
        Command::Html(v) => Ok(PaneAction::LoadHtml(v)),
        Command::Script(v) => Ok(PaneAction::EvaluateScript(v)),
        Command::Back => Ok(PaneAction::GoBack),
        Command::Forward => Ok(PaneAction::GoForward),
        _ => Ok(PaneAction::Reload),
    }
}

/// The sandbox helper the engine checks: the one named by
/// `CHROME_DEVEL_SANDBOX`, or else the package's own.
pub open spec fn spec_sandbox_helper(configured: Option<Seq<char>>, package: Seq<char>) -> Seq<char> {
    match configured {
        Some(path) => path,
        None => join_path(package, "chrome-sandbox"@),
    }
}

/// The sandbox helper to check before Chromium starts.
pub fn sandbox_helper(configured: Option<String>, package: &str) -> (r: String)
    ensures
        r@ == spec_sandbox_helper(crate::address::option_view(configured), package@),
{
    match configured {
        Some(path) => path,
        None => {
            let name = chars_of("chrome-sandbox");
            crate::pages::join_to(package, name.as_slice())
        },
    }
}

/// Whether a command-line argument gives a Chromium subprocess role
/// (`--type=...`), so that the helper runs as that subprocess.
pub open spec fn spec_is_subprocess_arg(arg: Seq<u8>) -> bool {
    arg.len() >= 7 && arg.take(7) == seq![45u8, 45u8, 116u8, 121u8, 112u8, 101u8, 61u8]
}

/// Whether the argument's bytes begin with `--type=`.
pub fn is_subprocess_arg(arg: &[u8]) -> (r: bool)
    ensures
        r == spec_is_subprocess_arg(arg@),
{
    let prefix: [u8; 7] = [45, 45, 116, 121, 112, 101, 61];
    if arg.len() < 7 {
        return false;
    }
    let mut i: usize = 0;
    while i < 7
        invariant
            7 <= arg@.len(),
            prefix@ == seq![45u8, 45u8, 116u8, 121u8, 112u8, 101u8, 61u8],
            i <= 7,
            forall|j: int| 0 <= j < i ==> arg@[j] == prefix@[j],
        decreases 7 - i,
    {
        if arg[i] != prefix[i] {
            assert(arg@.take(7)[i as int] != prefix@[i as int]);
            return false;
        }
        i = i + 1;
    }
    assert(arg@.take(7) =~= prefix@);
    true
}

/// The size of a pane's native windows: X11 windows are at least one pixel
/// wide and high.
pub fn window_extent(width: u32, height: u32) -> (r: (u32, u32))
    ensures
        r.0 == (if width < 1 { 1 } else { width }),
        r.1 == (if height < 1 { 1 } else { height }),
{
    (if width < 1 { 1 } else { width }, if height < 1 { 1 } else { height })
}

} // verus!
