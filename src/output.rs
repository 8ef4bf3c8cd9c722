use vstd::prelude::*;
use crate::path::{copy_text, same_text};
use crate::text::{lower_of, lowercase};

verus! {

/// What to do when the output file exists already.
#[derive(PartialEq, Eq, Structural, Clone, Copy, Debug)]
pub enum FileWriteChoice {
    Replace,
    Append,
    Cancel,
}

impl FileWriteChoice {
    /// The choice for the option picked at `index` among Replace, Append and Cancel,
    /// offered in that order; any other index cancels.
    pub fn from_index(index: usize) -> (r: FileWriteChoice)
        ensures
            r == if index == 0 {
                FileWriteChoice::Replace
            } else if index == 1 {
                FileWriteChoice::Append
            } else {
                FileWriteChoice::Cancel
            },
    {
        if index == 0 {
            FileWriteChoice::Replace
        } else if index == 1 {
            FileWriteChoice::Append
        } else {
            FileWriteChoice::Cancel
        }
    }
}

/// A way of putting text on the clipboard.
#[derive(PartialEq, Eq, Structural, Clone, Copy, Debug)]
pub enum ClipboardTool {
    /// `clip.exe` of Windows, from inside WSL.
    ClipExe,
    WlCopy,
    Copyq,
    Clipman,
    Cliphist,
    GpasteClient,
    Clipse,
    /// The `arboard` crate.
    Arboard,
    Xclip,
}

/// The clipboard managers tried, in order.
pub open spec fn managers() -> Seq<ClipboardTool> {
    seq![
        ClipboardTool::Copyq,
        ClipboardTool::Clipman,
        ClipboardTool::Cliphist,
        ClipboardTool::GpasteClient,
        ClipboardTool::Clipse,
    ]
}

/// The order in which tools are tried: only `clip.exe` under WSL; under Wayland
/// `wl-copy`, the managers, then `arboard`; elsewhere `arboard`, the managers, then
/// `wl-copy`; last `xclip`, when an X11 display is set.
pub open spec fn tool_order(wsl: bool, wayland: bool, x11: bool) -> Seq<ClipboardTool> {
    if wsl {
        seq![ClipboardTool::ClipExe]
    } else {
        let first = if wayland {
            seq![ClipboardTool::WlCopy] + managers() + seq![ClipboardTool::Arboard]
        } else {
            seq![ClipboardTool::Arboard] + managers() + seq![ClipboardTool::WlCopy]
        };
        if x11 {
            first.push(ClipboardTool::Xclip)
        } else {
            first
        }
    }
}

/// The tools to try, in order, given whether this runs under WSL, the session type, and
/// the Wayland and X11 display names (empty when unset).
pub fn clipboard_tools(wsl: bool, session_type: &String, wayland_display: &String, x11_display: &String) -> (r: Vec<ClipboardTool>)
    ensures
        r@ == tool_order(
            wsl,
            lower_of(session_type@) == "wayland"@ || wayland_display@.len() > 0,
            x11_display@.len() > 0,
        ),
{
    if wsl {
        let r = vec![ClipboardTool::ClipExe];
        assert(r@ =~= tool_order(wsl, false, false));
        return r;
    }
    let wayland = same_text(&lowercase(session_type.as_str()), &String::from_str("wayland"))
        || !wayland_display.as_str().is_empty();
    let mut r: Vec<ClipboardTool> = Vec::new();
    if wayland {
        r.push(ClipboardTool::WlCopy);
    } else {
        r.push(ClipboardTool::Arboard);
    }
    r.push(ClipboardTool::Copyq);
    r.push(ClipboardTool::Clipman);
    r.push(ClipboardTool::Cliphist);
    r.push(ClipboardTool::GpasteClient);
    r.push(ClipboardTool::Clipse);
    if wayland {
        r.push(ClipboardTool::Arboard);
    } else {
        r.push(ClipboardTool::WlCopy);
    }
    if !x11_display.as_str().is_empty() {
        r.push(ClipboardTool::Xclip);
    }
    assert(r@ =~= tool_order(wsl, wayland, x11_display@.len() > 0));
    r
}

/// The text with each line feed turned into a carriage return and a line feed.
pub open spec fn crlf(s: Seq<char>) -> Seq<char>
    decreases s.len(),
{
    if s.len() == 0 {
        Seq::empty()
    } else if s.last() == '\n' {
        crlf(s.drop_last()) + seq!['\r', '\n']
    } else {
        crlf(s.drop_last()).push(s.last())
    }
}

/// Relies on `str::replace` with a `char` pattern: every `\n` replaced by `\r\n`.
#[verifier::external_body]
fn replace_line_feeds(s: &str) -> (r: String)
    ensures
        r@ == crlf(s@),
{
    s.replace('\n', "\r\n")
}

/// The text handed to `tool`: Windows programs get CRLF line breaks.
pub fn clipboard_text(content: &String, tool: ClipboardTool) -> (r: String)
    ensures
        r@ == if tool == ClipboardTool::ClipExe { crlf(content@) } else { content@ },
{
    if tool == ClipboardTool::ClipExe {
        replace_line_feeds(content.as_str())
    } else {
        copy_text(content)
    }
}

} // verus!
