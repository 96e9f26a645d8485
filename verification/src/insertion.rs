use vstd::prelude::*;
use vstd::string::StringExecFns;

verus! {

/// One mechanism of the prioritized insertion chain. Executing a strategy is
/// the platform collaborator's job; the library decides the order in which
/// the mechanisms are attempted until one succeeds.
#[derive(Clone, Copy, Debug, PartialEq, Eq, Structural)]
pub enum InsertionStrategy {
    /// `ydotool type` through /dev/uinput; works on X11 and Wayland.
    Ydotool,
    /// `wtype` over the wlroots virtual-keyboard protocol.
    Wtype,
    /// Clipboard set via `xclip`, then a simulated paste via `xdotool`.
    XclipPaste,
    /// Direct keystroke synthesis through the native input library.
    EnigoText,
    /// Clipboard set through a library, then a simulated paste shortcut.
    ClipboardPaste,
}

/// What the host session offers for text insertion.
#[derive(Clone, Copy, Debug, PartialEq, Eq, Structural)]
pub struct InsertionTools {
    pub linux: bool,
    pub wayland: bool,
    pub has_ydotool: bool,
    pub has_wtype: bool,
    pub has_xclip: bool,
    pub has_xdotool: bool,
}

/// The Linux chain: on Wayland, ydotool then wtype when present, clipboard
/// paste last; on X11, the xclip-and-xdotool paste when both tools are
/// present, clipboard paste last.
pub open spec fn linux_plan(t: InsertionTools) -> Seq<InsertionStrategy> {
    if t.wayland {
        (if t.has_ydotool {
            seq![InsertionStrategy::Ydotool]
        } else {
            Seq::empty()
        }) + (if t.has_wtype {
            seq![InsertionStrategy::Wtype]
        } else {
            Seq::empty()
        }) + seq![InsertionStrategy::ClipboardPaste]
    } else {
        (if t.has_xclip && t.has_xdotool {
            seq![InsertionStrategy::XclipPaste]
        } else {
            Seq::empty()
        }) + seq![InsertionStrategy::ClipboardPaste]
    }
}

/// The chain elsewhere: direct keystroke synthesis first, clipboard paste
/// as the fallback.
pub open spec fn nonlinux_plan() -> Seq<InsertionStrategy> {
    seq![InsertionStrategy::EnigoText, InsertionStrategy::ClipboardPaste]
}

/// The whole decision: inserting an empty string is a no-op, otherwise the
/// platform picks its chain.
pub open spec fn plan_of(text: Seq<char>, t: InsertionTools) -> Seq<InsertionStrategy> {
    if text.len() == 0 {
        Seq::empty()
    } else if t.linux {
        linux_plan(t)
    } else {
        nonlinux_plan()
    }
}

/// The ordered mechanisms to attempt on Linux.
pub fn type_text_linux(tools: &InsertionTools) -> (plan: Vec<InsertionStrategy>)
    ensures
        plan@ == linux_plan(*tools),
{
    let mut plan: Vec<InsertionStrategy> = Vec::new();
    if tools.wayland {
        if tools.has_ydotool {
            plan.push(InsertionStrategy::Ydotool);
        }
        if tools.has_wtype {
            plan.push(InsertionStrategy::Wtype);
        }
    } else {
        if tools.has_xclip && tools.has_xdotool {
            plan.push(InsertionStrategy::XclipPaste);
        }
    }
    plan.push(InsertionStrategy::ClipboardPaste);
    proof {
        assert(plan@ =~= linux_plan(*tools));
    }
    plan
}

/// The ordered mechanisms to attempt on other platforms.
pub fn type_text_nonlinux() -> (plan: Vec<InsertionStrategy>)
    ensures
        plan@ == nonlinux_plan(),
{
    let mut plan: Vec<InsertionStrategy> = Vec::new();
    plan.push(InsertionStrategy::EnigoText);
    plan.push(InsertionStrategy::ClipboardPaste);
    proof {
        assert(plan@ =~= nonlinux_plan());
    }
    plan
}

/// Decides how the given text is inserted into the focused target: the
/// ordered chain of mechanisms to attempt, empty exactly when the text is
/// empty. The window identifier is kept for compatibility with callers;
/// the chain does not depend on it.
pub fn type_text(text: &str, _target_window_id: &str, tools: &InsertionTools) -> (plan: Vec<
    InsertionStrategy>)
    ensures
        plan@ == plan_of(text@, *tools),
{
    if text.is_empty() {
        Vec::new()
    } else if tools.linux {
        type_text_linux(tools)
    } else {
        type_text_nonlinux()
    }
}

/// Identifies the currently focused insertion target. The cross-platform
/// paste chain does not rely on a concrete window handle, so the identifier
/// is the fixed marker for "the active window".
pub fn capture_focused_window() -> (r: Result<String, String>)
    ensures
        r is Ok,
        r->Ok_0@ == "active"@,
{
    Ok(String::from_str("active"))
}

/// The single-consumer queue that serializes insertion requests so they
/// never block the protocol or audio path. Requests leave in submission
/// order, one at a time; a failed insertion never stops the worker, the
/// next queued string is still attempted.
pub struct InsertionWorker {
    pub pending: Vec<String>,
}

impl InsertionWorker {
    /// An empty queue.
    pub fn new() -> (r: InsertionWorker)
        ensures
            r.pending@ == Seq::<String>::empty(),
    {
        InsertionWorker { pending: Vec::new() }
    }

    /// Admits one request at the back; an empty string is a no-op and is
    /// never queued.
    pub fn enqueue(&mut self, text: String)
        ensures
            text@.len() == 0 ==> final(self).pending@ == old(self).pending@,
            text@.len() > 0 ==> final(self).pending@ == old(self).pending@.push(text),
    {
        if !text.as_str().is_empty() {
            self.pending.push(text);
        }
    }

    /// Hands out the oldest pending request, preserving submission order.
    pub fn next_item(&mut self) -> (r: Option<String>)
        ensures
            old(self).pending@.len() == 0 ==> r is None && final(self).pending@ == old(
                self).pending@,
            old(self).pending@.len() > 0 ==> r == Some(old(self).pending@[0]) && final(
                self).pending@ == old(self).pending@.drop_first(),
    {
        if self.pending.len() == 0 {
            None
        } else {
            let item = self.pending.remove(0);
            proof {
                assert(self.pending@ =~= old(self).pending@.drop_first());
            }
            Some(item)
        }
    }
}

} // verus!
