use vstd::prelude::*;

verus! {

/// Clipboard managers that keep copied text after the copying program exits.
pub fn persistent_clipboard_daemons() -> (r: Vec<&'static str>)
    ensures
        r@.len() == 4,
        r@[0]@ == "clipvault"@,
        r@[1]@ == "cliphist"@,
        r@[2]@ == "cliprust"@,
        r@[3]@ == "stash"@,
{
    let mut v: Vec<&'static str> = Vec::new();
    v.push("clipvault");
    v.push("cliphist");
    v.push("cliprust");
    v.push("stash");
    v
}

/// Whether a persistent clipboard manager is installed, given for each of
/// `persistent_clipboard_daemons` whether its command runs.
pub fn has_persistent_clipboard_daemon(installed: &Vec<bool>) -> (r: bool)
    requires
        installed@.len() == 4,
    ensures
        r == exists|i: int| 0 <= i < 4 && installed@[i],
{
    let mut i: usize = 0;
    while i < installed.len()
        invariant
            i <= installed.len(),
            installed@.len() == 4,
            forall|j: int| 0 <= j < i ==> !installed@[j],
        decreases installed.len() - i,
    {
        if installed[i] {
            return true;
        }
        i = i + 1;
    }
    false
}

/// The warning shown before copying on Wayland.
#[derive(Debug, Clone, Copy, PartialEq, Eq, Structural)]
pub enum WaylandNotice {
    /// Nothing to warn about.
    Nothing,
    /// Neither `wl-copy` nor a persistent clipboard manager is there.
    NoClipboard,
    /// `wl-copy` is there, but no persistent clipboard manager.
    NotPersistent,
}

/// Which warning to show before copying: none outside Wayland or when a persistent
/// clipboard manager is installed; otherwise one that depends on whether `wl-copy` is
/// there.
pub fn wayland_notice(is_wayland: bool, has_wl_copy: bool, has_persistent: bool) -> (r: WaylandNotice)
    ensures
        !is_wayland ==> r == WaylandNotice::Nothing,
        is_wayland && !has_wl_copy && !has_persistent ==> r == WaylandNotice::NoClipboard,
        is_wayland && has_wl_copy && !has_persistent ==> r == WaylandNotice::NotPersistent,
        has_persistent ==> r == WaylandNotice::Nothing,
{
    if !is_wayland {
        WaylandNotice::Nothing
    } else if !has_wl_copy && !has_persistent {
        WaylandNotice::NoClipboard
    } else if has_wl_copy && !has_persistent {
        WaylandNotice::NotPersistent
    } else {
        WaylandNotice::Nothing
    }
}

} // verus!
