//! Launch-at-login through a per-user LaunchAgent.

use crate::proto::APP_LABEL;
use crate::text;
use vstd::prelude::*;

verus! {

/// The plist up to the label.
pub const PLIST_HEAD: &'static str =
    "<?xml version=\"1.0\" encoding=\"UTF-8\"?>\n<!DOCTYPE plist PUBLIC \"-//Apple//DTD PLIST 1.0//EN\" \"http://www.apple.com/DTDs/PropertyList-1.0.dtd\">\n<plist version=\"1.0\">\n<dict>\n\t<key>Label</key>\n\t<string>";

/// The plist between the label and the binary.
pub const PLIST_PROGRAM: &'static str =
    "</string>\n\t<key>ProgramArguments</key>\n\t<array>\n\t\t<string>";

/// The plist after the binary.
pub const PLIST_TAIL: &'static str =
    "</string>\n\t</array>\n\t<key>RunAtLoad</key>\n\t<true/>\n\t<key>ProcessType</key>\n\t<string>Interactive</string>\n</dict>\n</plist>\n";

/// The LaunchAgent plist that runs a binary at login.
pub open spec fn plist_text(binary: Seq<char>) -> Seq<char> {
    PLIST_HEAD@ + APP_LABEL@ + PLIST_PROGRAM@ + binary + PLIST_TAIL@
}

/// Renders the LaunchAgent plist that runs `binary` at login.
pub fn plist(binary: &str) -> (r: String)
    ensures
        r@ == plist_text(binary@),
{
    text::text5(PLIST_HEAD, APP_LABEL, PLIST_PROGRAM, binary, PLIST_TAIL)
}

/// What a click on the launch-at-login row does.
#[derive(Debug, Clone, Copy, PartialEq, Eq, Structural)]
pub enum Switch {
    /// Write the plist and load it.
    Enable,
    /// Unload the agent and remove the plist.
    Disable,
}

/// What a click on the row does.
pub open spec fn switched(installed: bool) -> Switch {
    if installed {
        Switch::Disable
    } else {
        Switch::Enable
    }
}

/// Returns what a click on the row does: the agent is installed when its plist
/// is there.
pub fn toggle(installed: bool) -> (r: Switch)
    ensures
        r == switched(installed),
{
    if installed {
        Switch::Disable
    } else {
        Switch::Enable
    }
}

/// A click enables what is not there and disables what is.
pub proof fn a_click_changes_launch_at_login(installed: bool)
    ensures
        switched(installed) == Switch::Enable <==> !installed,
        switched(installed) == Switch::Disable <==> installed,
{
}

/// The plist of the app names its label and runs the binary that it was given.
pub proof fn the_plist_runs_the_binary(binary: Seq<char>)
    ensures
        ({
            let text = plist_text(binary);
            let before = PLIST_HEAD@ + APP_LABEL@ + PLIST_PROGRAM@;
            &&& text.take(before.len() as int) == before
            &&& text.subrange(before.len() as int, (before.len() + binary.len()) as int) == binary
            &&& text.skip((before.len() + binary.len()) as int) == PLIST_TAIL@
        }),
{
    let text = plist_text(binary);
    let before = PLIST_HEAD@ + APP_LABEL@ + PLIST_PROGRAM@;
    assert(text.take(before.len() as int) =~= before);
    assert(text.subrange(before.len() as int, (before.len() + binary.len()) as int) =~= binary);
    assert(text.skip((before.len() + binary.len()) as int) =~= PLIST_TAIL@);
}

} // verus!
