use vstd::prelude::*;

use crate::keys::{KeyCode, KeyEvent, KeyModifiers};

verus! {

/// Reads keys for the editor.
pub struct Reader {}

/// Alt-q ends the editor.
pub open spec fn is_quit(event: KeyEvent) -> bool {
    event.code == KeyCode::Char('q') && event.modifiers == KeyModifiers::Alt
}

impl Reader {
    pub fn new() -> (r: Reader) {
        Reader {  }
    }

    /// Whether the editor keeps running after this key: it stops on Alt-q only.
    pub fn read_quit(&self, event: KeyEvent) -> (keep: bool)
        ensures
            keep == !(event.code == KeyCode::Char('q') && event.modifiers == KeyModifiers::Alt),
    {
        match (event.code, event.modifiers) {
            (KeyCode::Char('q'), KeyModifiers::Alt) => false,
            _ => true,
        }
    }
}

/// The editor stops on Alt-q and on no other key: a key stops it exactly when it is the
/// letter q held with Alt alone.
pub proof fn law_quit_only_on_alt_q(event: KeyEvent)
    ensures
        is_quit(event) <==> (event.code == KeyCode::Char('q') && event.modifiers == KeyModifiers::Alt),
        event.code == KeyCode::Other ==> !is_quit(event),
        event.modifiers != KeyModifiers::Alt ==> !is_quit(event),
{
}

} // verus!
