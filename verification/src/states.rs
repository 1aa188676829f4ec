use vstd::prelude::*;

verus! {

/// Which screen the editor shows: the list of notes, or one note being edited.
#[derive(Clone, Copy, Debug, PartialEq, Eq, Structural)]
pub enum States {
    Setup,
    Editor,
}

} // verus!
