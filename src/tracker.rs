use vstd::prelude::*;

verus! {

/// Why the focus tracking could not begin.
#[derive(Debug, Clone, Copy, PartialEq, Eq, Structural)]
pub enum StartError {
    /// The first walk of the tree found no focused window.
    NoFocusedWindow,
}

/// The state of the focus event loop: the window believed to be focused.
#[derive(Debug, Clone, Copy, PartialEq, Eq, Structural)]
pub struct FocusTracker {
    pub current: i64,
}

impl FocusTracker {
    /// Begins tracking from the focus that the first walk of the tree found;
    /// without one there is nothing to track.
    pub fn start(found: Option<i64>) -> (r: Result<FocusTracker, StartError>)
        ensures
            match found {
                Some(id) => r == Ok::<FocusTracker, StartError>(FocusTracker { current: id }),
                None => r == Err::<FocusTracker, StartError>(StartError::NoFocusedWindow),
            },
    {
        match found {
            Some(id) => Ok(FocusTracker { current: id }),
            None => Err(StartError::NoFocusedWindow),
        }
    }

    /// Handles a change of focus to `new_id`: the window that lost the focus
    /// is set to `dim`, then the new one to `full`, and `new_id` is tracked.
    pub fn focus_changed<O: Copy>(&mut self, new_id: i64, dim: O, full: O) -> (cmds: Vec<(i64, O)>)
        ensures
            cmds@ == seq![(old(self).current, dim), (new_id, full)],
            final(self).current == new_id,
    {
        let mut cmds: Vec<(i64, O)> = Vec::new();
        cmds.push((self.current, dim));
        cmds.push((new_id, full));
        self.current = new_id;
        assert(cmds@ =~= seq![(old(self).current, dim), (new_id, full)]);
        cmds
    }
}

} // verus!
