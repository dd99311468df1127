use vstd::prelude::*;

use crate::git::Git;
use crate::tmux::Tmux;

verus! {

/// The collaborators a command runs against: the session driver and the
/// repository driver.
pub struct Context<T: Tmux, G: Git> {
    pub tmux: T,
    pub git: G,
}

impl<T: Tmux, G: Git> Context<T, G> {
    pub fn new(tmux: T, git: G) -> (r: Context<T, G>)
        ensures
            r.tmux == tmux,
            r.git == git,
    {
        Context { tmux, git }
    }
}

} // verus!
