//! What one invocation of the tool carries around: its configuration and
//! the shell actions queued so far.

use vstd::prelude::*;

use crate::config::Config;
use crate::shell_actions::ShellAction;

verus! {

/// The state one command runs against.
pub struct Context {
    pub config: Config,
    pub shell_actions: Vec<ShellAction>,
}

impl Context {
    /// A context with no shell actions queued yet.
    pub fn new(config: Config) -> (r: Self)
        ensures
            r.shell_actions@.len() == 0,
    {
        Context { config, shell_actions: Vec::new() }
    }

    /// Queue one shell action.
    pub fn push_shell_action(&mut self, action: ShellAction)
        ensures
            final(self).shell_actions@ == old(self).shell_actions@.push(action),
            final(self).config == old(self).config,
    {
        self.shell_actions.push(action);
    }
}

} // verus!
