use vstd::prelude::*;

use crate::error::RedwoodError;
use crate::paths::{join_path, spec_join};
use crate::Result;

verus! {

/// The session operations the commands need; implemented outside the
/// library by the real multiplexer driver and by test doubles alike.
/// Killing a session that does not exist is an expected steady state, which
/// a driver reports as success; attaching from inside a session switches
/// the running client instead of nesting.
pub trait Tmux {
    fn new_session(&self, session_name: &str, start_directory: &str) -> Result<()>;

    fn kill_session(&self, session_name: &str) -> Result<()>;

    fn attach_to_session(&self, session_name: &str) -> Result<()>;
}

/// The multiplexer configuration file under the user's configuration
/// directory, resolved from the two variables the caller read from its
/// environment.
pub fn get_tmux_config_path(xdg_config_home: Option<&str>, home: Option<&str>) -> (r: Result<
    String,
>)
    ensures
        match (xdg_config_home, home) {
            (Some(x), _) => r matches Ok(p) && p@ == spec_join(
                spec_join(x@, "tmux"@),
                ".tmux.conf"@,
            ),
            (None, Some(h)) => r matches Ok(p) && p@ == spec_join(
                spec_join(spec_join(h@, ".config"@), "tmux"@),
                ".tmux.conf"@,
            ),
            (None, None) => r == Err::<String, RedwoodError>(RedwoodError::ConfigPathUnresolvable),
        },
{
    let configs_dir = match xdg_config_home {
        Some(x) => x.to_owned(),
        None => match home {
            Some(h) => join_path(h, ".config"),
            None => {
                return Err(RedwoodError::ConfigPathUnresolvable);
            },
        },
    };
    let dir = join_path(configs_dir.as_str(), "tmux");
    Ok(join_path(dir.as_str(), ".tmux.conf"))
}

} // verus!
