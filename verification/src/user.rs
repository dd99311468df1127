use vstd::prelude::*;

use crate::error::RedwoodError;
use crate::paths::{join_path, spec_join};
use crate::Result;

verus! {

/// The user's configuration directory, resolved from the two variables the
/// caller read from its environment.
pub fn get_user_config_directory(xdg_config_home: Option<&str>, home: Option<&str>) -> (r: Result<
    String,
>)
    ensures
        match (xdg_config_home, home) {
            (Some(x), _) => r matches Ok(p) && p@ == x@,
            (None, Some(h)) => r matches Ok(p) && p@ == spec_join(h@, ".config"@),
            (None, None) => r == Err::<String, RedwoodError>(RedwoodError::ConfigPathUnresolvable),
        },
{
    match xdg_config_home {
        Some(x) => Ok(x.to_owned()),
        None => match home {
            Some(h) => Ok(join_path(h, ".config")),
            None => Err(RedwoodError::ConfigPathUnresolvable),
        },
    }
}

} // verus!
