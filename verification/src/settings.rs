use std::collections::HashMap;
use vstd::prelude::*;

verus! {

/// What the user has configured.
pub struct Settings {
    /// Whether entries whose name starts with a dot are listed.
    pub show_hidden: bool,
    /// Color names by file extension.
    pub ext: HashMap<String, String>,
}

impl Default for Settings {
    /// Hidden entries stay hidden, and no extension has a color of its own.
    fn default() -> (settings: Settings)
        ensures
            !settings.show_hidden,
            settings.ext@ == Map::<String, String>::empty(),
    {
        Settings { show_hidden: false, ext: HashMap::new() }
    }
}

} // verus!
