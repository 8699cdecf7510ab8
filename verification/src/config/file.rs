//! The configuration file: where it is, and what a fresh one holds.
use vstd::prelude::*;

verus! {

/// The configuration file at a path.
pub struct CFile {
    path: String,
}

/// The text written to a configuration file that does not exist yet.
pub const DEFAULT_CONFIG: &'static str = "{
    \"processList\": [
        {
            \"name\": \"test1\",
            \"alias\": \"test1\",
            \"execute\": \"test\",
            \"args\": [
                \"-port\", \"50005\"
            ],
            \"directory\": \".\",
            \"isAuto\": true,
            \"restartTimeS\": 0
        }
    ]
}";

impl CFile {
    /// The path of the file.
    pub closed spec fn spec_path(&self) -> Seq<char> {
        self.path@
    }

    pub fn new(path: &str) -> (r: CFile)
        ensures
            r.spec_path() == path@,
    {
        CFile { path: path.to_owned() }
    }

    pub fn path(&self) -> (r: &str)
        ensures
            r@ == self.spec_path(),
    {
        self.path.as_str()
    }
}

} // verus!
