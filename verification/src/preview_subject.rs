use vstd::prelude::*;
use vstd::std_specs::cmp::PartialEqSpecImpl;

verus! {

/// What the finder's preview is showing: the file, plus the match's line
/// within it (Content mode only). Two subjects are the same when both the
/// path text and the line agree.
#[derive(Clone, Debug)]
pub struct PreviewSubject {
    pub path: String,
    pub line: Option<u64>,
}

impl PartialEq for PreviewSubject {
    fn eq(&self, other: &Self) -> (r: bool) {
        self.path == other.path && self.line == other.line
    }
}

impl PartialEqSpecImpl for PreviewSubject {
    open spec fn obeys_eq_spec() -> bool {
        true
    }

    open spec fn eq_spec(&self, other: &Self) -> bool {
        self.path@ == other.path@ && self.line == other.line
    }
}

} // verus!
