//! The context shared by every rendered page.

use vstd::prelude::*;

verus! {

/// Common context shared by every rendered page.
pub struct PageContext {
    pub current_user: Option<String>,
    pub active_nav: String,
}

impl PageContext {
    /// The context for a page: the signed-in user, if any, and the active
    /// navigation entry.
    pub fn new(current_user: Option<String>, active_nav: &str) -> (p: PageContext)
        ensures
            p.current_user == current_user,
            p.active_nav@ == active_nav@,
    {
        PageContext { current_user, active_nav: String::from_str(active_nav) }
    }
}

} // verus!
