//! The context a line-handling thread works for.
use vstd::prelude::*;

verus! {

/// Which target and manifest a thread's output belongs to.
pub struct ThreadLocalContext {
    pub target_name: String,
    pub manifest_path: String,
}

impl ThreadLocalContext {
    /// An empty context.
    pub fn new() -> (r: ThreadLocalContext)
        ensures
            r.target_name@.len() == 0,
            r.manifest_path@.len() == 0,
    {
        ThreadLocalContext { target_name: String::new(), manifest_path: String::new() }
    }

    /// Records the target name and manifest path in the context.
    pub fn set_context(&mut self, target_name: &str, manifest_path: &str)
        ensures
            final(self).target_name@ == target_name@,
            final(self).manifest_path@ == manifest_path@,
    {
        self.target_name = String::from_str(target_name);
        self.manifest_path = String::from_str(manifest_path);
    }

    /// A copy of the context.
    pub fn get_context(&self) -> (r: ThreadLocalContext)
        ensures
            r.target_name@ == self.target_name@,
            r.manifest_path@ == self.manifest_path@,
    {
        ThreadLocalContext { target_name: self.target_name.clone(), manifest_path: self.manifest_path.clone() }
    }
}

} // verus!
