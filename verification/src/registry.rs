//! The output-path registry: generation runs once per output path, however
//! many call sites target it. The registry is an explicit value; a host
//! program serializes access to it with a lock of its own.

use vstd::prelude::*;

use crate::text::str_eq;

verus! {

/// The output paths already generated.
#[derive(Debug)]
pub struct OutputRegistry {
    /// The registered paths, in registration order.
    pub paths: Vec<String>,
}

impl OutputRegistry {
    /// An empty registry.
    pub fn new() -> (r: Self)
        ensures
            r.paths@.len() == 0,
    {
        Self { paths: Vec::new() }
    }

    /// Whether `path` has been registered.
    pub fn contains(&self, path: &str) -> (r: bool)
        ensures
            r == self.paths.deep_view().contains(path@),
    {
        let n: usize = self.paths.len();
        let mut i: usize = 0;
        while i < n
            invariant
                i <= n,
                n == self.paths@.len(),
                forall|k: int| 0 <= k < i ==> self.paths.deep_view()[k] != path@,
            decreases n - i,
        {
            if str_eq(self.paths[i].as_str(), path) {
                proof {
                    assert(self.paths.deep_view()[i as int] == path@);
                }
                return true;
            }
            i = i + 1;
        }
        proof {
            assert(forall|k: int|
                0 <= k < self.paths.deep_view().len() ==> self.paths.deep_view()[k] != path@);
        }
        false
    }

    /// Inserts `path` if absent. Returns whether it was newly inserted — the
    /// caller generates output only then, so one path is generated once.
    pub fn register(&mut self, path: &str) -> (added: bool)
        ensures
            added == !old(self).paths.deep_view().contains(path@),
            added ==> final(self).paths.deep_view() == old(self).paths.deep_view().push(path@),
            !added ==> *final(self) == *old(self),
    {
        if self.contains(path) {
            return false;
        }
        self.paths.push(String::from_str(path));
        proof {
            assert(self.paths.deep_view() =~= old(self).paths.deep_view().push(path@));
        }
        true
    }
}

} // verus!
