//! The program to hand over to once the destination is ready.
//!
//! Spawning the process is the caller's work; the command line it runs is
//! decided here.

use vstd::prelude::*;

verus! {

/// The program and its arguments.
pub struct Launcher {
    pub program: String,
    pub arguments: Vec<String>,
}

impl Launcher {
    /// The full command line: the program followed by its arguments.
    pub fn command_line(&self) -> (r: Vec<String>)
        ensures
            r@.len() == 1 + self.arguments@.len(),
            r@[0] == self.program,
            forall|i: int| 0 <= i < self.arguments@.len() ==> r@[i + 1] == self.arguments@[i],
    {
        let mut r: Vec<String> = Vec::new();
        r.push(self.program.clone());
        let mut i: usize = 0;
        while i < self.arguments.len()
            invariant
                0 <= i <= self.arguments.len(),
                r@.len() == 1 + i as int,
                r@[0] == self.program,
                forall|k: int| 0 <= k < i ==> r@[k + 1] == self.arguments@[k],
            decreases self.arguments.len() - i,
        {
            r.push(self.arguments[i].clone());
            i += 1;
        }
        r
    }
}

} // verus!
