//! A session as the window and pane listings describe it.

use vstd::prelude::*;
use crate::snapshot::tmux::window::Window;

verus! {

#[derive(Debug)]
pub struct Session {
    pub name: String,
    pub windows: Vec<Window>,
}

impl Session {
    pub fn new(name: String, windows: Vec<Window>) -> (s: Session)
        ensures
            s.name@ == name@,
            s.windows@ == windows@,
    {
        Session { name, windows }
    }

    /// The first window with the given name.
    pub fn find_window(&self, name: &str) -> (r: Option<&Window>)
        ensures
            match r {
                Some(w) => exists|i: int| {
                    &&& 0 <= i < self.windows@.len()
                    &&& self.windows@[i] == *w
                    &&& w.name@ == name@
                    &&& forall|j: int| 0 <= j < i ==> (#[trigger] self.windows@[j]).name@ != name@
                },
                None => forall|j: int| 0 <= j < self.windows@.len() ==> (#[trigger] self.windows@[j]).name@ != name@,
            },
    {
        let mut i: usize = 0;
        while i < self.windows.len()
            invariant
                i <= self.windows.len(),
                forall|j: int| 0 <= j < i ==> (#[trigger] self.windows@[j]).name@ != name@,
            decreases self.windows.len() - i,
        {
            if crate::text::str_eq(self.windows[i].name.as_str(), name) {
                return Some(&self.windows[i]);
            }
            i = i + 1;
        }
        None
    }
}

} // verus!
