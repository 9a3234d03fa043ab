//! The application as a whole. Its HTTP routes are wired outside this library.

use vstd::prelude::*;

verus! {

pub struct App;

impl App {
    pub fn new() -> (r: App)
        ensures
            r == App,
    {
        App
    }
}

} // verus!
