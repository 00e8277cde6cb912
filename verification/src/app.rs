//! The interactive viewer's state: the endpoints last probed.
use vstd::prelude::*;
use crate::endpoint::Endpoint;

verus! {

pub struct App {
    pub endpoints: Vec<Endpoint>,
}

impl App {
    pub fn new() -> (r: Self)
        ensures
            r.endpoints@.len() == 0,
    {
        App { endpoints: Vec::new() }
    }

    /// Replaces the endpoint list with a fresh probe result.
    pub fn refresh(&mut self, probed: Vec<Endpoint>)
        ensures
            final(self).endpoints@ == probed@,
    {
        self.endpoints = probed;
    }
}

} // verus!
