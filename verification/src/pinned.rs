//! Records that keep a reference back to their own contents.
//!
//! Self-referential state is why a task's computation must stay at a stable
//! storage location once queries have begun. Here the back-reference is
//! modelled as an owned snapshot taken at initialisation: `init` records the
//! text the record held at that moment, and the snapshot keeps that value
//! whatever happens to the record afterwards.

use vstd::prelude::*;
use vstd::string::StringExecFns;

verus! {

/// A record holding a text and, once initialised, a snapshot of it.
#[derive(Debug)]
pub struct Test {
    pub a: String,
    pub b: Option<String>,
}

impl Test {
    /// A fresh, uninitialised record holding `txt`.
    pub fn new(txt: &str) -> (t: Test)
        ensures
            t.a@ == txt@,
            t.b is None,
    {
        Test { a: String::from_str(txt), b: None }
    }

    /// Record the snapshot of the text held right now.
    pub fn init(&mut self)
        ensures
            final(self).a@ == old(self).a@,
            final(self).b matches Some(s) && s@ == old(self).a@,
    {
        let snapshot = self.a.clone();
        self.b = Some(snapshot);
    }

    /// The text held now.
    pub fn a(&self) -> (r: &str)
        ensures
            r@ == self.a@,
    {
        self.a.as_str()
    }
}

/// Like `Test`, but meant to stay where it was initialised: its accessors
/// never move the record, so the snapshot keeps describing the same record.
#[derive(Debug)]
pub struct TestPin {
    pub a: String,
    pub b: Option<String>,
}

impl TestPin {
    /// A fresh, uninitialised record holding `txt`.
    pub fn new(txt: &str) -> (t: TestPin)
        ensures
            t.a@ == txt@,
            t.b is None,
    {
        TestPin { a: String::from_str(txt), b: None }
    }

    /// Record the snapshot of the text held right now.
    pub fn init(&mut self)
        ensures
            final(self).a@ == old(self).a@,
            final(self).b matches Some(s) && s@ == old(self).a@,
    {
        let snapshot = self.a.clone();
        self.b = Some(snapshot);
    }

    /// The text held now.
    pub fn a(&self) -> (r: &str)
        ensures
            r@ == self.a@,
    {
        self.a.as_str()
    }
}

} // verus!
