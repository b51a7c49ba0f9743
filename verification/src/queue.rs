//! The ordered list of open documents, with circular next/previous
//! navigation and focus by path or index.

use crate::textutil::str_eq;
use vstd::prelude::*;
use vstd::string::*;

verus! {

/// One open document: its path and its full text.
#[derive(Clone, Debug, PartialEq, Eq)]
pub struct QueuedDocument {
    pub path: String,
    pub content: String,
}

impl QueuedDocument {
    pub fn new(path: String, content: String) -> (d: Self)
        ensures
            d.path == path,
            d.content == content,
    {
        Self { path, content }
    }
}

/// A non-empty list of open documents with one focused document.
#[derive(Clone, Debug)]
pub struct DocumentQueue {
    docs: Vec<QueuedDocument>,
    current: usize,
}

impl DocumentQueue {
    /// The documents, in queue order.
    pub closed spec fn spec_docs(&self) -> Seq<QueuedDocument> {
        self.docs@
    }

    /// The index of the focused document.
    pub closed spec fn spec_current(&self) -> int {
        self.current as int
    }

    /// The queue is never empty and the focus always names a document.
    pub open spec fn wf(&self) -> bool {
        self.spec_docs().len() > 0 && 0 <= self.spec_current() < self.spec_docs().len()
    }

    /// Build a queue focused on the first document; an empty list is
    /// rejected.
    pub fn new(docs: Vec<QueuedDocument>) -> (r: Result<Self, String>)
        ensures
            docs@.len() == 0 ==> (r matches Err(e) && e@ == "Document queue cannot be empty"@),
            docs@.len() > 0 ==> (r matches Ok(q) && q.wf() && q.spec_docs() == docs@
                && q.spec_current() == 0),
    {
        if docs.len() == 0 {
            return Err("Document queue cannot be empty".to_owned());
        }
        Ok(Self { docs, current: 0 })
    }

    pub fn len(&self) -> (n: usize)
        ensures
            n == self.spec_docs().len(),
    {
        self.docs.len()
    }

    pub fn current_index(&self) -> (i: usize)
        ensures
            i == self.spec_current(),
    {
        self.current
    }

    /// The focused document.
    pub fn current(&self) -> (d: &QueuedDocument)
        requires
            self.wf(),
        ensures
            *d == self.spec_docs()[self.spec_current()],
    {
        &self.docs[self.current]
    }

    /// All documents, in order.
    pub fn documents(&self) -> (d: &Vec<QueuedDocument>)
        ensures
            d@ == self.spec_docs(),
    {
        &self.docs
    }

    /// Move the focus one document forward, wrapping at the end; a queue of
    /// one document stays put.
    pub fn next(&mut self)
        requires
            old(self).wf(),
        ensures
            final(self).wf(),
            final(self).spec_docs() == old(self).spec_docs(),
            final(self).spec_current() == if old(self).spec_docs().len() > 1 {
                (old(self).spec_current() + 1) % (old(self).spec_docs().len() as int)
            } else {
                old(self).spec_current()
            },
    {
        if self.docs.len() > 1 {
            self.current = (self.current + 1) % self.docs.len();
        }
    }

    /// Move the focus one document back, wrapping at the start; a queue of
    /// one document stays put.
    pub fn prev(&mut self)
        requires
            old(self).wf(),
        ensures
            final(self).wf(),
            final(self).spec_docs() == old(self).spec_docs(),
            final(self).spec_current() == if old(self).spec_docs().len() > 1 {
                if old(self).spec_current() == 0 {
                    old(self).spec_docs().len() - 1
                } else {
                    old(self).spec_current() - 1
                }
            } else {
                old(self).spec_current()
            },
    {
        if self.docs.len() > 1 {
            self.current = if self.current == 0 {
                self.docs.len() - 1
            } else {
                self.current - 1
            };
        }
    }

    /// Append a document and focus it.
    pub fn push_and_focus(&mut self, doc: QueuedDocument)
        requires
            old(self).wf(),
        ensures
            final(self).wf(),
            final(self).spec_docs() == old(self).spec_docs().push(doc),
            final(self).spec_current() == old(self).spec_docs().len(),
    {
        self.docs.push(doc);
        self.current = self.docs.len() - 1;
    }

    /// Focus the first document with the given path, if one is queued.
    pub fn focus_existing(&mut self, path: &str) -> (r: bool)
        requires
            old(self).wf(),
        ensures
            final(self).wf(),
            final(self).spec_docs() == old(self).spec_docs(),
            r == exists|i: int|
                0 <= i < old(self).spec_docs().len() && (#[trigger] old(self).spec_docs()[i]).path@
                    == path@,
            r ==> {
                &&& old(self).spec_docs()[final(self).spec_current()].path@ == path@
                &&& forall|j: int|
                    0 <= j < final(self).spec_current() ==> (#[trigger] old(
                        self,
                    ).spec_docs()[j]).path@ != path@
            },
            !r ==> final(self).spec_current() == old(self).spec_current(),
    {
        let mut i: usize = 0;
        while i < self.docs.len()
            invariant
                i <= self.docs@.len(),
                *self == *old(self),
                forall|j: int| 0 <= j < i ==> (#[trigger] self.docs@[j]).path@ != path@,
            decreases self.docs@.len() - i,
        {
            if str_eq(self.docs[i].path.as_str(), path) {
                self.current = i;
                return true;
            }
            i = i + 1;
        }
        false
    }

    /// Focus the document at an absolute index, if it exists.
    pub fn focus_index(&mut self, idx: usize) -> (r: bool)
        requires
            old(self).wf(),
        ensures
            final(self).wf(),
            final(self).spec_docs() == old(self).spec_docs(),
            r == (idx < old(self).spec_docs().len()),
            r ==> final(self).spec_current() == idx,
            !r ==> final(self).spec_current() == old(self).spec_current(),
    {
        if idx < self.docs.len() {
            self.current = idx;
            true
        } else {
            false
        }
    }
}

} // verus!
