//! A fixed-size byte buffer.

use vstd::prelude::*;

verus! {

/// A zero-initialised buffer whose length is fixed when it is created.
#[derive(Debug)]
pub struct MemoryPage {
    mem: Vec<u8>,
}

impl View for MemoryPage {
    type V = Seq<u8>;

    closed spec fn view(&self) -> Seq<u8> {
        self.mem@
    }
}

impl MemoryPage {
    /// Creates new instance of MemoryPage with the specific size
    pub fn new(len: usize) -> (page: Self)
        ensures
            page@ == Seq::new(len as nat, |i: int| 0u8),
    {
        let page = MemoryPage { mem: vec![0u8; len] };
        assert(page@ =~= Seq::new(len as nat, |i: int| 0u8));
        page
    }

    /// Gets reference to page data
    pub fn data(&self) -> (bytes: &[u8])
        ensures
            bytes@ == self@,
    {
        self.mem.as_slice()
    }

    /// Gets mutable reference to page data
    pub fn data_mut(&mut self) -> (bytes: &mut [u8])
        ensures
            bytes@ == old(self)@,
            final(self)@ == final(bytes)@,
    {
        self.mem.as_mut_slice()
    }
}

} // verus!
