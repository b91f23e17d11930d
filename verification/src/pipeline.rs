//! The instruction window of a core: eight instruction words that were
//! fetched together from eight addresses in a row.

use vstd::prelude::*;

verus! {

/// The number of words in the window.
pub const PIPE_SIZE: usize = 8;

/// What a window holds: the address of its first word, if it has been
/// filled, and its words.
pub struct PipelineView {
    /// The address of the first word; `None` stands for no address, which is
    /// what a window holds before it is first filled.
    pub base: Option<u64>,
    /// The words. The word at index `i` is the one stored at `base + i`.
    pub words: Seq<u64>,
}

impl PipelineView {
    /// Whether the window holds the word of an address: it has been filled,
    /// and the address is one of the eight from its base on.
    pub open spec fn hit(self, address: u64) -> bool {
        self.base matches Some(base) && base <= address < base + PIPE_SIZE
    }

    /// The word of an address, if the window holds it.
    pub open spec fn lookup(self, address: u64) -> Option<u64> {
        if self.hit(address) {
            Some(self.words[address - self.base.unwrap()])
        } else {
            None
        }
    }

    /// A window that has never been filled.
    pub open spec fn empty() -> PipelineView {
        PipelineView { base: None, words: Seq::new(PIPE_SIZE as nat, |i: int| 0u64) }
    }

    /// A window filled with the given words from the given address on.
    pub open spec fn filled(base_address: u64, words: Seq<u64>) -> PipelineView {
        PipelineView { base: Some(base_address), words: words }
    }
}

/// The instruction window of a core. It is replaced as a whole and never
/// patched.
#[derive(Clone, Debug)]
pub struct PipelineCache {
    base: Option<u64>,
    words: [u64; 8],
}

impl View for PipelineCache {
    type V = PipelineView;

    closed spec fn view(&self) -> PipelineView {
        PipelineView { base: self.base, words: self.words@ }
    }
}

impl PipelineCache {
    /// A window that has never been filled: every lookup misses.
    pub fn new() -> (pipe: PipelineCache)
        ensures
            pipe@ == PipelineView::empty(),
            forall|address: u64| pipe@.lookup(address) is None,
    {
        let pipe = PipelineCache { base: None, words: [0u64;8] };
        assert(pipe.words@ =~= Seq::new(PIPE_SIZE as nat, |i: int| 0u64));
        pipe
    }

    /// The word stored at an address, if the window holds it: the lookup
    /// hits exactly on the eight addresses from the base of the last refill
    /// on.
    pub fn lookup(&self, address: u64) -> (word: Option<u64>)
        ensures
            word == self@.lookup(address),
            word is Some <==> self@.hit(address),
    {
        match self.base {
            Some(base) => {
                if base <= address && address - base < 8 {
                    Some(self.words[(address - base) as usize])
                } else {
                    None
                }
            },
            None => None,
        }
    }

    /// Replaces the window by eight words that start at `base_address`. A
    /// lookup of `base_address` then hits.
    pub fn refill(&mut self, base_address: u64, words: [u64; 8])
        ensures
            final(self)@ == PipelineView::filled(base_address, words@),
            final(self)@.lookup(base_address) == Some(words@[0]),
    {
        self.base = Some(base_address);
        self.words = words;
    }
}

} // verus!
