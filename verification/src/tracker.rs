//! Output tracker for the "new" view mode: the raw bytes produced by the PTY
//! since the last read.

use vstd::prelude::*;

use crate::ansi::strip_ansi;
use crate::ansi::strip_spec;
use crate::strutil::lossy_of;
use crate::strutil::utf8_lossy;
use crate::types::OutputFormat;

verus! {

/// Tracks output since the last read.
#[derive(Debug)]
pub struct OutputTracker {
    /// Raw bytes since the last read.
    buffer: Vec<u8>,
}

impl OutputTracker {
    /// The tracked bytes; for contracts.
    pub closed spec fn bytes(&self) -> Seq<u8> {
        self.buffer@
    }

    /// What rendering the tracked bytes yields in the given format: the
    /// bytes decoded lossily as UTF-8, with ANSI codes stripped for Plain.
    pub open spec fn rendered(&self, format: OutputFormat) -> Seq<char> {
        match format {
            OutputFormat::Plain => strip_spec(lossy_of(self.bytes())),
            OutputFormat::Raw => lossy_of(self.bytes()),
        }
    }

    /// A fresh, empty tracker.
    pub fn new() -> (t: OutputTracker)
        ensures
            t.bytes() == Seq::<u8>::empty(),
    {
        OutputTracker { buffer: Vec::new() }
    }

    /// Append new PTY output.
    pub fn append(&mut self, data: &[u8])
        ensures
            final(self).bytes() == old(self).bytes() + data@,
    {
        let mut i: usize = 0;
        while i < data.len()
            invariant
                i <= data.len(),
                self.buffer@ == old(self).buffer@ + data@.subrange(0, i as int),
            decreases data.len() - i,
        {
            self.buffer.push(data[i]);
            proof {
                assert(data@.subrange(0, i + 1) == data@.subrange(0, i as int).push(data@[i as int]));
            }
            i = i + 1;
        }
        proof {
            assert(data@.subrange(0, data@.len() as int) =~= data@);
        }
    }

    /// Render and clear the tracked output.
    pub fn take(&mut self, format: OutputFormat) -> (r: String)
        ensures
            r@ == old(self).rendered(format),
            final(self).bytes() == Seq::<u8>::empty(),
    {
        let content = self.format_content(format);
        self.buffer.clear();
        content
    }

    /// Render the tracked output without clearing it.
    pub fn peek(&self, format: OutputFormat) -> (r: String)
        ensures
            r@ == self.rendered(format),
    {
        self.format_content(format)
    }

    /// Whether any output was tracked since the last read.
    pub fn has_content(&self) -> (r: bool)
        ensures
            r == (self.bytes().len() != 0),
    {
        self.buffer.len() != 0
    }

    /// Clear without returning.
    pub fn clear(&mut self)
        ensures
            final(self).bytes() == Seq::<u8>::empty(),
    {
        self.buffer.clear();
    }

    /// The raw buffer length.
    pub fn len(&self) -> (r: usize)
        ensures
            r == self.bytes().len(),
    {
        self.buffer.len()
    }

    /// Whether the buffer is empty.
    pub fn is_empty(&self) -> (r: bool)
        ensures
            r == (self.bytes().len() == 0),
    {
        self.buffer.len() == 0
    }

    /// Render the tracked bytes in the given format.
    fn format_content(&self, format: OutputFormat) -> (r: String)
        ensures
            r@ == self.rendered(format),
    {
        let raw = utf8_lossy(&self.buffer);
        match format {
            OutputFormat::Plain => strip_ansi(raw.as_str()),
            OutputFormat::Raw => raw,
        }
    }
}

impl Default for OutputTracker {
    fn default() -> (t: OutputTracker)
        ensures
            t.bytes() == Seq::<u8>::empty(),
    {
        OutputTracker::new()
    }
}

/// After appending `x` and then `y` to a tracker, taking the raw view
/// returns the lossy UTF-8 rendering of `x` followed by `y`, and the tracker
/// is left without content.
pub proof fn lemma_tracker_round_trip(t0: OutputTracker, t1: OutputTracker, t2: OutputTracker, x: Seq<u8>, y: Seq<u8>)
    requires
        t0.bytes() == Seq::<u8>::empty(),
        t1.bytes() == t0.bytes() + x,
        t2.bytes() == t1.bytes() + y,
    ensures
        t2.rendered(OutputFormat::Raw) == lossy_of(x + y),
        t2.bytes() == x + y,
{
    assert(t2.bytes() =~= x + y);
}

} // verus!
