//! One piece of a streamed response.
use vstd::prelude::*;

verus! {

/// A chunk of a streaming response. A `Full` chunk ends the stream; a `Full`
/// chunk with no bytes is the end-of-stream marker that follows `Part`s.
#[derive(Debug)]
pub enum ResponseChunk {
    Part(Vec<u8>),
    Full(Vec<u8>),
}

/// Wire value of `reply_type` for a chunk that ends the response.
pub const REPLY_TYPE_FULL: i32 = 0;

/// Wire value of `reply_type` for a chunk that more chunks follow.
pub const REPLY_TYPE_PARTIAL: i32 = 1;

/// The mathematical form of a [`ResponseChunk`].
pub enum ChunkView {
    Part(Seq<u8>),
    Full(Seq<u8>),
}

impl View for ResponseChunk {
    type V = ChunkView;

    open spec fn view(&self) -> ChunkView {
        match self {
            ResponseChunk::Part(v) => ChunkView::Part(v@),
            ResponseChunk::Full(v) => ChunkView::Full(v@),
        }
    }
}

impl ResponseChunk {
    /// The bytes carried by the chunk.
    pub open spec fn bytes(&self) -> Seq<u8> {
        match self {
            ResponseChunk::Part(v) => v@,
            ResponseChunk::Full(v) => v@,
        }
    }

    /// A `Full` chunk with no bytes: the end-of-stream marker.
    pub open spec fn spec_is_eos(&self) -> bool {
        self is Full && self.bytes().len() == 0
    }

    pub fn is_full(&self) -> (r: bool)
        ensures
            r == self is Full,
    {
        match self {
            ResponseChunk::Full(_) => true,
            ResponseChunk::Part(_) => false,
        }
    }

    pub fn is_eos(&self) -> (r: bool)
        ensures
            r == self.spec_is_eos(),
    {
        match self {
            ResponseChunk::Full(v) => v.len() == 0,
            ResponseChunk::Part(_) => false,
        }
    }

    /// The `reply_type` that a call reply carrying this chunk has on the wire.
    pub fn reply_type(&self) -> (r: i32)
        ensures
            r == (if self is Full { REPLY_TYPE_FULL } else { REPLY_TYPE_PARTIAL }),
    {
        match self {
            ResponseChunk::Full(_) => REPLY_TYPE_FULL,
            ResponseChunk::Part(_) => REPLY_TYPE_PARTIAL,
        }
    }

    pub fn into_bytes(self) -> (r: Vec<u8>)
        ensures
            r@ == self.bytes(),
    {
        match self {
            ResponseChunk::Full(v) => v,
            ResponseChunk::Part(v) => v,
        }
    }
}

} // verus!
