//! The text buffer itself.

use crate::error::BufferError;
use crate::growth::{
    capacity_after_insert, capacity_after_inserts, grow, DEFAULT_BUFFER_CAPACITY,
};
use crate::splice::{cut, inserted_one_by_one, spliced};
use crate::text::text_of;
use core::ops::Range;
use vstd::prelude::*;
use vstd::utf8::encode_utf8;

verus! {

/// A document's content as one dense run of bytes, with the amount of
/// storage reserved for it.
///
/// The capacity is the number of bytes for which the buffer has asked
/// storage: it asks when it is made and whenever it grows, and never gives
/// storage back. The content always fits within it.
///
/// The bytes are meant to be UTF-8, but the byte-level operations do not
/// check that: whoever inserts or removes single bytes inside a character
/// has to put the content right again before reading it as text.
pub struct GapBuffer {
    buffer: Vec<u8>,
    reserved: usize,
}

impl View for GapBuffer {
    type V = Seq<u8>;

    /// The bytes that the buffer holds, in order.
    closed spec fn view(&self) -> Seq<u8> {
        self.buffer@
    }
}

impl GapBuffer {
    /// A buffer never holds more bytes than it has reserved room for.
    #[verifier::type_invariant]
    spec fn within_capacity(&self) -> bool {
        self.buffer@.len() <= self.reserved
    }

    /// The number of bytes that the buffer has reserved room for.
    pub closed spec fn spec_capacity(&self) -> nat {
        self.reserved as nat
    }

    /// Makes an empty buffer with room for `DEFAULT_BUFFER_CAPACITY` bytes.
    pub fn new() -> (buffer: GapBuffer)
        ensures
            buffer@ == Seq::<u8>::empty(),
            buffer.spec_capacity() == DEFAULT_BUFFER_CAPACITY,
            text_of(buffer@) == Some(Seq::<char>::empty()),
    {
        GapBuffer {
            buffer: Vec::with_capacity(DEFAULT_BUFFER_CAPACITY),
            reserved: DEFAULT_BUFFER_CAPACITY,
        }
    }

    /// Makes a buffer that holds the UTF-8 encoding of `content` and has no
    /// room to spare.
    pub fn from(content: String) -> (buffer: GapBuffer)
        ensures
            buffer@ == encode_utf8(content@),
            buffer.spec_capacity() == buffer@.len(),
            text_of(buffer@) == Some(content@),
    {
        proof {
            crate::text::lemma_text_round_trip(content@);
        }
        let bytes = content.into_bytes();
        let reserved = bytes.len();
        GapBuffer { buffer: bytes, reserved }
    }

    /// The number of bytes that the buffer has reserved room for.
    pub fn capacity(&self) -> (capacity: usize)
        ensures
            capacity == self.spec_capacity(),
            capacity >= self@.len(),
    {
        proof {
            use_type_invariant(self);
        }
        self.reserved
    }

    /// The number of bytes that the buffer holds.
    pub fn len(&self) -> (len: usize)
        ensures
            len == self@.len(),
            len <= self.spec_capacity(),
    {
        proof {
            use_type_invariant(self);
        }
        self.buffer.len()
    }

    /// Inserts `byte` at `index`; the bytes at `index` and after move one
    /// position back. `index` may be the length, which appends. A full
    /// buffer grows first.
    pub fn insert(&mut self, index: usize, byte: u8) -> (result: Result<(), BufferError>)
        ensures
            index <= old(self)@.len() ==> {
                &&& result is Ok
                &&& final(self)@ == old(self)@.insert(index as int, byte)
                &&& final(self).spec_capacity() == capacity_after_insert(
                    old(self).spec_capacity(),
                    old(self)@.len(),
                )
            },
            index == old(self)@.len() ==> final(self)@ == old(self)@.push(byte),
            index > old(self)@.len() ==> {
                &&& result == Err::<(), BufferError>(BufferError::IndexOutOfBounds)
                &&& *final(self) == *old(self)
            },
            final(self)@.len() <= final(self).spec_capacity(),
            old(self).spec_capacity() <= final(self).spec_capacity(),
    {
        proof {
            use_type_invariant(&*self);
            crate::splice::lemma_insert_at_end_appends(self@, byte, Seq::empty());
        }
        if index > self.buffer.len() {
            return Err(BufferError::IndexOutOfBounds);
        }
        let mut content = self.take_content();
        let reserved = insert_byte(&mut content, self.reserved, index, byte);
        self.reserved = reserved;
        self.buffer = content;
        Ok(())
    }

    /// Inserts `bytes`, in their order, at `index`; the bytes at `index` and
    /// after move back by the number of bytes inserted. The bytes go in one
    /// at a time, so the buffer grows as it would under single insertions.
    /// An empty `bytes` changes nothing, but `index` is checked all the same.
    pub fn insert_bytes(&mut self, index: usize, bytes: Vec<u8>) -> (result: Result<
        (),
        BufferError,
    >)
        ensures
            index <= old(self)@.len() ==> {
                &&& result is Ok
                &&& final(self)@ == spliced(old(self)@, index as int, bytes@)
                &&& final(self)@ == inserted_one_by_one(old(self)@, index as int, bytes@)
                &&& final(self).spec_capacity() == capacity_after_inserts(
                    old(self).spec_capacity(),
                    old(self)@.len(),
                    bytes@.len(),
                )
            },
            index == old(self)@.len() ==> final(self)@ == old(self)@ + bytes@,
            index > old(self)@.len() ==> {
                &&& result == Err::<(), BufferError>(BufferError::IndexOutOfBounds)
                &&& *final(self) == *old(self)
            },
            final(self)@.len() <= final(self).spec_capacity(),
            old(self).spec_capacity() <= final(self).spec_capacity(),
    {
        proof {
            use_type_invariant(&*self);
        }
        if index > self.buffer.len() {
            return Err(BufferError::IndexOutOfBounds);
        }
        let ghost before = self.buffer@;
        let ghost reserved_before = self.reserved as nat;
        proof {
            crate::splice::lemma_one_by_one_is_splice(before, index as int, bytes@);
            crate::splice::lemma_insert_at_end_appends(before, 0, bytes@);
        }
        let mut content = self.take_content();
        let mut reserved = self.reserved;
        let mut at = index;
        let mut done: usize = 0;
        while done < bytes.len()
            invariant
                done <= bytes.len(),
                at == index + done,
                index <= before.len(),
                content@ == spliced(before, index as int, bytes@.subrange(0, done as int)),
                content@.len() <= reserved,
                reserved_before <= reserved,
                capacity_after_inserts(
                    reserved as nat,
                    content@.len(),
                    (bytes.len() - done) as nat,
                ) == capacity_after_inserts(reserved_before, before.len(), bytes@.len()),
            decreases bytes.len() - done,
        {
            let ghost held = content@;
            reserved = insert_byte(&mut content, reserved, at, bytes[done]);
            assert(content@ == spliced(before, index as int, bytes@.subrange(0, done + 1))) by {
                assert(held.insert(at as int, bytes@[done as int]) =~= spliced(
                    before,
                    index as int,
                    bytes@.subrange(0, done + 1),
                ));
            }
            assert(content.len() == held.len() + 1);
            at += 1;
            done += 1;
        }
        assert(bytes@.subrange(0, done as int) == bytes@);
        self.reserved = reserved;
        self.buffer = content;
        Ok(())
    }

    /// Removes the byte at `index` and returns it; the bytes after it move
    /// one position forward. The capacity stays as it is.
    pub fn remove(&mut self, index: usize) -> (result: Result<u8, BufferError>)
        ensures
            index < old(self)@.len() ==> {
                &&& result == Ok::<u8, BufferError>(old(self)@[index as int])
                &&& final(self)@ == old(self)@.remove(index as int)
                &&& final(self).spec_capacity() == old(self).spec_capacity()
            },
            index >= old(self)@.len() ==> {
                &&& result == Err::<u8, BufferError>(BufferError::IndexOutOfBounds)
                &&& *final(self) == *old(self)
            },
            final(self)@.len() <= final(self).spec_capacity(),
    {
        proof {
            use_type_invariant(&*self);
        }
        if index >= self.buffer.len() {
            return Err(BufferError::IndexOutOfBounds);
        }
        let mut content = self.take_content();
        let byte = content.remove(index);
        self.buffer = content;
        Ok(byte)
    }

    /// Removes the bytes at the positions from `range.start` up to, but not
    /// including, `range.end`, and returns them in their order; the bytes
    /// after them move forward by the width of the range. An empty range
    /// within the content removes nothing. The capacity stays as it is.
    pub fn remove_bytes(&mut self, range: Range<usize>) -> (result: Result<Vec<u8>, BufferError>)
        ensures
            range.start <= range.end <= old(self)@.len() ==> {
                &&& result matches Ok(removed) && removed@ == old(self)@.subrange(
                    range.start as int,
                    range.end as int,
                )
                &&& final(self)@ == cut(old(self)@, range.start as int, range.end as int)
                &&& final(self).spec_capacity() == old(self).spec_capacity()
            },
            range.start == range.end <= old(self)@.len() ==> {
                &&& result matches Ok(removed) && removed@ == Seq::<u8>::empty()
                &&& final(self)@ == old(self)@
            },
            !(range.start <= range.end <= old(self)@.len()) ==> {
                &&& result matches Err(error) && error == BufferError::IndexOutOfBounds
                &&& *final(self) == *old(self)
            },
            final(self)@.len() <= final(self).spec_capacity(),
    {
        proof {
            use_type_invariant(&*self);
        }
        if range.start > range.end || range.end > self.buffer.len() {
            return Err(BufferError::IndexOutOfBounds);
        }
        proof {
            crate::splice::lemma_cut_empty_range(self@, range.start as int);
        }
        let mut content = self.take_content();
        let removed = take_range(&mut content, range.start, range.end);
        self.buffer = content;
        Ok(removed)
    }

    /// Reads the content as UTF-8 text. Fails if the bytes are not valid
    /// UTF-8, which can only be so after bytes were inserted or removed
    /// inside a character.
    pub fn to_text(&self) -> (result: Result<String, BufferError>)
        ensures
            match result {
                Ok(text) => text_of(self@) == Some(text@),
                Err(error) => error == BufferError::InvalidEncoding && text_of(self@) is None,
            },
    {
        match core::str::from_utf8(self.buffer.as_slice()) {
            Ok(text) => {
                proof {
                    vstd::utf8::encode_utf8_decode_utf8(text@);
                }
                Ok(text.to_owned())
            },
            Err(_) => Err(BufferError::InvalidEncoding),
        }
    }

    /// Hands the content out to be worked on, and leaves the buffer empty
    /// until the content is put back.
    fn take_content(&mut self) -> (content: Vec<u8>)
        ensures
            content@ == old(self).buffer@,
            content@.len() <= old(self).reserved,
            final(self).buffer@ == Seq::<u8>::empty(),
            final(self).reserved == old(self).reserved,
    {
        proof {
            use_type_invariant(&*self);
        }
        let mut content: Vec<u8> = Vec::new();
        core::mem::swap(&mut content, &mut self.buffer);
        content
    }
}

/// Removes the bytes at the positions from `start` up to, but not
/// including, `end` from `content` and returns them in their order.
fn take_range(content: &mut Vec<u8>, start: usize, end: usize) -> (removed: Vec<u8>)
    requires
        start <= end <= old(content)@.len(),
    ensures
        removed@ == old(content)@.subrange(start as int, end as int),
        final(content)@ == cut(old(content)@, start as int, end as int),
{
    let ghost before = content@;
    let len = content.len();
    let width = end - start;
    let mut removed: Vec<u8> = Vec::with_capacity(width);
    let mut from = start;
    while from < end
        invariant
            start <= from <= end <= content@.len(),
            content@ == before,
            removed@ == before.subrange(start as int, from as int),
        decreases end - from,
    {
        removed.push(content[from]);
        from += 1;
        assert(removed@ =~= before.subrange(start as int, from as int));
    }
    let mut from = end;
    while from < len
        invariant
            start <= end <= from <= len,
            width == end - start,
            len == before.len(),
            content@.len() == len,
            forall|i: int| 0 <= i < start ==> content@[i] == before[i],
            forall|i: int| start <= i < from - width ==> content@[i] == before[i + width],
            forall|i: int| from <= i < len ==> content@[i] == before[i],
        decreases len - from,
    {
        let byte = content[from];
        content[from - width] = byte;
        from += 1;
    }
    content.truncate(len - width);
    assert(content@ =~= cut(before, start as int, end as int));
    removed
}

/// Inserts `byte` at `index` into `content`, for which room for `reserved`
/// bytes is held, and returns the room held afterwards.
fn insert_byte(content: &mut Vec<u8>, reserved: usize, index: usize, byte: u8) -> (grown: usize)
    requires
        index <= old(content)@.len() <= reserved,
    ensures
        final(content)@ == old(content)@.insert(index as int, byte),
        grown == capacity_after_insert(reserved as nat, old(content)@.len()),
        final(content)@.len() <= grown,
        reserved <= grown,
{
    let len = content.len();
    let grown = if len < reserved {
        reserved
    } else {
        let grown = grow(reserved);
        content.reserve(grown - len);
        grown
    };
    content.insert(index, byte);
    assert(content.len() == len + 1);
    grown
}

} // verus!
