//! Byte sequences with a run of bytes put in or taken out.
//!
//! The buffer's operations are stated over these functions; the lemmas say
//! how the operations relate to one another.

use vstd::prelude::*;

verus! {

/// `content` with `bytes` put in at `index`: what came before `index`, then
/// `bytes` in their order, then what stood at `index` and after.
pub open spec fn spliced(content: Seq<u8>, index: int, bytes: Seq<u8>) -> Seq<u8>
    recommends
        0 <= index <= content.len(),
{
    content.subrange(0, index) + bytes + content.subrange(index, content.len() as int)
}

/// `content` without the bytes at the positions from `start` up to, but not
/// including, `end`.
pub open spec fn cut(content: Seq<u8>, start: int, end: int) -> Seq<u8>
    recommends
        0 <= start <= end <= content.len(),
{
    content.subrange(0, start) + content.subrange(end, content.len() as int)
}

/// `content` after the bytes of `bytes` are inserted one at a time, the
/// first at `index` and each of the others one position after the one
/// before it.
pub open spec fn inserted_one_by_one(content: Seq<u8>, index: int, bytes: Seq<u8>) -> Seq<u8>
    recommends
        0 <= index <= content.len(),
    decreases bytes.len(),
{
    if bytes.len() == 0 {
        content
    } else {
        inserted_one_by_one(content.insert(index, bytes[0]), index + 1, bytes.drop_first())
    }
}

/// Inserting one byte is splicing in a sequence of that one byte.
pub proof fn lemma_insert_is_splice(content: Seq<u8>, index: int, byte: u8)
    requires
        0 <= index <= content.len(),
    ensures
        content.insert(index, byte) == spliced(content, index, seq![byte]),
{
    assert(content.insert(index, byte) =~= spliced(content, index, seq![byte]));
}

/// Inserting at the end is appending.
pub proof fn lemma_insert_at_end_appends(content: Seq<u8>, byte: u8, bytes: Seq<u8>)
    ensures
        content.insert(content.len() as int, byte) == content.push(byte),
        spliced(content, content.len() as int, bytes) == content + bytes,
{
    assert(content.insert(content.len() as int, byte) =~= content.push(byte));
    assert(spliced(content, content.len() as int, bytes) =~= content + bytes);
}

/// Inserting bytes one at a time at consecutive positions gives the same
/// content as splicing them in at once.
pub proof fn lemma_one_by_one_is_splice(content: Seq<u8>, index: int, bytes: Seq<u8>)
    requires
        0 <= index <= content.len(),
    ensures
        inserted_one_by_one(content, index, bytes) == spliced(content, index, bytes),
    decreases bytes.len(),
{
    if bytes.len() == 0 {
        assert(spliced(content, index, bytes) =~= content);
    } else {
        let next = content.insert(index, bytes[0]);
        lemma_one_by_one_is_splice(next, index + 1, bytes.drop_first());
        assert(spliced(next, index + 1, bytes.drop_first()) =~= spliced(content, index, bytes));
    }
}

/// Splicing keeps every byte that was there, in its order, and moves those
/// from `index` on back by the number of bytes put in.
pub proof fn lemma_splice_positions(content: Seq<u8>, index: int, bytes: Seq<u8>)
    requires
        0 <= index <= content.len(),
    ensures
        spliced(content, index, bytes).len() == content.len() + bytes.len(),
        forall|i: int| 0 <= i < index ==> spliced(content, index, bytes)[i] == content[i],
        forall|i: int|
            0 <= i < bytes.len() ==> #[trigger] spliced(content, index, bytes)[index + i]
                == bytes[i],
        forall|i: int|
            index <= i < content.len() ==> #[trigger] spliced(content, index, bytes)[i
                + bytes.len()] == content[i],
{
}

/// Removing the byte at `index` makes the content one byte shorter, leaves
/// the bytes before `index` where they are and moves each byte after it one
/// position forward.
pub proof fn lemma_remove_positions(content: Seq<u8>, index: int)
    requires
        0 <= index < content.len(),
    ensures
        content.remove(index) == cut(content, index, index + 1),
        content.remove(index).len() == content.len() - 1,
        forall|i: int| 0 <= i < index ==> content.remove(index)[i] == content[i],
        forall|i: int|
            index <= i < content.len() - 1 ==> content.remove(index)[i] == content[i + 1],
{
    assert(content.remove(index) =~= cut(content, index, index + 1));
}

/// Cutting a range out leaves the bytes before it where they are and moves
/// each byte after it forward by the width of the range.
pub proof fn lemma_cut_positions(content: Seq<u8>, start: int, end: int)
    requires
        0 <= start <= end <= content.len(),
    ensures
        cut(content, start, end).len() == content.len() - (end - start),
        forall|i: int| 0 <= i < start ==> cut(content, start, end)[i] == content[i],
        forall|i: int|
            start <= i < content.len() - (end - start) ==> cut(content, start, end)[i]
                == content[i + (end - start)],
{
}

/// Cutting an empty range out changes nothing, and an empty range holds no
/// bytes.
pub proof fn lemma_cut_empty_range(content: Seq<u8>, at: int)
    requires
        0 <= at <= content.len(),
    ensures
        cut(content, at, at) == content,
        content.subrange(at, at) == Seq::<u8>::empty(),
{
    assert(cut(content, at, at) =~= content);
    assert(content.subrange(at, at) =~= Seq::<u8>::empty());
}

/// What is cut out and what is left make up the content again: splicing
/// the removed bytes back in where they stood restores it. So does cutting
/// out what was spliced in.
pub proof fn lemma_cut_undoes_splice(content: Seq<u8>, start: int, end: int, bytes: Seq<u8>)
    requires
        0 <= start <= end <= content.len(),
    ensures
        spliced(cut(content, start, end), start, content.subrange(start, end)) == content,
        cut(spliced(content, start, bytes), start, start + bytes.len()) == content,
        spliced(content, start, bytes).subrange(start, start + bytes.len()) == bytes,
{
    assert(spliced(cut(content, start, end), start, content.subrange(start, end)) =~= content);
    assert(cut(spliced(content, start, bytes), start, start + bytes.len()) =~= content);
    assert(spliced(content, start, bytes).subrange(start, start + bytes.len()) =~= bytes);
}

} // verus!
