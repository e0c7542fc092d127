//! The byte image of a track file: a header of 112 bytes and, behind it, one
//! slot of 152 bytes for each record.

use crate::entry::{decode_entry, TrackFileEntry, ENTRY_SIZE};
use crate::fixedstr::zeros;
use crate::header::{
    decode_header, lemma_decode_header_prefix, HeaderView, HEADER_MAGIC_NUMBER, HEADER_SIZE,
};
use vstd::prelude::*;

verus! {

/// The image as the header is read from it: an image shorter than a header is
/// continued with zeros.
pub open spec fn header_image(image: Seq<u8>) -> Seq<u8> {
    if image.len() >= HEADER_SIZE {
        image
    } else {
        image + zeros((HEADER_SIZE - image.len()) as nat)
    }
}

/// The header of an image.
pub open spec fn image_header(image: Seq<u8>) -> HeaderView {
    decode_header(header_image(image))
}

/// The length in bytes of a file of `count` records.
pub open spec fn file_length(count: nat) -> nat {
    HEADER_SIZE as nat + count * (ENTRY_SIZE as nat)
}

/// The bytes of the slot with index `i`.
pub open spec fn slot(image: Seq<u8>, i: int) -> Seq<u8> {
    image.subrange(HEADER_SIZE + ENTRY_SIZE * i, HEADER_SIZE + ENTRY_SIZE * (i + 1))
}

/// The records of an image: as many as its header counts, each decoded from its slot.
pub open spec fn image_entries(image: Seq<u8>) -> Seq<TrackFileEntry> {
    Seq::new(image_header(image).count as nat, |i: int| decode_entry(slot(image, i)))
}

/// An image is sound when it starts with the magic number and is exactly as
/// long as its record count says.
pub open spec fn image_sound(image: Seq<u8>) -> bool {
    &&& image_header(image).magic == HEADER_MAGIC_NUMBER
    &&& image.len() == file_length(image_header(image).count as nat)
}

/// The image after `src` was written at `offset`: the bytes under `src` are
/// replaced, and the image grows where `src` reaches beyond its end.
pub open spec fn written(image: Seq<u8>, offset: int, src: Seq<u8>) -> Seq<u8>
    recommends
        0 <= offset <= image.len(),
{
    if offset + src.len() <= image.len() {
        image.subrange(0, offset) + src + image.subrange(offset + src.len(), image.len() as int)
    } else {
        image.subrange(0, offset) + src
    }
}

/// Writes `src` into `data` at `offset`, as a positioned write does to a file.
pub fn write_at(data: &mut Vec<u8>, offset: usize, src: &[u8])
    requires
        offset <= old(data)@.len(),
        offset + src@.len() <= usize::MAX,
    ensures
        final(data)@ == written(old(data)@, offset as int, src@),
{
    let n = src.len();
    let mut i: usize = 0;
    while i < n
        invariant
            i <= n,
            n == src@.len(),
            offset <= old(data)@.len(),
            offset + n <= usize::MAX,
            data@.len() == if offset + i <= old(data)@.len() {
                old(data)@.len()
            } else {
                (offset + i) as nat
            },
            forall|k: int| 0 <= k < offset ==> data@[k] == old(data)@[k],
            forall|k: int| 0 <= k < i ==> data@[offset + k] == src@[k],
            forall|k: int| offset + i <= k < old(data)@.len() ==> data@[k] == old(data)@[k],
        decreases n - i,
    {
        if offset + i < data.len() {
            data[offset + i] = src[i];
        } else {
            data.push(src[i]);
        }
        i += 1;
    }
    assert(data@ =~= written(old(data)@, offset as int, src@));
}

/// A write of a whole header at the start of an image changes the header and
/// leaves every slot as it was.
pub proof fn lemma_written_header(image: Seq<u8>, raw: Seq<u8>)
    requires
        image.len() >= HEADER_SIZE,
        raw.len() == HEADER_SIZE,
    ensures
        written(image, 0, raw).len() == image.len(),
        image_header(written(image, 0, raw)) == decode_header(raw),
        forall|i: int|
            0 <= i && HEADER_SIZE + ENTRY_SIZE * (i + 1) <= image.len() ==> #[trigger] slot(
                written(image, 0, raw),
                i,
            ) == slot(image, i),
{
    let next = written(image, 0, raw);
    assert(next.subrange(0, HEADER_SIZE as int) =~= raw.subrange(0, HEADER_SIZE as int));
    lemma_decode_header_prefix(next, raw);
    assert forall|i: int| 0 <= i && HEADER_SIZE + ENTRY_SIZE * (i + 1) <= image.len() implies slot(
        next,
        i,
    ) == slot(image, i) by {
        assert(slot(next, i) =~= slot(image, i));
    }
}

/// A write of a whole slot behind the header changes that slot and leaves the
/// header and every other slot as they were. Written at the end, it adds a slot.
pub proof fn lemma_written_slot(image: Seq<u8>, k: int, raw: Seq<u8>)
    requires
        0 <= k,
        HEADER_SIZE + ENTRY_SIZE * k <= image.len(),
        raw.len() == ENTRY_SIZE,
    ensures
        written(image, HEADER_SIZE + ENTRY_SIZE * k, raw).len() == if HEADER_SIZE + ENTRY_SIZE * (k
            + 1) <= image.len() {
            image.len()
        } else {
            (HEADER_SIZE + ENTRY_SIZE * (k + 1)) as nat
        },
        image_header(written(image, HEADER_SIZE + ENTRY_SIZE * k, raw)) == image_header(image),
        slot(written(image, HEADER_SIZE + ENTRY_SIZE * k, raw), k) == raw,
        forall|i: int|
            0 <= i && i != k && HEADER_SIZE + ENTRY_SIZE * (i + 1) <= image.len() ==> #[trigger] slot(
                written(image, HEADER_SIZE + ENTRY_SIZE * k, raw),
                i,
            ) == slot(image, i),
{
    let next = written(image, HEADER_SIZE + ENTRY_SIZE * k, raw);
    assert(next.subrange(0, HEADER_SIZE as int) =~= image.subrange(0, HEADER_SIZE as int));
    lemma_decode_header_prefix(next, image);
    assert(slot(next, k) =~= raw);
    assert forall|i: int|
        0 <= i && i != k && HEADER_SIZE + ENTRY_SIZE * (i + 1) <= image.len() implies slot(next, i)
        == slot(image, i) by {
        assert(slot(next, i) =~= slot(image, i));
    }
}

} // verus!
