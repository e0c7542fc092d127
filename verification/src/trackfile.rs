//! The store of one flight: an append-only file of records behind a header.
//!
//! A `TrackFile` holds the image of the file in memory. Loading the image from
//! disk and writing it back is the caller's part.

use crate::entry::{
    decode_entry, encode_entry, lemma_entry_roundtrip, TrackFileEntry, TrackPoint, ENTRY_SIZE,
};
use crate::error::TrackFileError;
use crate::fixedstr::{lemma_kept_text, text_of};
use crate::header::{
    encode_header, lemma_header_roundtrip, Header, HeaderView, HEADER_MAGIC_NUMBER, HEADER_SIZE,
};
use crate::image::{
    file_length, header_image, image_entries, image_header, image_sound, lemma_written_header,
    lemma_written_slot, slot, write_at, written,
};
use vstd::prelude::*;
use vstd::slice::slice_subrange;
use vstd::string::{StringExecFns, StringSliceAdditionalSpecFns};

verus! {

/// The store of one flight.
pub struct TrackFile {
    flight_id: String,
    path: String,
    data: Vec<u8>,
    last_point: Option<TrackPoint>,
}

/// What a track file holds.
pub struct TrackFileView {
    pub header: HeaderView,
    pub entries: Seq<TrackFileEntry>,
}

/// The last track point among `entries`, if there is one. Touchdowns are passed over.
pub open spec fn last_track_point(entries: Seq<TrackFileEntry>) -> Option<TrackPoint>
    decreases entries.len(),
{
    if entries.len() == 0 {
        None
    } else {
        match entries.last() {
            TrackFileEntry::TrackPoint(tp) => Some(tp),
            TrackFileEntry::TouchDown(_) => last_track_point(entries.drop_last()),
        }
    }
}

/// The new record repeats the last two: it is like the last record, which is
/// like the one before it.
pub open spec fn collapses(entries: Seq<TrackFileEntry>, e: TrackFileEntry) -> bool {
    &&& entries.len() >= 2
    &&& e.repeats(entries[entries.len() - 1])
    &&& entries[entries.len() - 1].repeats(entries[entries.len() - 2])
}

/// The records after `e` was stored: `e` takes the place of the last record
/// where it repeats the last two, and is added at the end otherwise.
pub open spec fn stored(entries: Seq<TrackFileEntry>, e: TrackFileEntry) -> Seq<TrackFileEntry> {
    if collapses(entries, e) {
        entries.update(entries.len() - 1, e)
    } else {
        entries.push(e)
    }
}

/// The records after each of `incoming` was stored in turn.
pub open spec fn stored_all(
    entries: Seq<TrackFileEntry>,
    incoming: Seq<TrackFileEntry>,
) -> Seq<TrackFileEntry>
    decreases incoming.len(),
{
    if incoming.len() == 0 {
        entries
    } else {
        stored(stored_all(entries, incoming.drop_last()), incoming.last())
    }
}

/// The image after the header `h` was written over its header.
pub open spec fn with_header(image: Seq<u8>, h: HeaderView) -> Seq<u8> {
    written(image, 0, encode_header(h))
}

/// The header of a file after a record was added to it at the time `now`.
pub open spec fn counted_up(h: HeaderView, now: u64) -> HeaderView {
    HeaderView { count: (h.count + 1) as u64, updated_at: now, ..h }
}

/// The image of a file after `e` was stored in it at the time `now`. A record
/// that repeats the last two is written over the last slot and the header is
/// left alone; any other is counted in the header and written behind the last slot.
pub open spec fn image_after(image: Seq<u8>, e: TrackFileEntry, now: u64) -> Seq<u8> {
    if collapses(image_entries(image), e) {
        written(image, image.len() - ENTRY_SIZE, encode_entry(e))
    } else {
        written(
            with_header(image, counted_up(image_header(image), now)),
            image.len() as int,
            encode_entry(e),
        )
    }
}

/// The part of an image that its header counts: the header and one slot for
/// each record counted. What lies behind it belongs to a record that is being
/// added and is not counted yet.
pub open spec fn counted_part(image: Seq<u8>) -> Seq<u8> {
    image.subrange(0, file_length(image_header(image).count as nat) as int)
}

/// A reader can use the image: it starts with the magic number and holds at
/// least the slots that its header counts.
pub open spec fn readable(image: Seq<u8>) -> bool {
    &&& image_header(image).magic == HEADER_MAGIC_NUMBER
    &&& image.len() >= file_length(image_header(image).count as nat)
}

/// Where the last slot of an image starts, or where its header ends while it
/// holds no slot.
pub open spec fn tail_of(image: Seq<u8>) -> int {
    if image.len() >= HEADER_SIZE + ENTRY_SIZE {
        image.len() - ENTRY_SIZE
    } else {
        HEADER_SIZE as int
    }
}

/// Up to `len` of `entries` from index `pos` on.
pub open spec fn records_from(entries: Seq<TrackFileEntry>, pos: nat, len: nat) -> Seq<
    TrackFileEntry,
> {
    if pos >= entries.len() {
        Seq::empty()
    } else if pos + len >= entries.len() {
        entries.subrange(pos as int, entries.len() as int)
    } else {
        entries.subrange(pos as int, (pos + len) as int)
    }
}

/// The length that an error reports as expected for `count` records: the
/// length of such a file, or the largest `usize` where that is beyond it.
pub open spec fn reported_length(count: nat) -> usize {
    if file_length(count) <= usize::MAX {
        file_length(count) as usize
    } else {
        usize::MAX
    }
}

impl TrackFileEntry {
    /// The record as the store writes it: a track point with `distance` as its
    /// distance, a touchdown as it is.
    pub open spec fn spec_with_distance(&self, distance: u64) -> TrackFileEntry {
        match *self {
            TrackFileEntry::TrackPoint(tp) => TrackFileEntry::TrackPoint(
                TrackPoint { distance: distance, ..tp },
            ),
            TrackFileEntry::TouchDown(td) => *self,
        }
    }

    /// The record as the store writes it: a track point with `distance` as its
    /// distance, a touchdown as it is.
    #[verifier::when_used_as_spec(spec_with_distance)]
    pub fn with_distance(&self, distance: u64) -> (r: TrackFileEntry)
        ensures
            r == self.spec_with_distance(distance),
    {
        match self {
            TrackFileEntry::TrackPoint(tp) => {
                let mut new_point = *tp;
                new_point.distance = distance;
                TrackFileEntry::TrackPoint(new_point)
            },
            TrackFileEntry::TouchDown(_) => *self,
        }
    }
}

/// Rewriting the header of a sound image with one of the same record count
/// changes the header alone.
pub proof fn lemma_header_rewritten(image: Seq<u8>, h: HeaderView)
    requires
        image.len() == file_length(image_header(image).count as nat),
        h.wf(),
        h.count == image_header(image).count,
    ensures
        written(image, 0, encode_header(h)).len() == image.len(),
        image_header(written(image, 0, encode_header(h))) == h,
        image_entries(written(image, 0, encode_header(h))) == image_entries(image),
{
    let raw = encode_header(h);
    lemma_header_roundtrip(h);
    lemma_written_header(image, raw);
    let next = written(image, 0, raw);
    assert forall|i: int| 0 <= i < h.count implies image_entries(next)[i] == image_entries(
        image,
    )[i] by {
        assert(HEADER_SIZE + ENTRY_SIZE * (i + 1) <= image.len()) by (nonlinear_arith)
            requires
                0 <= i < h.count,
                image.len() == HEADER_SIZE + h.count * ENTRY_SIZE,
        ;
        assert(slot(next, i) == slot(image, i));
    }
    assert(image_entries(next) =~= image_entries(image));
}

/// Counting one record more in the header of a sound image and writing a slot
/// behind its last slot adds the record of that slot.
pub proof fn lemma_record_added(image: Seq<u8>, h: HeaderView, raw: Seq<u8>)
    requires
        image.len() == file_length(image_header(image).count as nat),
        h.wf(),
        h.count == image_header(image).count + 1,
        raw.len() == ENTRY_SIZE,
    ensures
        ({
            let next = written(written(image, 0, encode_header(h)), image.len() as int, raw);
            &&& next.len() == file_length(h.count as nat)
            &&& image_header(next) == h
            &&& image_entries(next) == image_entries(image).push(decode_entry(raw))
        }),
{
    let n = image_header(image).count as int;
    let mid = written(image, 0, encode_header(h));
    lemma_header_roundtrip(h);
    lemma_written_header(image, encode_header(h));
    assert(image.len() == HEADER_SIZE + ENTRY_SIZE * n);
    lemma_written_slot(mid, n, raw);
    let next = written(mid, image.len() as int, raw);
    assert forall|i: int| 0 <= i < h.count implies image_entries(next)[i] == image_entries(
        image,
    ).push(decode_entry(raw))[i] by {
        if i < n {
            assert(HEADER_SIZE + ENTRY_SIZE * (i + 1) <= image.len());
            assert(slot(next, i) == slot(mid, i));
            assert(slot(mid, i) == slot(image, i));
        }
    }
    assert(image_entries(next) =~= image_entries(image).push(decode_entry(raw)));
}

/// Writing a slot over the last slot of a sound image replaces the last record.
pub proof fn lemma_record_replaced(image: Seq<u8>, raw: Seq<u8>)
    requires
        image.len() == file_length(image_header(image).count as nat),
        image_header(image).count >= 1,
        raw.len() == ENTRY_SIZE,
    ensures
        ({
            let next = written(image, image.len() - ENTRY_SIZE, raw);
            &&& next.len() == image.len()
            &&& image_header(next) == image_header(image)
            &&& image_entries(next) == image_entries(image).update(
                image_header(image).count - 1,
                decode_entry(raw),
            )
        }),
{
    let n = image_header(image).count as int;
    assert(image.len() == HEADER_SIZE + ENTRY_SIZE * n);
    lemma_written_slot(image, n - 1, raw);
    let next = written(image, image.len() - ENTRY_SIZE, raw);
    assert forall|i: int| 0 <= i < n implies image_entries(next)[i] == image_entries(image).update(
        n - 1,
        decode_entry(raw),
    )[i] by {
        if i < n - 1 {
            assert(HEADER_SIZE + ENTRY_SIZE * (i + 1) <= image.len());
            assert(slot(next, i) == slot(image, i));
        }
    }
    assert(image_entries(next) =~= image_entries(image).update(n - 1, decode_entry(raw)));
}

/// Of a run of like track points the file keeps two, the first and the
/// latest, whatever was stored before the run.
pub proof fn law_run_keeps_first_and_latest(
    entries: Seq<TrackFileEntry>,
    run: Seq<TrackFileEntry>,
)
    requires
        run.len() >= 2,
        forall|i: int| 0 <= i < run.len() ==> #[trigger] run[i].repeats(run[0]),
        entries.len() == 0 || !entries.last().repeats(run[0]),
    ensures
        stored_all(entries, run) == entries.push(run[0]).push(run.last()),
    decreases run.len(),
{
    let head = run.drop_last();
    assert(run[0].repeats(run[0]));
    assert(run[1].repeats(run[0]));
    if run.len() == 2 {
        assert(head.drop_last() =~= Seq::<TrackFileEntry>::empty());
        assert(stored_all(entries, head.drop_last()) == entries);
        assert(head.last() == run[0]);
        assert(!collapses(entries, run[0]));
        assert(stored_all(entries, head) == entries.push(run[0]));
        assert(!collapses(entries.push(run[0]), run[1]));
    } else {
        assert forall|i: int| 0 <= i < head.len() implies #[trigger] head[i].repeats(head[0]) by {
            assert(run[i].repeats(run[0]));
        }
        law_run_keeps_first_and_latest(entries, head);
        let kept = entries.push(run[0]).push(head.last());
        assert(head.last() == run[run.len() - 2]);
        assert(run[run.len() - 2].repeats(run[0]));
        assert(run[run.len() - 1].repeats(run[0]));
        assert(collapses(kept, run.last()));
        assert(kept.update(kept.len() - 1, run.last()) =~= entries.push(run[0]).push(run.last()));
    }
}

/// A file that was just created is sound: opened again, its header bears the
/// magic number and names the flight that it was created for, and it holds no record.
pub proof fn law_created_file_opens(flight_id: Seq<char>, now: u64)
    requires
        vstd::utf8::encode_utf8(flight_id).len() <= 36,
    ensures
        ({
            let image = encode_header(HeaderView::fresh(vstd::utf8::encode_utf8(flight_id), now));
            &&& image_sound(image)
            &&& image_header(image).magic == HEADER_MAGIC_NUMBER
            &&& text_of(image_header(image).flight_id) == flight_id
            &&& image_entries(image) == Seq::<TrackFileEntry>::empty()
        }),
{
    let h = HeaderView::fresh(vstd::utf8::encode_utf8(flight_id), now);
    let image = encode_header(h);
    lemma_header_roundtrip(h);
    lemma_kept_text(flight_id, 36);
    assert(header_image(image) == image);
    assert(image_entries(image) =~= Seq::<TrackFileEntry>::empty());
}

/// Storing a record keeps a file sound: whatever is stored in a sound image,
/// the image is afterwards exactly as long as its record count says, and its
/// records are those that were there with the new one stored.
pub proof fn law_append_keeps_sound(image: Seq<u8>, e: TrackFileEntry, now: u64)
    requires
        image_sound(image),
        image_header(image).count < u64::MAX,
    ensures
        image_sound(image_after(image, e, now)),
        image_entries(image_after(image, e, now)) == stored(image_entries(image), e),
        image_after(image, e, now).len() == file_length(stored(image_entries(image), e).len()),
        image_header(image_after(image, e, now)) == if collapses(image_entries(image), e) {
            image_header(image)
        } else {
            counted_up(image_header(image), now)
        },
{
    lemma_entry_roundtrip(e);
    lemma_image_header_wf(image);
    if collapses(image_entries(image), e) {
        lemma_record_replaced(image, encode_entry(e));
    } else {
        lemma_record_added(image, counted_up(image_header(image), now), encode_entry(e));
    }
}

/// The texts of the header of an image fit their fields.
pub proof fn lemma_image_header_wf(image: Seq<u8>)
    ensures
        image_header(image).wf(),
{
}

/// Storing a record writes to the header and to the last slot of the new
/// image, and nowhere else: every byte between the two is as it was.
pub proof fn law_append_writes_header_and_tail(image: Seq<u8>, e: TrackFileEntry, now: u64)
    requires
        image_sound(image),
        image_header(image).count < u64::MAX,
    ensures
        forall|i: int|
            HEADER_SIZE <= i < tail_of(image_after(image, e, now)) ==> i < image.len()
                && #[trigger] image_after(image, e, now)[i] == image[i],
{
    lemma_entry_roundtrip(e);
    lemma_image_header_wf(image);
    lemma_header_roundtrip(counted_up(image_header(image), now));
    let n = image_header(image).count as int;
    assert(image.len() == HEADER_SIZE + ENTRY_SIZE * n);
}

/// Writing a header changes no byte behind the header.
pub proof fn law_header_write_keeps_slots(image: Seq<u8>, h: HeaderView)
    requires
        image.len() >= HEADER_SIZE,
        h.wf(),
    ensures
        with_header(image, h).len() == image.len(),
        forall|i: int|
            HEADER_SIZE <= i < image.len() ==> #[trigger] with_header(image, h)[i] == image[i],
{
    lemma_header_roundtrip(h);
}

/// The counted part of an image that a reader can use is a sound image with
/// the same header and the same records.
pub proof fn lemma_counted_part_sound(image: Seq<u8>)
    requires
        readable(image),
    ensures
        image_sound(counted_part(image)),
        image_header(counted_part(image)) == image_header(image),
        image_entries(counted_part(image)) == image_entries(image),
{
    let part = counted_part(image);
    let n = image_header(image).count as int;
    assert(file_length(n as nat) == HEADER_SIZE + ENTRY_SIZE * n);
    assert(part.subrange(0, HEADER_SIZE as int) =~= image.subrange(0, HEADER_SIZE as int));
    crate::header::lemma_decode_header_prefix(part, image);
    assert forall|i: int| 0 <= i < n implies image_entries(part)[i] == image_entries(image)[i] by {
        assert(HEADER_SIZE + ENTRY_SIZE * (i + 1) <= part.len());
        assert(slot(part, i) =~= slot(image, i));
    }
    assert(image_entries(part) =~= image_entries(image));
}

/// A range read returns as many records as were asked for, or as many as
/// are left from its start on where that is fewer.
pub proof fn law_range_length(entries: Seq<TrackFileEntry>, pos: nat, len: nat)
    requires
        pos <= entries.len(),
    ensures
        records_from(entries, pos, len).len() == if len <= entries.len() - pos {
            len
        } else {
            (entries.len() - pos) as nat
        },
{
}

/// Storing a record adds it or puts it in the place of the last one: the file
/// never gets shorter, grows by one record at most, and ends with the record
/// stored. With fewer than two records in the file, and for a touchdown, the
/// record is always added.
pub proof fn law_stored_length(entries: Seq<TrackFileEntry>, e: TrackFileEntry)
    ensures
        entries.len() <= stored(entries, e).len() <= entries.len() + 1,
        stored(entries, e).last() == e,
        entries.len() < 2 ==> stored(entries, e) == entries.push(e),
        e is TouchDown ==> stored(entries, e) == entries.push(e),
{
}

impl View for TrackFile {
    type V = TrackFileView;

    open spec fn view(&self) -> TrackFileView {
        TrackFileView { header: image_header(self.image()), entries: image_entries(self.image()) }
    }
}

impl TrackFile {
    /// The bytes of the file.
    pub closed spec fn image(&self) -> Seq<u8> {
        self.data@
    }

    /// Where the file lies.
    pub closed spec fn spec_path(&self) -> Seq<char> {
        self.path@
    }

    /// The flight that the handle was opened for.
    pub closed spec fn spec_flight_id(&self) -> Seq<char> {
        self.flight_id@
    }

    /// The track point that the next distance is measured from.
    pub closed spec fn spec_last_point(&self) -> Option<TrackPoint> {
        self.last_point
    }

    /// The image is sound, the flight is the one that the header names, and
    /// the point kept for measuring is the last track point of the file.
    pub open spec fn wf(&self) -> bool {
        &&& image_sound(self.image())
        &&& self.spec_flight_id() == text_of(self@.header.flight_id)
        &&& self.spec_last_point() == last_track_point(self@.entries)
    }

    /// Length of a record slot in bytes.
    pub fn entry_size() -> (r: usize)
        ensures
            r == ENTRY_SIZE,
    {
        ENTRY_SIZE
    }

    /// Length of the header in bytes.
    pub fn header_size() -> (r: usize)
        ensures
            r == HEADER_SIZE,
    {
        HEADER_SIZE
    }

    /// A zeroed buffer for the header.
    fn make_header_buf() -> (r: Vec<u8>)
        ensures
            r@ == crate::fixedstr::zeros(HEADER_SIZE as nat),
    {
        let buf = vec![0u8; HEADER_SIZE];
        assert(buf@ =~= crate::fixedstr::zeros(HEADER_SIZE as nat));
        buf
    }

    /// Reads the header of an image. An image shorter than a header is read
    /// as if zeros followed it.
    fn read_header_of(image: &[u8]) -> (r: Header)
        ensures
            r@ == image_header(image@),
            r@.wf(),
    {
        if image.len() >= HEADER_SIZE {
            match Header::from_bytes(image) {
                Ok(h) => h,
                Err(_) => unreached(),
            }
        } else {
            let mut buf = Self::make_header_buf();
            write_at(&mut buf, 0, image);
            assert(buf@ =~= header_image(image@));
            match Header::from_bytes(buf.as_slice()) {
                Ok(h) => h,
                Err(_) => unreached(),
            }
        }
    }

    /// Checks an image as it is checked on opening: the magic number first,
    /// then the length against the record count.
    pub fn check(image: &[u8]) -> (r: Result<(), TrackFileError>)
        ensures
            image_sound(image@) <==> r is Ok,
            image_header(image@).magic != HEADER_MAGIC_NUMBER ==> r matches Err(
                TrackFileError::InvalidMagicNumber,
            ),
            image_header(image@).magic == HEADER_MAGIC_NUMBER && !image_sound(image@) ==> (
            r matches Err(TrackFileError::InvalidFileLength(expected, actual)) && expected
                == reported_length(image_header(image@).count as nat) && actual == image@.len()),
    {
        let header = Self::read_header_of(image);
        if !header.check_magic() {
            Err(TrackFileError::InvalidMagicNumber)
        } else {
            let count = header.count();
            let real_len = image.len();
            let limit: usize = (usize::MAX - HEADER_SIZE) / ENTRY_SIZE;
            let fits = count <= limit as u64;
            assert(limit * ENTRY_SIZE <= usize::MAX - HEADER_SIZE < (limit + 1) * ENTRY_SIZE);
            let expected_len = if fits {
                count as usize * ENTRY_SIZE + HEADER_SIZE
            } else {
                usize::MAX
            };
            if !fits || real_len != expected_len {
                Err(TrackFileError::InvalidFileLength(expected_len, real_len))
            } else {
                Ok(())
            }
        }
    }

    /// The record count of a sound image, which fits a `usize` as the image does.
    fn records_in(image: &[u8], header: &Header) -> (n: usize)
        requires
            header@ == image_header(image@),
            image@.len() == file_length(header@.count as nat),
        ensures
            n == header@.count,
            image@.len() == 112 + n * 152 <= usize::MAX,
    {
        let total = image.len();
        assert(total == 112 + header@.count * 152);
        header.count() as usize
    }

    /// Reads the header from the file.
    fn read_file_header(&self) -> (r: Result<Header, TrackFileError>)
        requires
            self.wf(),
        ensures
            r matches Ok(h) && h@ == self@.header && h@.wf(),
    {
        Ok(Self::read_header_of(self.data.as_slice()))
    }

    /// The header as the file holds it now.
    pub fn get_header(&self) -> (r: Result<Header, TrackFileError>)
        requires
            self.wf(),
        ensures
            r matches Ok(h) && h@ == self@.header && h@.wf(),
    {
        self.read_file_header()
    }

    /// Number of records in the file.
    pub fn count(&self) -> (r: Result<u64, TrackFileError>)
        requires
            self.wf(),
        ensures
            r matches Ok(n) && n == self@.header.count && n == self@.entries.len() && n
                <= usize::MAX,
    {
        let header = self.read_file_header()?;
        let n = Self::records_in(self.data.as_slice(), &header);
        Ok(n as u64)
    }

    /// Time of the last change of the file, in milliseconds since the Unix epoch.
    pub fn mtime(&self) -> (r: Result<u64, TrackFileError>)
        requires
            self.wf(),
        ensures
            r matches Ok(t) && t == self@.header.updated_at,
    {
        let header = self.read_file_header()?;
        Ok(header.timestamp())
    }

    /// The flight that the file belongs to.
    pub fn flight_id(&self) -> (r: &str)
        ensures
            r@ == self.spec_flight_id(),
    {
        self.flight_id.as_str()
    }

    /// Where the file lies.
    pub fn path(&self) -> (r: &str)
        ensures
            r@ == self.spec_path(),
    {
        self.path.as_str()
    }

    /// The bytes of the file, for writing them out.
    pub fn as_bytes(&self) -> (r: &[u8])
        ensures
            r@ == self.image(),
    {
        self.data.as_slice()
    }

    /// Where the last slot of the file starts, or where its header ends
    /// while it holds no record. An operation changes the file in its
    /// header and from here on, and nowhere else.
    pub fn tail_offset(&self) -> (r: usize)
        ensures
            r == tail_of(self.image()),
    {
        let len = self.data.len();
        if len >= HEADER_SIZE + ENTRY_SIZE {
            len - ENTRY_SIZE
        } else {
            HEADER_SIZE
        }
    }

    /// Looks at the file again, as a reader does while a writer may be adding
    /// to it: `image` is what the file holds now. Of an image that a reader can
    /// use the counted part becomes the image of the handle, and `true` is
    /// returned; any other image is passed over and the handle stays as it is.
    pub fn refresh(&mut self, image: Vec<u8>) -> (r: bool)
        requires
            old(self).wf(),
        ensures
            r == readable(image@),
            r ==> final(self).wf() && final(self).image() == counted_part(image@)
                && final(self).spec_path() == old(self).spec_path(),
            !r ==> *final(self) == *old(self),
    {
        let header = Self::read_header_of(image.as_slice());
        if !header.check_magic() {
            return false;
        }
        let real_len = image.len();
        let count = header.count();
        let limit: usize = (usize::MAX - HEADER_SIZE) / ENTRY_SIZE;
        assert(limit * ENTRY_SIZE <= usize::MAX - HEADER_SIZE < (limit + 1) * ENTRY_SIZE);
        if count > limit as u64 {
            return false;
        }
        let counted = count as usize * ENTRY_SIZE + HEADER_SIZE;
        if real_len < counted {
            return false;
        }
        proof {
            lemma_counted_part_sound(image@);
        }
        let mut data = image;
        data.truncate(counted);
        let fresh = Self::read_header_of(data.as_slice());
        self.flight_id = fresh.get_flight_id();
        self.last_point = Self::get_last_point(data.as_slice());
        self.data = data;
        true
    }

    /// The track point that the distance of the next one is measured from:
    /// the last track point of the file.
    pub fn last_point(&self) -> (r: Option<TrackPoint>)
        ensures
            r == self.spec_last_point(),
            self.wf() ==> r == last_track_point(self@.entries),
    {
        self.last_point
    }

    /// The point that the distance flown up to `tp` is measured from: the
    /// last track point of the file, or `tp` itself while the file has none.
    pub fn measure_from(&self, tp: &TrackPoint) -> (r: TrackPoint)
        ensures
            r == match self.spec_last_point() {
                Some(last) => last,
                None => *tp,
            },
    {
        match self.last_point {
            Some(last) => last,
            None => *tp,
        }
    }

    /// Gives up the handle and returns the path of the file, for removing it.
    pub fn destroy(self) -> (r: String)
        ensures
            r@ == self.spec_path(),
    {
        self.path
    }

    /// The departure airport; empty while none is set.
    pub fn get_departure(&self) -> (r: Result<String, TrackFileError>)
        requires
            self.wf(),
        ensures
            r matches Ok(s) && s@ == text_of(self@.header.departure),
    {
        let header = self.read_file_header()?;
        Ok(header.get_departure())
    }

    /// The arrival airport; empty while none is set.
    pub fn get_arrival(&self) -> (r: Result<String, TrackFileError>)
        requires
            self.wf(),
        ensures
            r matches Ok(s) && s@ == text_of(self@.header.arrival),
    {
        let header = self.read_file_header()?;
        Ok(header.get_arrival())
    }

    /// Decodes the record with index `pos` of a sound image.
    fn entry_at(image: &[u8], pos: usize) -> (r: TrackFileEntry)
        requires
            image@.len() == file_length(image_header(image@).count as nat),
            pos < image_header(image@).count,
        ensures
            r == image_entries(image@)[pos as int],
    {
        let header = Self::read_header_of(image);
        let count = Self::records_in(image, &header);
        let offset = HEADER_SIZE + pos * ENTRY_SIZE;
        let buf = slice_subrange(image, offset, offset + ENTRY_SIZE);
        assert(buf@ == slot(image@, pos as int));
        match TrackFileEntry::from_bytes(buf) {
            Ok(e) => e,
            Err(_) => unreached(),
        }
    }

    /// Finds the last track point of a sound image, passing over touchdowns.
    fn get_last_point(image: &[u8]) -> (r: Option<TrackPoint>)
        requires
            image@.len() == file_length(image_header(image@).count as nat),
        ensures
            r == last_track_point(image_entries(image@)),
    {
        let header = Self::read_header_of(image);
        let mut idx: usize = Self::records_in(image, &header);
        let ghost entries = image_entries(image@);
        assert(entries.subrange(0, idx as int) =~= entries);
        while idx > 0
            invariant
                idx <= entries.len(),
                entries == image_entries(image@),
                image@.len() == file_length(image_header(image@).count as nat),
                last_track_point(entries) == last_track_point(entries.subrange(0, idx as int)),
            decreases idx,
        {
            let entry = Self::entry_at(image, idx - 1);
            proof {
                let head = entries.subrange(0, idx as int);
                assert(head.last() == entries[idx - 1]);
                assert(head.drop_last() =~= entries.subrange(0, idx - 1));
            }
            match entry {
                TrackFileEntry::TrackPoint(tp) => {
                    return Some(tp);
                },
                TrackFileEntry::TouchDown(_) => {},
            }
            idx -= 1;
        }
        None
    }

    /// The record with index `pos`. An index that is not below the record
    /// count is refused.
    pub fn read_at(&self, pos: usize) -> (r: Result<TrackFileEntry, TrackFileError>)
        requires
            self.wf(),
        ensures
            pos < self@.entries.len() ==> r == Ok::<TrackFileEntry, TrackFileError>(
                self@.entries[pos as int],
            ),
            pos >= self@.entries.len() ==> (r matches Err(TrackFileError::IndexError(p)) && p == pos),
    {
        let header = self.read_file_header()?;
        if pos as u64 >= header.count() {
            Err(TrackFileError::IndexError(pos))
        } else {
            Ok(Self::entry_at(self.data.as_slice(), pos))
        }
    }

    /// Up to `len` records from index `pos` on: fewer where the file ends
    /// before, none where `pos` is not below the record count.
    pub fn read_multiple_at(&self, pos: usize, len: usize) -> (r: Result<
        Vec<TrackFileEntry>,
        TrackFileError,
    >)
        requires
            self.wf(),
        ensures
            r matches Ok(v) && v@ == records_from(self@.entries, pos as nat, len as nat),
    {
        let header = self.read_file_header()?;
        let count = Self::records_in(self.data.as_slice(), &header);
        if pos >= count {
            return Ok(Vec::new());
        }
        let mut len = len;
        if len > count - pos {
            len = count - pos;
        }
        let mut entries: Vec<TrackFileEntry> = Vec::new();
        let mut idx: usize = 0;
        while idx < len
            invariant
                idx <= len,
                pos + len <= count,
                count == self@.entries.len(),
                self.wf(),
                entries@ == self@.entries.subrange(pos as int, pos + idx),
            decreases len - idx,
        {
            let e = Self::entry_at(self.data.as_slice(), pos + idx);
            entries.push(e);
            assert(entries@ =~= self@.entries.subrange(pos as int, pos + idx + 1));
            idx += 1;
        }
        Ok(entries)
    }

    /// All records of the file, in order.
    pub fn read_all(&self) -> (r: Result<Vec<TrackFileEntry>, TrackFileError>)
        requires
            self.wf(),
        ensures
            r matches Ok(v) && v@ == self@.entries,
    {
        let header = self.read_file_header()?;
        let count = Self::records_in(self.data.as_slice(), &header);
        let mut res: Vec<TrackFileEntry> = Vec::new();
        let mut idx: usize = 0;
        while idx < count
            invariant
                idx <= count,
                count == self@.entries.len(),
                self.wf(),
                res@ == self@.entries.subrange(0, idx as int),
            decreases count - idx,
        {
            let e = Self::entry_at(self.data.as_slice(), idx);
            res.push(e);
            assert(res@ =~= self@.entries.subrange(0, idx + 1));
            idx += 1;
        }
        assert(res@ =~= self@.entries);
        Ok(res)
    }

    /// A new file for `flight_id` at `path`: a header stamped with the current
    /// time and no record. An identifier longer than 36 bytes is refused.
    pub fn create(path: &str, flight_id: &str) -> (r: Result<Self, TrackFileError>)
        ensures
            flight_id.spec_bytes().len() > 36 ==> (r matches Err(
                TrackFileError::InvalidFlightId(reason),
            ) && reason@ == "ID is too long"@),
            flight_id.spec_bytes().len() <= 36 ==> (r matches Ok(tf) && tf.created(
                path@,
                flight_id@,
                flight_id.spec_bytes(),
                tf@.header.updated_at,
            )),
    {
        let now = crate::clock::now_millis();
        Self::create_at(path, flight_id, now)
    }

    /// The file is as `create_at` makes it for this path, flight and time.
    pub open spec fn created(
        &self,
        path: Seq<char>,
        flight_id: Seq<char>,
        id_bytes: Seq<u8>,
        now: u64,
    ) -> bool {
        &&& self.wf()
        &&& self.spec_path() == path
        &&& self.spec_flight_id() == flight_id
        &&& self.image() == encode_header(HeaderView::fresh(id_bytes, now))
        &&& self@.header == HeaderView::fresh(id_bytes, now)
        &&& self@.entries == Seq::<TrackFileEntry>::empty()
    }

    /// A new file for `flight_id` at `path`, created at the time `now`: a
    /// header and no record. An identifier longer than 36 bytes is refused.
    pub fn create_at(path: &str, flight_id: &str, now: u64) -> (r: Result<Self, TrackFileError>)
        ensures
            flight_id.spec_bytes().len() > 36 ==> (r matches Err(
                TrackFileError::InvalidFlightId(reason),
            ) && reason@ == "ID is too long"@),
            flight_id.spec_bytes().len() <= 36 ==> (r matches Ok(tf) && tf.created(
                path@,
                flight_id@,
                flight_id.spec_bytes(),
                now,
            )),
    {
        let header = Header::new_at(flight_id, now)?;
        let raw_header = header.to_bytes();
        let tf = Self {
            flight_id: String::from_str(flight_id),
            path: String::from_str(path),
            data: raw_header,
            last_point: None,
        };
        proof {
            let h = HeaderView::fresh(flight_id.spec_bytes(), now);
            lemma_header_roundtrip(h);
            lemma_kept_text(flight_id@, 36);
            assert(header_image(tf.image()) == tf.image());
            assert(tf@.entries =~= Seq::<TrackFileEntry>::empty());
        }
        Ok(tf)
    }

    /// Opens the file at `path` from the bytes found there; `None` says that
    /// nothing was found. The image is checked, the flight is read from the
    /// header and the last track point is looked up.
    pub fn open(path: &str, image: Option<Vec<u8>>) -> (r: Result<Self, TrackFileError>)
        ensures
            image is None ==> (r matches Err(TrackFileError::NotFound(p)) && p@ == path@),
            image matches Some(img) ==> Self::opened(path@, img@, r),
    {
        match image {
            Some(data) => {
                match Self::check(data.as_slice()) {
                    Ok(()) => {},
                    Err(err) => {
                        return Err(err);
                    },
                }
                let header = Self::read_header_of(data.as_slice());
                let flight_id = header.get_flight_id();
                let last_point = Self::get_last_point(data.as_slice());
                Ok(Self { flight_id, path: String::from_str(path), data, last_point })
            },
            None => Err(TrackFileError::NotFound(String::from_str(path))),
        }
    }

    /// What opening the image `img` at `path` gives: the file with that image
    /// where the image is sound, and else the first fault that the check finds.
    pub open spec fn opened(path: Seq<char>, img: Seq<u8>, r: Result<Self, TrackFileError>) -> bool {
        if image_header(img).magic != HEADER_MAGIC_NUMBER {
            r matches Err(TrackFileError::InvalidMagicNumber)
        } else if !image_sound(img) {
            r matches Err(TrackFileError::InvalidFileLength(expected, actual)) && expected
                == reported_length(image_header(img).count as nat) && actual == img.len()
        } else {
            r matches Ok(tf) && tf.wf() && tf.image() == img && tf.spec_path() == path
        }
    }

    /// Opens the file at `path` where bytes were found there, and creates it
    /// for `flight_id` where nothing was found.
    pub fn new(path: &str, image: Option<Vec<u8>>, flight_id: &str) -> (r: Result<
        Self,
        TrackFileError,
    >)
        ensures
            image matches Some(img) ==> Self::opened(path@, img@, r),
            image is None && flight_id.spec_bytes().len() > 36 ==> (r matches Err(
                TrackFileError::InvalidFlightId(reason),
            ) && reason@ == "ID is too long"@),
            image is None && flight_id.spec_bytes().len() <= 36 ==> (r matches Ok(tf) && tf.created(
                path@,
                flight_id@,
                flight_id.spec_bytes(),
                tf@.header.updated_at,
            )),
    {
        let res = Self::open(path, image);
        match res {
            Ok(tf) => Ok(tf),
            Err(err) => match err {
                TrackFileError::NotFound(_) => Self::create(path, flight_id),
                _ => Err(err),
            },
        }
    }

    /// Writes `header` over the header of the file.
    fn write_file_header(&mut self, header: &Header) -> (r: Result<(), TrackFileError>)
        requires
            old(self).image().len() >= HEADER_SIZE,
        ensures
            r is Ok,
            final(self).image() == written(old(self).image(), 0, encode_header(header@)),
            final(self).spec_path() == old(self).spec_path(),
            final(self).spec_flight_id() == old(self).spec_flight_id(),
            final(self).spec_last_point() == old(self).spec_last_point(),
    {
        let buf = header.to_bytes();
        write_at(&mut self.data, 0, buf.as_slice());
        Ok(())
    }

    /// Counts one record more in the header of the file and stamps it with `now`.
    fn inc(&mut self, now: u64) -> (r: Result<(), TrackFileError>)
        requires
            old(self).wf(),
            old(self)@.header.count < u64::MAX,
        ensures
            r is Ok,
            final(self).image() == written(
                old(self).image(),
                0,
                encode_header(
                    HeaderView {
                        count: (old(self)@.header.count + 1) as u64,
                        updated_at: now,
                        ..old(self)@.header
                    },
                ),
            ),
            final(self).spec_path() == old(self).spec_path(),
            final(self).spec_flight_id() == old(self).spec_flight_id(),
            final(self).spec_last_point() == old(self).spec_last_point(),
    {
        let mut header = self.read_file_header()?;
        header.inc_at(now);
        self.write_file_header(&header)?;
        Ok(())
    }

    /// The file differs from `old` in its header alone, which is now `header`.
    pub open spec fn header_changed(&self, old: &Self, header: HeaderView) -> bool {
        &&& self.wf()
        &&& self.image() == with_header(old.image(), header)
        &&& self@.header == header
        &&& self@.entries == old@.entries
        &&& self.image().len() == old.image().len()
        &&& self.spec_path() == old.spec_path()
        &&& self.spec_flight_id() == old.spec_flight_id()
        &&& self.spec_last_point() == old.spec_last_point()
    }

    /// Sets the departure airport to `departure`, truncated to 8 bytes, and
    /// stamps the header with the current time.
    pub fn set_departure(&mut self, departure: &str) -> (r: Result<(), TrackFileError>)
        requires
            old(self).wf(),
        ensures
            r is Ok,
            final(self).header_changed(
                old(self),
                HeaderView {
                    departure: crate::fixedstr::kept(departure.spec_bytes(), 8),
                    updated_at: final(self)@.header.updated_at,
                    ..old(self)@.header
                },
            ),
    {
        let now = crate::clock::now_millis();
        self.set_departure_at(departure, now)
    }

    /// Sets the departure airport to `departure`, truncated to 8 bytes, and
    /// stamps the header with the time `now`.
    pub fn set_departure_at(&mut self, departure: &str, now: u64) -> (r: Result<
        (),
        TrackFileError,
    >)
        requires
            old(self).wf(),
        ensures
            r is Ok,
            final(self).header_changed(
                old(self),
                HeaderView {
                    departure: crate::fixedstr::kept(departure.spec_bytes(), 8),
                    updated_at: now,
                    ..old(self)@.header
                },
            ),
    {
        let mut header = self.read_file_header()?;
        header.set_departure_at(departure, now);
        proof {
            lemma_header_rewritten(self.image(), header@);
        }
        self.write_file_header(&header)
    }

    /// Sets the arrival airport to `arrival`, truncated to 8 bytes, and stamps
    /// the header with the current time.
    pub fn set_arrival(&mut self, arrival: &str) -> (r: Result<(), TrackFileError>)
        requires
            old(self).wf(),
        ensures
            r is Ok,
            final(self).header_changed(
                old(self),
                HeaderView {
                    arrival: crate::fixedstr::kept(arrival.spec_bytes(), 8),
                    updated_at: final(self)@.header.updated_at,
                    ..old(self)@.header
                },
            ),
    {
        let now = crate::clock::now_millis();
        self.set_arrival_at(arrival, now)
    }

    /// Sets the arrival airport to `arrival`, truncated to 8 bytes, and stamps
    /// the header with the time `now`.
    pub fn set_arrival_at(&mut self, arrival: &str, now: u64) -> (r: Result<(), TrackFileError>)
        requires
            old(self).wf(),
        ensures
            r is Ok,
            final(self).header_changed(
                old(self),
                HeaderView {
                    arrival: crate::fixedstr::kept(arrival.spec_bytes(), 8),
                    updated_at: now,
                    ..old(self)@.header
                },
            ),
    {
        let mut header = self.read_file_header()?;
        header.set_arrival_at(arrival, now);
        proof {
            lemma_header_rewritten(self.image(), header@);
        }
        self.write_file_header(&header)
    }

    /// The file is `old` after `e` was stored at the time `now`. Where the
    /// record took the place of the last one, the header is untouched; where it
    /// was added, the header counts it and bears the time `now`.
    pub open spec fn appended(&self, old: &Self, e: TrackFileEntry, now: u64) -> bool {
        &&& self.wf()
        &&& self.image() == image_after(old.image(), e, now)
        &&& self@.entries == stored(old@.entries, e)
        &&& self@.header == if collapses(old@.entries, e) {
            old@.header
        } else {
            counted_up(old@.header, now)
        }
        &&& self.image().len() == file_length(self@.entries.len())
        &&& self.spec_path() == old.spec_path()
        &&& self.spec_flight_id() == old.spec_flight_id()
        &&& self.spec_last_point() == match e {
            TrackFileEntry::TrackPoint(tp) => Some(tp),
            TrackFileEntry::TouchDown(_) => old.spec_last_point(),
        }
    }

    /// Stores a record, stamping the header with the current time where the
    /// record is added. A track point is stored with `distance` as its distance
    /// and becomes the point that the next distance is measured from; of a
    /// touchdown `distance` is not used.
    ///
    /// A record that repeats the last two takes the place of the last one, so
    /// that of a run of like track points the file keeps the first and the latest.
    pub fn append(&mut self, e: &TrackFileEntry, distance: u64) -> (r: Result<(), TrackFileError>)
        requires
            old(self).wf(),
            old(self).image().len() + ENTRY_SIZE <= usize::MAX,
        ensures
            r is Ok,
            final(self).appended(
                old(self),
                e.with_distance(distance),
                final(self)@.header.updated_at,
            ),
    {
        let now = crate::clock::now_millis();
        self.append_at(e, distance, now)
    }

    /// Stores a record as `append` does, at the time `now`.
    pub fn append_at(&mut self, e: &TrackFileEntry, distance: u64, now: u64) -> (r: Result<
        (),
        TrackFileError,
    >)
        requires
            old(self).wf(),
            old(self).image().len() + ENTRY_SIZE <= usize::MAX,
        ensures
            r is Ok,
            final(self).appended(old(self), e.with_distance(distance), now),
    {
        let header = self.read_file_header()?;
        let count = Self::records_in(self.data.as_slice(), &header);
        let replace = if count < 2 {
            // with less than two records there is nothing to repeat
            false
        } else {
            let last_two = self.read_multiple_at(count - 2, 2)?;
            let last = last_two[1];
            let prev = last_two[0];
            last == prev && prev == *e
        };
        let ghost before = self.image();
        let ghost entries = self@.entries;
        let end = self.data.len();
        let stored_entry = e.with_distance(distance);
        assert(replace == collapses(entries, stored_entry));

        if !replace {
            self.inc(now)?;
        }
        match stored_entry {
            TrackFileEntry::TrackPoint(new_point) => {
                self.last_point = Some(new_point);
            },
            TrackFileEntry::TouchDown(_) => {},
        }
        let data = stored_entry.to_bytes();
        let offset = if replace { end - ENTRY_SIZE } else { end };
        proof {
            lemma_entry_roundtrip(stored_entry);
            if replace {
                lemma_record_replaced(before, data@);
            } else {
                let h = HeaderView {
                    count: (header@.count + 1) as u64,
                    updated_at: now,
                    ..header@
                };
                lemma_record_added(before, h, data@);
                assert(entries.push(stored_entry).drop_last() =~= entries);
            }
        }
        write_at(&mut self.data, offset, data.as_slice());
        Ok(())
    }
}

} // verus!
