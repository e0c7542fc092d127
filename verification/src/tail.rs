//! The engine behind a download stream: first the history of a flight, then
//! what is added to it.

use crate::entry::TrackFileEntry;
use crate::error::TrackFileError;
use crate::trackfile::TrackFile;
use crate::wire::{PointData, TouchDownData, TrackMessage, TrackResponse};
use vstd::prelude::*;

verus! {

/// Milliseconds to wait between two looks at a file that is followed.
pub const POLL_INTERVAL_MS: u64 = 1000;

/// Where a download stream stands in its file.
#[derive(Clone, Copy, Debug)]
pub struct TailCursor {
    idx: usize,
    count: usize,
}

/// The history of a flight after the time `start_at`: a message for each
/// record with a later timestamp, in the order of the file.
pub open spec fn replayed(entries: Seq<TrackFileEntry>, start_at: u64) -> Seq<TrackMessage>
    decreases entries.len(),
{
    if entries.len() == 0 {
        Seq::empty()
    } else if entries.last().ts() > start_at {
        replayed(entries.drop_last(), start_at).push(TrackMessage::of_entry(entries.last()))
    } else {
        replayed(entries.drop_last(), start_at)
    }
}

/// A message for each of `entries`, in order.
pub open spec fn messages_of(entries: Seq<TrackFileEntry>) -> Seq<TrackMessage> {
    entries.map_values(|e: TrackFileEntry| TrackMessage::of_entry(e))
}

/// The track points among `entries`, in order, as a client reports them.
pub open spec fn points_of(entries: Seq<TrackFileEntry>) -> Seq<PointData>
    decreases entries.len(),
{
    if entries.len() == 0 {
        Seq::empty()
    } else {
        match entries.last() {
            TrackFileEntry::TrackPoint(tp) => points_of(entries.drop_last()).push(
                PointData::of_point(tp),
            ),
            TrackFileEntry::TouchDown(_) => points_of(entries.drop_last()),
        }
    }
}

/// The touchdowns among `entries`, in order, as a client reports them.
pub open spec fn touchdowns_of(entries: Seq<TrackFileEntry>) -> Seq<TouchDownData>
    decreases entries.len(),
{
    if entries.len() == 0 {
        Seq::empty()
    } else {
        match entries.last() {
            TrackFileEntry::TrackPoint(_) => touchdowns_of(entries.drop_last()),
            TrackFileEntry::TouchDown(td) => touchdowns_of(entries.drop_last()).push(
                TouchDownData::of_touchdown(td),
            ),
        }
    }
}

/// With the start at time zero the whole history is replayed, but for
/// records that bear the time zero themselves.
pub proof fn law_replay_from_zero(entries: Seq<TrackFileEntry>)
    requires
        forall|i: int| 0 <= i < entries.len() ==> (#[trigger] entries[i]).ts() > 0,
    ensures
        replayed(entries, 0) == messages_of(entries),
    decreases entries.len(),
{
    if entries.len() > 0 {
        let head = entries.drop_last();
        assert forall|i: int| 0 <= i < head.len() implies (#[trigger] head[i]).ts() > 0 by {
            assert(head[i] == entries[i]);
        }
        law_replay_from_zero(head);
        assert(entries.last() == entries[entries.len() - 1]);
        assert(messages_of(head).push(TrackMessage::of_entry(entries.last())) =~= messages_of(
            entries,
        ));
    } else {
        assert(messages_of(entries) =~= Seq::<TrackMessage>::empty());
    }
}

impl TailCursor {
    /// The cursor is not beyond the records that it has seen.
    #[verifier::type_invariant]
    closed spec fn inv(&self) -> bool {
        self.idx <= self.count
    }

    /// Index of the next record to send.
    pub closed spec fn spec_idx(&self) -> nat {
        self.idx as nat
    }

    /// Number of records that the file had when it was last looked at.
    pub closed spec fn spec_count(&self) -> nat {
        self.count as nat
    }

    /// Index of the next record to send.
    pub fn position(&self) -> (r: usize)
        ensures
            r == self.spec_idx(),
    {
        self.idx
    }

    /// Starts a download: replays the history of the file after the time
    /// `start_at` and returns the cursor that follows the file from its end.
    pub fn history(tf: &TrackFile, start_at: u64) -> (r: Result<
        (TailCursor, Vec<TrackMessage>),
        TrackFileError,
    >)
        requires
            tf.wf(),
        ensures
            r matches Ok((cursor, messages)) && messages@ == replayed(tf@.entries, start_at)
                && cursor.spec_idx() == tf@.entries.len() && cursor.spec_count()
                == tf@.entries.len(),
    {
        let count = tf.count()? as usize;
        let mut idx: usize = 0;
        let mut out: Vec<TrackMessage> = Vec::new();
        while idx < count
            invariant
                idx <= count,
                count == tf@.entries.len(),
                tf.wf(),
                out@ == replayed(tf@.entries.subrange(0, idx as int), start_at),
            decreases count - idx,
        {
            let entry = tf.read_at(idx)?;
            let ts = match &entry {
                TrackFileEntry::TrackPoint(tp) => tp.ts,
                TrackFileEntry::TouchDown(td) => td.ts,
            };
            proof {
                let next = tf@.entries.subrange(0, idx + 1);
                assert(next.last() == entry);
                assert(next.drop_last() =~= tf@.entries.subrange(0, idx as int));
            }
            if ts > start_at {
                out.push(TrackMessage::from(entry));
            }
            idx += 1;
        }
        assert(tf@.entries.subrange(0, count as int) =~= tf@.entries);
        Ok((TailCursor { idx, count }, out))
    }

    /// Looks at the file again and returns what was added since the last
    /// look: a message for each record from the cursor on, whatever its
    /// timestamp. Where the file has not grown, nothing is returned and the
    /// cursor stays.
    pub fn follow(&mut self, tf: &TrackFile) -> (r: Result<Vec<TrackMessage>, TrackFileError>)
        requires
            tf.wf(),
        ensures
            r matches Ok(messages) && if tf@.entries.len() > old(self).spec_count() {
                &&& messages@ == messages_of(
                    tf@.entries.subrange(old(self).spec_idx() as int, tf@.entries.len() as int),
                )
                &&& final(self).spec_idx() == tf@.entries.len()
                &&& final(self).spec_count() == tf@.entries.len()
            } else {
                &&& messages@ == Seq::<TrackMessage>::empty()
                &&& *final(self) == *old(self)
            },
    {
        proof {
            use_type_invariant(&*self);
        }
        let new_count = tf.count()? as usize;
        let mut out: Vec<TrackMessage> = Vec::new();
        if new_count > self.count {
            let start = self.idx;
            let mut idx = self.idx;
            while idx < new_count
                invariant
                    start <= idx <= new_count,
                    new_count == tf@.entries.len(),
                    tf.wf(),
                    out@ == messages_of(tf@.entries.subrange(start as int, idx as int)),
                decreases new_count - idx,
            {
                let entry = tf.read_at(idx)?;
                out.push(TrackMessage::from(entry));
                assert(out@ =~= messages_of(tf@.entries.subrange(start as int, idx + 1)));
                idx += 1;
            }
            self.count = new_count;
            self.idx = idx;
        }
        Ok(out)
    }
}

/// The whole track of a flight: what the header says and every record, points
/// and touchdowns apart.
pub fn track_response(tf: &TrackFile) -> (r: Result<TrackResponse, TrackFileError>)
    requires
        tf.wf(),
    ensures
        r matches Ok(resp) && resp.flight_id@ == crate::fixedstr::text_of(tf@.header.flight_id)
            && resp.departure@ == crate::fixedstr::text_of(tf@.header.departure) && resp.arrival@
            == crate::fixedstr::text_of(tf@.header.arrival) && resp.points@ == points_of(
            tf@.entries,
        ) && resp.touchdowns@ == touchdowns_of(tf@.entries),
{
    let entries = tf.read_all()?;
    let mut points: Vec<PointData> = Vec::new();
    let mut touchdowns: Vec<TouchDownData> = Vec::new();
    let mut i: usize = 0;
    while i < entries.len()
        invariant
            i <= entries@.len(),
            points@ == points_of(entries@.subrange(0, i as int)),
            touchdowns@ == touchdowns_of(entries@.subrange(0, i as int)),
        decreases entries@.len() - i,
    {
        proof {
            let next = entries@.subrange(0, i + 1);
            assert(next.last() == entries@[i as int]);
            assert(next.drop_last() =~= entries@.subrange(0, i as int));
        }
        match entries[i] {
            TrackFileEntry::TrackPoint(pt) => points.push(PointData::from(pt)),
            TrackFileEntry::TouchDown(td) => touchdowns.push(TouchDownData::from(td)),
        }
        i += 1;
    }
    assert(entries@.subrange(0, entries@.len() as int) =~= entries@);
    let header = tf.get_header()?;
    Ok(
        TrackResponse {
            flight_id: header.get_flight_id(),
            departure: header.get_departure(),
            arrival: header.get_arrival(),
            points,
            touchdowns,
        },
    )
}

} // verus!
