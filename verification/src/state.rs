//! What the service knows of the flights that are being uploaded.

use crate::text::same_text;
use vstd::prelude::*;
use vstd::string::StringExecFns;

verus! {

/// The flights that are being uploaded now.
#[derive(Debug)]
pub struct ServiceState {
    active_flights: Vec<String>,
}

/// The identifiers in a list, as texts.
pub open spec fn texts(ids: Seq<String>) -> Seq<Seq<char>> {
    ids.map_values(|s: String| s@)
}

impl View for ServiceState {
    type V = Set<Seq<char>>;

    /// The set of active flights.
    closed spec fn view(&self) -> Set<Seq<char>> {
        texts(self.active_flights@).to_set()
    }
}

impl Default for ServiceState {
    /// No flight is active.
    fn default() -> (r: Self)
        ensures
            r.wf(),
            r@ == Set::<Seq<char>>::empty(),
    {
        let r = Self { active_flights: Vec::new() };
        assert(r@ =~= Set::<Seq<char>>::empty());
        r
    }
}

impl ServiceState {
    /// No flight is listed twice.
    pub closed spec fn wf(&self) -> bool {
        texts(self.active_flights@).no_duplicates()
    }

    /// Position of `flight_id` in the list, if it is there.
    fn position(&self, flight_id: &str) -> (r: Option<usize>)
        ensures
            match r {
                Some(i) => i < self.active_flights@.len() && self.active_flights@[i as int]@
                    == flight_id@,
                None => !self@.contains(flight_id@),
            },
    {
        let mut i: usize = 0;
        while i < self.active_flights.len()
            invariant
                i <= self.active_flights@.len(),
                forall|j: int| 0 <= j < i ==> self.active_flights@[j]@ != flight_id@,
            decreases self.active_flights@.len() - i,
        {
            if same_text(self.active_flights[i].as_str(), flight_id) {
                return Some(i);
            }
            i += 1;
        }
        assert(!texts(self.active_flights@).contains(flight_id@));
        None
    }

    /// Marks a flight as active.
    pub fn add_active_flight(&mut self, flight_id: &str)
        requires
            old(self).wf(),
        ensures
            final(self).wf(),
            final(self)@ == old(self)@.insert(flight_id@),
    {
        let ghost list = self.active_flights@;
        let ghost before = texts(list);
        match self.position(flight_id) {
            None => {
                self.active_flights.push(String::from_str(flight_id));
                let ghost after = texts(self.active_flights@);
                assert(after =~= before.push(flight_id@));
                assert(after.to_set() =~= before.to_set().insert(flight_id@)) by {
                    assert forall|x: Seq<char>| after.contains(x) <==> (before.contains(x) || x
                        == flight_id@) by {
                        if before.contains(x) {
                            let j = choose|j: int| 0 <= j < before.len() && before[j] == x;
                            assert(after[j] == x);
                        }
                        if x == flight_id@ {
                            assert(after[before.len() as int] == x);
                        }
                    }
                }
            },
            Some(i) => {
                assert(before[i as int] == flight_id@);
                assert(before.to_set().insert(flight_id@) =~= before.to_set());
            },
        }
    }

    /// Marks a flight as no longer active.
    pub fn remove_active_flight(&mut self, flight_id: &str)
        requires
            old(self).wf(),
        ensures
            final(self).wf(),
            final(self)@ == old(self)@.remove(flight_id@),
    {
        let ghost list = self.active_flights@;
        let ghost before = texts(list);
        match self.position(flight_id) {
            Some(i) => {
                self.active_flights.remove(i);
                let ghost after = texts(self.active_flights@);
                assert(after =~= before.remove(i as int));
                assert(before[i as int] == flight_id@);
                assert(after.to_set() =~= before.to_set().remove(flight_id@)) by {
                    assert forall|x: Seq<char>| after.contains(x) <==> (before.contains(x) && x
                        != flight_id@) by {
                        if after.contains(x) {
                            let j = choose|j: int| 0 <= j < after.len() && after[j] == x;
                            if j < i {
                                assert(before[j] == x);
                            } else {
                                assert(before[j + 1] == x);
                            }
                        }
                        if before.contains(x) && x != flight_id@ {
                            let j = choose|j: int| 0 <= j < before.len() && before[j] == x;
                            if j < i {
                                assert(after[j] == x);
                            } else {
                                assert(after[j - 1] == x);
                            }
                        }
                    }
                }
            },
            None => {
                assert(before.to_set().remove(flight_id@) =~= before.to_set());
            },
        }
    }

    /// `true` when the flight is active.
    pub fn is_active(&self, flight_id: &str) -> (r: bool)
        ensures
            r == self@.contains(flight_id@),
    {
        match self.position(flight_id) {
            Some(i) => {
                assert(texts(self.active_flights@)[i as int] == flight_id@);
                true
            },
            None => false,
        }
    }

    /// The active flights, each once, in no particular order.
    pub fn flight_ids(&self) -> (r: Vec<String>)
        requires
            self.wf(),
        ensures
            texts(r@).to_set() == self@,
            texts(r@).no_duplicates(),
    {
        let mut out: Vec<String> = Vec::new();
        let mut i: usize = 0;
        while i < self.active_flights.len()
            invariant
                i <= self.active_flights@.len(),
                out@.len() == i,
                forall|j: int| 0 <= j < i ==> out@[j]@ == self.active_flights@[j]@,
            decreases self.active_flights@.len() - i,
        {
            out.push(self.active_flights[i].clone());
            i += 1;
        }
        assert(texts(out@) =~= texts(self.active_flights@));
        out
    }
}

} // verus!
