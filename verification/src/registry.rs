//! The in-memory table of transfers in progress, keyed by transfer id.
use vstd::prelude::*;
use crate::text::str_eq;
use crate::upload_types::{ChunkDetails, ChunkDetailsView, ProcessingStatus};

verus! {

broadcast use vstd::std_specs::hash::group_hash_axioms;

// ---------------------------------------------------------------------------
// Association lists as maps
// ---------------------------------------------------------------------------

/// No key occurs twice.
pub open spec fn keys_distinct<K, V>(s: Seq<(K, V)>) -> bool {
    forall|i: int, j: int| 0 <= i < j < s.len() ==> s[i].0 != s[j].0
}

pub open spec fn has_key<K, V>(s: Seq<(K, V)>, k: K) -> bool {
    exists|i: int| 0 <= i < s.len() && s[i].0 == k
}

/// The map an association list stands for.
pub open spec fn map_of<K, V>(s: Seq<(K, V)>) -> Map<K, V> {
    Map::new(
        |k: K| has_key(s, k),
        |k: K| s[choose|i: int| 0 <= i < s.len() && s[i].0 == k].1,
    )
}

pub proof fn lemma_map_of_index<K, V>(s: Seq<(K, V)>, i: int)
    requires
        keys_distinct(s),
        0 <= i < s.len(),
    ensures
        map_of(s).contains_key(s[i].0),
        map_of(s)[s[i].0] == s[i].1,
{
    let k = s[i].0;
    assert(has_key(s, k));
    let j = choose|j: int| 0 <= j < s.len() && s[j].0 == k;
    if j < i {
        assert(s[j].0 != s[i].0);
    }
    if j > i {
        assert(s[i].0 != s[j].0);
    }
}

pub proof fn lemma_map_of_push<K, V>(s: Seq<(K, V)>, k: K, v: V)
    requires
        keys_distinct(s),
        !has_key(s, k),
    ensures
        keys_distinct(s.push((k, v))),
        map_of(s.push((k, v))) == map_of(s).insert(k, v),
{
    let t = s.push((k, v));
    assert forall|i: int, j: int| 0 <= i < j < t.len() implies t[i].0 != t[j].0 by {
        if j == s.len() {
            assert(s[i].0 == t[i].0);
        } else {
            assert(t[i] == s[i] && t[j] == s[j]);
        }
    }
    assert forall|q: K| #[trigger] map_of(t).contains_key(q) <==> map_of(s).insert(k, v).contains_key(q) by {
        if has_key(s, q) {
            let i = choose|i: int| 0 <= i < s.len() && s[i].0 == q;
            assert(t[i].0 == q);
        }
        if has_key(t, q) && q != k {
            let i = choose|i: int| 0 <= i < t.len() && t[i].0 == q;
            assert(s[i].0 == q);
        }
        if q == k {
            assert(t[s.len() as int].0 == k);
        }
    }
    assert forall|q: K| #[trigger] map_of(t).contains_key(q) implies map_of(t)[q] == map_of(s).insert(
        k,
        v,
    )[q] by {
        let i = choose|i: int| 0 <= i < t.len() && t[i].0 == q;
        lemma_map_of_index(t, i);
        if i < s.len() {
            assert(t[i] == s[i]);
            lemma_map_of_index(s, i);
        }
    }
    assert(map_of(t) =~= map_of(s).insert(k, v));
}

pub proof fn lemma_map_of_update<K, V>(s: Seq<(K, V)>, i: int, v: V)
    requires
        keys_distinct(s),
        0 <= i < s.len(),
    ensures
        keys_distinct(s.update(i, (s[i].0, v))),
        map_of(s.update(i, (s[i].0, v))) == map_of(s).insert(s[i].0, v),
{
    let k = s[i].0;
    let t = s.update(i, (k, v));
    assert forall|a: int, b: int| 0 <= a < b < t.len() implies t[a].0 != t[b].0 by {
        assert(t[a].0 == s[a].0 && t[b].0 == s[b].0);
    }
    assert forall|q: K| #[trigger] map_of(t).contains_key(q) <==> map_of(s).insert(k, v).contains_key(q) by {
        if has_key(s, q) {
            let a = choose|a: int| 0 <= a < s.len() && s[a].0 == q;
            assert(t[a].0 == q);
        }
        if has_key(t, q) {
            let a = choose|a: int| 0 <= a < t.len() && t[a].0 == q;
            assert(s[a].0 == q);
        }
    }
    assert forall|q: K| #[trigger] map_of(t).contains_key(q) implies map_of(t)[q] == map_of(s).insert(
        k,
        v,
    )[q] by {
        let a = choose|a: int| 0 <= a < t.len() && t[a].0 == q;
        lemma_map_of_index(t, a);
        if a != i {
            assert(t[a] == s[a]);
            lemma_map_of_index(s, a);
        }
    }
    assert(map_of(t) =~= map_of(s).insert(k, v));
}

pub proof fn lemma_map_of_remove<K, V>(s: Seq<(K, V)>, i: int)
    requires
        keys_distinct(s),
        0 <= i < s.len(),
    ensures
        keys_distinct(s.remove(i)),
        map_of(s.remove(i)) == map_of(s).remove(s[i].0),
{
    let k = s[i].0;
    let t = s.remove(i);
    assert forall|a: int, b: int| 0 <= a < b < t.len() implies t[a].0 != t[b].0 by {
        let a2 = if a < i {
            a
        } else {
            a + 1
        };
        let b2 = if b < i {
            b
        } else {
            b + 1
        };
        assert(t[a] == s[a2] && t[b] == s[b2]);
    }
    assert forall|q: K| #[trigger] map_of(t).contains_key(q) <==> map_of(s).remove(k).contains_key(q) by {
        if has_key(s, q) && q != k {
            let a = choose|a: int| 0 <= a < s.len() && s[a].0 == q;
            if a < i {
                assert(t[a].0 == q);
            } else {
                assert(a != i);
                assert(t[a - 1].0 == q);
            }
        }
        if has_key(t, q) {
            let a = choose|a: int| 0 <= a < t.len() && t[a].0 == q;
            let a2 = if a < i {
                a
            } else {
                a + 1
            };
            assert(s[a2].0 == q);
            if a2 < i {
                assert(s[a2].0 != s[i].0);
            }
            if a2 > i {
                assert(s[i].0 != s[a2].0);
            }
        }
    }
    assert forall|q: K| #[trigger] map_of(t).contains_key(q) implies map_of(t)[q] == map_of(s).remove(
        k,
    )[q] by {
        let a = choose|a: int| 0 <= a < t.len() && t[a].0 == q;
        lemma_map_of_index(t, a);
        let a2 = if a < i {
            a
        } else {
            a + 1
        };
        assert(t[a] == s[a2]);
        lemma_map_of_index(s, a2);
    }
    assert(map_of(t) =~= map_of(s).remove(k));
}

// ---------------------------------------------------------------------------
// The registry
// ---------------------------------------------------------------------------

/// Whether a transfer is ready to be reassembled: not already handed out,
/// and as many distinct chunks received as were announced.
pub open spec fn is_ready(d: ChunkDetailsView) -> bool {
    d.status != ProcessingStatus::InProcess && (d.received.len() as u32) >= d.total_chunks
}

/// The (key, details) views of stored entries.
pub open spec fn pairs_of(v: Seq<(String, ChunkDetails)>) -> Seq<(Seq<char>, ChunkDetailsView)> {
    v.map_values(|e: (String, ChunkDetails)| (e.0@, e.1@))
}

/// The transfers in progress, keyed by transfer id.
pub struct UploadRegistry {
    entries: Vec<(String, ChunkDetails)>,
}

impl UploadRegistry {
    /// The entries as (key, details) views, in insertion order.
    pub closed spec fn pairs(&self) -> Seq<(Seq<char>, ChunkDetailsView)> {
        pairs_of(self.entries@)
    }

    /// Keys are distinct.
    #[verifier::type_invariant]
    closed spec fn inv(&self) -> bool {
        keys_distinct(self.pairs())
    }

    /// An empty registry.
    pub fn new() -> (r: UploadRegistry)
        ensures
            r@ == Map::<Seq<char>, ChunkDetailsView>::empty(),
    {
        let r = UploadRegistry { entries: Vec::new() };
        assert(map_of(r.pairs()) =~= Map::<Seq<char>, ChunkDetailsView>::empty());
        r
    }

    /// Number of transfers in progress.
    pub fn len(&self) -> (n: usize)
        ensures
            n == self@.len(),
    {
        proof {
            use_type_invariant(self);
            self.lemma_dom_len();
        }
        self.entries.len()
    }

    proof fn lemma_dom_len(&self)
        requires
            keys_distinct(self.pairs()),
        ensures
            self@.dom().finite(),
            self@.len() == self.entries@.len(),
    {
        let s = self.pairs();
        let keys = s.map_values(|e: (Seq<char>, ChunkDetailsView)| e.0);
        assert(keys.no_duplicates()) by {
            assert forall|i: int, j: int| 0 <= i < keys.len() && 0 <= j < keys.len() && i != j implies keys[i] != keys[j] by {
                if i < j {
                    assert(s[i].0 != s[j].0);
                } else {
                    assert(s[j].0 != s[i].0);
                }
            }
        }
        assert(self@.dom() =~= keys.to_set()) by {
            assert forall|k: Seq<char>| self@.dom().contains(k) <==> keys.to_set().contains(k) by {
                if has_key(s, k) {
                    let i = choose|i: int| 0 <= i < s.len() && s[i].0 == k;
                    assert(keys[i] == k);
                }
                if keys.to_set().contains(k) {
                    let i = choose|i: int| 0 <= i < keys.len() && keys[i] == k;
                    assert(s[i].0 == k);
                }
            }
        }
        keys.unique_seq_to_set();
    }

    /// Index of the entry for `transfer_id`, if any.
    fn find(&self, transfer_id: &str) -> (r: Option<usize>)
        ensures
            match r {
                Some(i) => i < self.entries@.len() && self.pairs()[i as int].0 == transfer_id@,
                None => !has_key(self.pairs(), transfer_id@),
            },
    {
        let mut i: usize = 0;
        while i < self.entries.len()
            invariant
                0 <= i <= self.entries@.len(),
                forall|j: int| 0 <= j < i ==> #[trigger] self.pairs()[j].0 != transfer_id@,
            decreases self.entries@.len() - i,
        {
            if str_eq(self.entries[i].0.as_str(), transfer_id) {
                return Some(i);
            }
            i = i + 1;
        }
        None
    }

    /// Records `details` for `transfer_id`, replacing any earlier record.
    pub fn set_upload_state(&mut self, transfer_id: String, details: ChunkDetails)
        ensures
            final(self)@ == old(self)@.insert(transfer_id@, details@),
    {
        proof {
            use_type_invariant(&*self);
        }
        let ghost k = transfer_id@;
        let ghost v = details@;
        match self.find(transfer_id.as_str()) {
            Some(i) => {
                proof {
                    lemma_map_of_update(self.pairs(), i as int, v);
                }
                let ghost before = self.pairs();
                let mut entries: Vec<(String, ChunkDetails)> = Vec::new();
                std::mem::swap(&mut entries, &mut self.entries);
                entries.set(i, (transfer_id, details));
                assert(pairs_of(entries@) =~= before.update(i as int, (before[i as int].0, v)));
                self.entries = entries;
            },
            None => {
                proof {
                    lemma_map_of_push(self.pairs(), k, v);
                }
                let ghost before = self.pairs();
                let mut entries: Vec<(String, ChunkDetails)> = Vec::new();
                std::mem::swap(&mut entries, &mut self.entries);
                entries.push((transfer_id, details));
                assert(pairs_of(entries@) =~= before.push((k, v)));
                self.entries = entries;
            },
        }
    }

    /// A copy of the record for `transfer_id`, if there is one.
    pub fn get_upload_state(&self, transfer_id: &str) -> (r: Option<ChunkDetails>)
        ensures
            match r {
                Some(d) => self@.contains_key(transfer_id@) && d@ == self@[transfer_id@],
                None => !self@.contains_key(transfer_id@),
            },
    {
        proof {
            use_type_invariant(self);
        }
        match self.find(transfer_id) {
            Some(i) => {
                proof {
                    lemma_map_of_index(self.pairs(), i as int);
                }
                Some(self.entries[i].1.duplicate())
            },
            None => None,
        }
    }

    /// The record for `transfer_id`, if there is one, without copying it.
    pub fn details_of(&self, transfer_id: &str) -> (r: Option<&ChunkDetails>)
        ensures
            match r {
                Some(d) => self@.contains_key(transfer_id@) && d@ == self@[transfer_id@],
                None => !self@.contains_key(transfer_id@),
            },
    {
        proof {
            use_type_invariant(self);
        }
        match self.find(transfer_id) {
            Some(i) => {
                proof {
                    lemma_map_of_index(self.pairs(), i as int);
                }
                Some(&self.entries[i].1)
            },
            None => None,
        }
    }

    /// Removes the record for `transfer_id`, if any.
    pub fn remove_upload_state(&mut self, transfer_id: &str)
        ensures
            final(self)@ == old(self)@.remove(transfer_id@),
    {
        proof {
            use_type_invariant(&*self);
        }
        match self.find(transfer_id) {
            Some(i) => {
                proof {
                    lemma_map_of_remove(self.pairs(), i as int);
                }
                let ghost before = self.pairs();
                let mut entries: Vec<(String, ChunkDetails)> = Vec::new();
                std::mem::swap(&mut entries, &mut self.entries);
                let _removed = entries.remove(i);
                assert(pairs_of(entries@) =~= before.remove(i as int));
                self.entries = entries;
            },
            None => {
                assert(map_of(self.pairs()).remove(transfer_id@) =~= map_of(self.pairs()));
            },
        }
    }

    /// Adds `chunk_index` to the received chunks of `transfer_id`: the number
    /// of distinct chunks now received, or `None` for an unknown transfer.
    pub fn record_chunk(&mut self, transfer_id: &str, chunk_index: u32) -> (r: Option<u32>)
        ensures
            old(self)@.contains_key(transfer_id@) ==> {
                let d = old(self)@[transfer_id@];
                let d2 = ChunkDetailsView { received: d.received.insert(chunk_index), ..d };
                &&& final(self)@ == old(self)@.insert(transfer_id@, d2)
                &&& r == Some(d2.received.len() as u32)
            },
            !old(self)@.contains_key(transfer_id@) ==> final(self)@ == old(self)@ && r is None,
    {
        proof {
            use_type_invariant(&*self);
        }
        match self.find(transfer_id) {
            Some(i) => {
                proof {
                    lemma_map_of_index(self.pairs(), i as int);
                }
                let ghost before = self.pairs();
                let mut entries: Vec<(String, ChunkDetails)> = Vec::new();
                std::mem::swap(&mut entries, &mut self.entries);
                let (key, mut details) = entries.remove(i);
                details.received_chunks.insert(chunk_index);
                let n = details.received_chunks.len() as u32;
                let ghost v = details@;
                entries.insert(i, (key, details));
                proof {
                    lemma_map_of_update(before, i as int, v);
                    assert(pairs_of(entries@) =~= before.update(i as int, (before[i as int].0, v)));
                }
                self.entries = entries;
                Some(n)
            },
            None => None,
        }
    }

    /// Sets the processing status of `transfer_id`, if it is known.
    pub fn set_status(&mut self, transfer_id: &str, status: ProcessingStatus) -> (r: Option<()>)
        ensures
            old(self)@.contains_key(transfer_id@) ==> {
                let d = old(self)@[transfer_id@];
                &&& final(self)@ == old(self)@.insert(
                    transfer_id@,
                    ChunkDetailsView { status, ..d },
                )
                &&& r is Some
            },
            !old(self)@.contains_key(transfer_id@) ==> final(self)@ == old(self)@ && r is None,
    {
        proof {
            use_type_invariant(&*self);
        }
        match self.find(transfer_id) {
            Some(i) => {
                proof {
                    lemma_map_of_index(self.pairs(), i as int);
                }
                let ghost before = self.pairs();
                let mut entries: Vec<(String, ChunkDetails)> = Vec::new();
                std::mem::swap(&mut entries, &mut self.entries);
                let (key, mut details) = entries.remove(i);
                details.status = status;
                let ghost v = details@;
                entries.insert(i, (key, details));
                proof {
                    lemma_map_of_update(before, i as int, v);
                    assert(pairs_of(entries@) =~= before.update(i as int, (before[i as int].0, v)));
                }
                self.entries = entries;
                Some(())
            },
            None => None,
        }
    }
}

/// The part of a registry view that is ready to be reassembled.
pub open spec fn ready_part(m: Map<Seq<char>, ChunkDetailsView>) -> Map<Seq<char>, ChunkDetailsView> {
    Map::new(|k: Seq<char>| m.contains_key(k) && is_ready(m[k]), |k: Seq<char>| m[k])
}

impl UploadRegistry {
    /// Copies of every record, each transfer once.
    pub fn get_all_upload_states(&self) -> (r: Vec<(String, ChunkDetails)>)
        ensures
            keys_distinct(pairs_of(r@)),
            map_of(pairs_of(r@)) == self@,
    {
        proof {
            use_type_invariant(self);
        }
        let mut r: Vec<(String, ChunkDetails)> = Vec::new();
        let mut i: usize = 0;
        while i < self.entries.len()
            invariant
                0 <= i <= self.entries@.len(),
                keys_distinct(self.pairs()),
                pairs_of(r@) == self.pairs().take(i as int),
            decreases self.entries@.len() - i,
        {
            let ghost before = pairs_of(r@);
            let key = self.entries[i].0.clone();
            let d = self.entries[i].1.duplicate();
            r.push((key, d));
            assert(self.pairs()[i as int] == (self.entries@[i as int].0@, self.entries@[i as int].1@));
            assert(pairs_of(r@) =~= before.push(self.pairs()[i as int]));
            assert(self.pairs().take(i + 1) =~= self.pairs().take(i as int).push(self.pairs()[i as int]));
            i = i + 1;
        }
        assert(self.pairs().take(i as int) =~= self.pairs());
        r
    }

    /// Copies of the records ready to be reassembled, each transfer once.
    pub fn ready_transfers(&self) -> (r: Vec<(String, ChunkDetails)>)
        ensures
            keys_distinct(pairs_of(r@)),
            map_of(pairs_of(r@)) == ready_part(self@),
    {
        proof {
            use_type_invariant(self);
        }
        let mut r: Vec<(String, ChunkDetails)> = Vec::new();
        let mut i: usize = 0;
        proof {
            assert(map_of(pairs_of(r@)) =~= ready_part(map_of(self.pairs().take(0))));
        }
        while i < self.entries.len()
            invariant
                0 <= i <= self.entries@.len(),
                keys_distinct(self.pairs()),
                keys_distinct(pairs_of(r@)),
                forall|k: Seq<char>| has_key(pairs_of(r@), k) ==> has_key(self.pairs().take(i as int), k),
                map_of(pairs_of(r@)) == ready_part(map_of(self.pairs().take(i as int))),
            decreases self.entries@.len() - i,
        {
            let ghost s = self.pairs();
            let ghost before = pairs_of(r@);
            let ghost k = s[i as int].0;
            let ghost v = s[i as int].1;
            proof {
                assert(s.take(i + 1) =~= s.take(i as int).push((k, v)));
                assert(!has_key(s.take(i as int), k)) by {
                    if has_key(s.take(i as int), k) {
                        let j = choose|j: int| 0 <= j < i && s.take(i as int)[j].0 == k;
                        assert(s[j].0 != s[i as int].0);
                    }
                }
                assert forall|a: int, b: int| 0 <= a < b < s.take(i as int).len() implies
                    s.take(i as int)[a].0 != s.take(i as int)[b].0 by {
                    assert(s[a].0 != s[b].0);
                }
                lemma_map_of_push(s.take(i as int), k, v);
            }
            let d = &self.entries[i].1;
            let ready = d.status != ProcessingStatus::InProcess
                && (d.received_chunks.len() as u32) >= d.total_chunks;
            if ready {
                let key = self.entries[i].0.clone();
                let copy = d.duplicate();
                r.push((key, copy));
                proof {
                    assert(pairs_of(r@) =~= before.push((k, v)));
                    lemma_map_of_push(before, k, v);
                    assert(ready_part(map_of(s.take(i + 1))) =~= ready_part(map_of(s.take(i as int))).insert(k, v));
                    assert forall|q: Seq<char>| has_key(pairs_of(r@), q) implies has_key(s.take(i + 1), q) by {
                        if q == k {
                            assert(s.take(i + 1)[i as int].0 == k);
                        } else {
                            let j = choose|j: int| 0 <= j < pairs_of(r@).len() && pairs_of(r@)[j].0 == q;
                            assert(before[j].0 == q);
                            assert(has_key(before, q));
                            let j2 = choose|j2: int| 0 <= j2 < i && s.take(i as int)[j2].0 == q;
                            assert(s.take(i + 1)[j2].0 == q);
                        }
                    }
                }
            } else {
                proof {
                    assert(ready_part(map_of(s.take(i + 1))) =~= ready_part(map_of(s.take(i as int))));
                    assert forall|q: Seq<char>| has_key(pairs_of(r@), q) implies has_key(s.take(i + 1), q) by {
                        let j2 = choose|j2: int| 0 <= j2 < i && s.take(i as int)[j2].0 == q;
                        assert(s.take(i + 1)[j2].0 == q);
                    }
                }
            }
            i = i + 1;
        }
        assert(self.pairs().take(i as int) =~= self.pairs());
        r
    }

    /// Settles a transfer after the scheduler tried to hand it to the
    /// reassembly queue of its flow: one handed over is marked `InProcess`,
    /// so that it is not handed out again; one that could not be handed
    /// over is left as it was, to be tried again on the next round.
    pub fn record_dispatch(&mut self, transfer_id: &str, sent: bool)
        ensures
            sent && old(self)@.contains_key(transfer_id@) ==> final(self)@ == old(self)@.insert(
                transfer_id@,
                ChunkDetailsView { status: ProcessingStatus::InProcess, ..old(self)@[transfer_id@] },
            ),
            !(sent && old(self)@.contains_key(transfer_id@)) ==> final(self)@ == old(self)@,
    {
        if sent {
            let _ = self.set_status(transfer_id, ProcessingStatus::InProcess);
        }
    }

    /// Settles a transfer after its reassembly ran: a success drops it; a
    /// failure puts it back to `Idle` so that it is handed out again.
    pub fn finish_reassembly(&mut self, transfer_id: &str, succeeded: bool)
        ensures
            succeeded ==> final(self)@ == old(self)@.remove(transfer_id@),
            !succeeded && old(self)@.contains_key(transfer_id@) ==> final(self)@ == old(self)@.insert(
                transfer_id@,
                ChunkDetailsView { status: ProcessingStatus::Idle, ..old(self)@[transfer_id@] },
            ),
            !succeeded && !old(self)@.contains_key(transfer_id@) ==> final(self)@ == old(self)@,
    {
        if succeeded {
            self.remove_upload_state(transfer_id);
        } else {
            let _ = self.set_status(transfer_id, ProcessingStatus::Idle);
        }
    }
}

impl View for UploadRegistry {
    type V = Map<Seq<char>, ChunkDetailsView>;

    closed spec fn view(&self) -> Map<Seq<char>, ChunkDetailsView> {
        map_of(self.pairs())
    }
}

} // verus!
