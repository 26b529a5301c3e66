use vstd::prelude::*;
use vstd::utf8::encode_utf8;
use crate::error::AppError;

verus! {

/// A row of the live table: a DID document that is current on chain.
#[derive(Clone, Debug)]
pub struct DidRecord {
    pub did: String,
    pub handle: String,
    pub created_at: String,
    pub ckb_address: String,
    pub tx_hash: String,
    pub out_index: u32,
    pub height: u64,
    pub document: String,
    pub valid: bool,
}

/// A row of the tombstone table: a record that a later input retired.
#[derive(Clone, Debug)]
pub struct TombstoneRecord {
    pub did: String,
    pub handle: String,
    pub deleted_at: String,
    pub ckb_address: String,
    pub tx_hash: String,
    pub in_index: u32,
    pub height: u64,
    pub document: String,
}

impl TombstoneRecord {
    /// A copy of the tombstone.
    pub fn duplicate(&self) -> (r: TombstoneRecord)
        ensures
            r == *self,
    {
        TombstoneRecord {
            did: self.did.clone(),
            handle: self.handle.clone(),
            deleted_at: self.deleted_at.clone(),
            ckb_address: self.ckb_address.clone(),
            tx_hash: self.tx_hash.clone(),
            in_index: self.in_index,
            height: self.height,
            document: self.document.clone(),
        }
    }
}

impl DidRecord {
    /// A copy of the row.
    pub fn duplicate(&self) -> (r: DidRecord)
        ensures
            r == *self,
    {
        DidRecord {
            did: self.did.clone(),
            handle: self.handle.clone(),
            created_at: self.created_at.clone(),
            ckb_address: self.ckb_address.clone(),
            tx_hash: self.tx_hash.clone(),
            out_index: self.out_index,
            height: self.height,
            document: self.document.clone(),
            valid: self.valid,
        }
    }
}

/// What a live row holds, as values.
pub struct RowView {
    pub did: Seq<char>,
    pub handle: Seq<u8>,
    pub created_at: Seq<char>,
    pub ckb_address: Seq<char>,
    pub tx_hash: Seq<char>,
    pub out_index: u32,
    pub height: u64,
    pub document: Seq<char>,
    pub valid: bool,
}

/// What a tombstone holds, as values.
pub struct TombView {
    pub did: Seq<char>,
    pub handle: Seq<u8>,
    pub deleted_at: Seq<char>,
    pub ckb_address: Seq<char>,
    pub tx_hash: Seq<char>,
    pub in_index: u32,
    pub height: u64,
    pub document: Seq<char>,
}

/// The two tables, as values.
pub struct ProjectionView {
    pub live: Seq<RowView>,
    pub tombstones: Seq<TombView>,
}

impl View for DidRecord {
    type V = RowView;

    open spec fn view(&self) -> RowView {
        RowView {
            did: self.did@,
            handle: encode_utf8(self.handle@),
            created_at: self.created_at@,
            ckb_address: self.ckb_address@,
            tx_hash: self.tx_hash@,
            out_index: self.out_index,
            height: self.height,
            document: self.document@,
            valid: self.valid,
        }
    }
}

impl View for TombstoneRecord {
    type V = TombView;

    open spec fn view(&self) -> TombView {
        TombView {
            did: self.did@,
            handle: encode_utf8(self.handle@),
            deleted_at: self.deleted_at@,
            ckb_address: self.ckb_address@,
            tx_hash: self.tx_hash@,
            in_index: self.in_index,
            height: self.height,
            document: self.document@,
        }
    }
}

/// The output that a live row stands for.
pub open spec fn row_ref(r: DidRecord) -> (Seq<char>, u32) {
    (r.tx_hash@, r.out_index)
}

/// A write to the tables, in the order it was made.
#[derive(Clone, Debug)]
pub enum StoreOp {
    /// A live row was added.
    Insert(DidRecord),
    /// The live row of the tombstone's identifier was deleted, and the
    /// tombstone written unless the identifier had one.
    Retire(TombstoneRecord),
    /// The live row of the record's identifier was rewritten.
    Update(DidRecord),
}

/// The two tables of the projection, live rows and tombstones, with the
/// journal of the writes made to them, which a persistent copy replays.
pub struct Projection {
    pub live: Vec<DidRecord>,
    pub tombstones: Vec<TombstoneRecord>,
    pub journal: Vec<StoreOp>,
}

/// Index of the first live row with identifier `did`, or -1.
pub open spec fn live_index_of(live: Seq<DidRecord>, did: Seq<char>) -> int
    decreases live.len(),
{
    if live.len() == 0 {
        -1
    } else if live.last().did@ == did {
        live.len() - 1
    } else {
        live_index_of(live.drop_last(), did)
    }
}

impl View for Projection {
    type V = ProjectionView;

    open spec fn view(&self) -> ProjectionView {
        ProjectionView {
            live: self.live@.map_values(|r: DidRecord| r@),
            tombstones: self.tombstones@.map_values(|t: TombstoneRecord| t@),
        }
    }
}

impl Projection {
    /// Every live row is valid; no identifier occurs twice in a table, and
    /// no output twice in the live table.
    pub open spec fn wf(&self) -> bool {
        &&& forall|i: int| 0 <= i < self.live@.len() ==> self.live@[i].valid
        &&& forall|i: int, j: int|
            0 <= i < j < self.live@.len() ==> self.live@[i].did@ != self.live@[j].did@
        &&& forall|i: int, j: int|
            0 <= i < j < self.live@.len() ==> row_ref(self.live@[i]) != row_ref(self.live@[j])
        &&& forall|i: int, j: int|
            0 <= i < j < self.tombstones@.len() ==> self.tombstones@[i].did@ != self.tombstones@[j].did@
    }

    pub open spec fn has_live(&self, did: Seq<char>) -> bool {
        exists|i: int| 0 <= i < self.live@.len() && self.live@[i].did@ == did
    }

    pub open spec fn has_tombstone(&self, did: Seq<char>) -> bool {
        exists|i: int| 0 <= i < self.tombstones@.len() && self.tombstones@[i].did@ == did
    }

    /// No identifier is both live and retired.
    pub open spec fn exclusive(&self) -> bool {
        forall|d: Seq<char>| !(self.has_live(d) && self.has_tombstone(d))
    }

    /// The outputs that the live table stands for.
    pub open spec fn live_refs(&self) -> Set<(Seq<char>, u32)> {
        Set::new(|r: (Seq<char>, u32)| exists|i: int| 0 <= i < self.live@.len() && row_ref(self.live@[i]) == r)
    }

    /// Every live row was written at a height of at most `h`.
    pub open spec fn heights_at_most(&self, h: int) -> bool {
        forall|i: int| 0 <= i < self.live@.len() ==> self.live@[i].height <= h
    }

    /// An empty projection.
    pub fn new() -> (r: Projection)
        ensures
            r.wf(),
            r.live@.len() == 0,
            r.tombstones@.len() == 0,
            r.journal@.len() == 0,
    {
        Projection { live: Vec::new(), tombstones: Vec::new(), journal: Vec::new() }
    }

    /// The greatest height among the live rows; `CountNotFound` when there is none.
    pub fn query_count(&self) -> (r: Result<u64, AppError>)
        ensures
            self.live@.len() == 0 <==> r is Err,
            r is Err ==> r->Err_0 is CountNotFound,
            r is Ok ==> self.heights_at_most(r->Ok_0 as int)
                && exists|i: int| 0 <= i < self.live@.len() && self.live@[i].height == r->Ok_0,
    {
        if self.live.len() == 0 {
            return Err(AppError::CountNotFound);
        }
        let mut best: u64 = self.live[0].height;
        let mut i: usize = 1;
        while i < self.live.len()
            invariant
                1 <= i <= self.live@.len(),
                forall|j: int| 0 <= j < i ==> self.live@[j].height <= best,
                exists|j: int| 0 <= j < i && self.live@[j].height == best,
            decreases self.live@.len() - i,
        {
            if self.live[i].height > best {
                best = self.live[i].height;
            }
            i = i + 1;
        }
        Ok(best)
    }

    /// The outputs of all live rows, which are all valid, in table order.
    pub fn query_valid_index_set(&self) -> (r: Vec<(String, u32)>)
        requires
            self.wf(),
        ensures
            forall|i: int| 0 <= i < self.live@.len() ==> self.live@[i].valid,
            r@.len() == self.live@.len(),
            forall|i: int| 0 <= i < r@.len() ==> (r@[i].0@, r@[i].1) == row_ref(self.live@[i]),
    {
        let mut r: Vec<(String, u32)> = Vec::new();
        let mut i: usize = 0;
        while i < self.live.len()
            invariant
                i <= self.live@.len(),
                r@.len() == i,
                forall|j: int| 0 <= j < i ==> (r@[j].0@, r@[j].1) == row_ref(self.live@[j]),
            decreases self.live@.len() - i,
        {
            r.push((self.live[i].tx_hash.clone(), self.live[i].out_index));
            i = i + 1;
        }
        r
    }

    /// Index of the live row for output `(tx_hash, out_index)`.
    pub fn position_by_ref(&self, tx_hash: &String, out_index: u32) -> (r: Option<usize>)
        ensures
            r is Some ==> r->Some_0 < self.live@.len() && row_ref(self.live@[r->Some_0 as int]) == (tx_hash@, out_index),
            r is None ==> !self.live_refs().contains((tx_hash@, out_index)),
    {
        let mut i: usize = 0;
        while i < self.live.len()
            invariant
                i <= self.live@.len(),
                forall|j: int| 0 <= j < i ==> row_ref(self.live@[j]) != (tx_hash@, out_index),
            decreases self.live@.len() - i,
        {
            if self.live[i].out_index == out_index && self.live[i].tx_hash == *tx_hash {
                return Some(i);
            }
            i = i + 1;
        }
        None
    }

    /// The live row for output `(tx_hash, out_index)`, or `DidDocNotFound`.
    pub fn query_valid_did_doc_by_index(&self, tx_hash: &String, out_index: u32) -> (r: Result<DidRecord, AppError>)
        requires
            self.wf(),
        ensures
            r is Ok ==> r->Ok_0.valid,
            r is Ok <==> self.live_refs().contains((tx_hash@, out_index)),
            r is Ok ==> exists|i: int| 0 <= i < self.live@.len() && self.live@[i] == r->Ok_0
                && row_ref(r->Ok_0) == (tx_hash@, out_index),
            r is Err ==> r->Err_0 is DidDocNotFound,
    {
        match self.position_by_ref(tx_hash, out_index) {
            Some(i) => {
                proof {
                    assert(self.live_refs().contains((tx_hash@, out_index)));
                }
                Ok(self.live[i].duplicate())
            },
            None => Err(AppError::DidDocNotFound(String::from_str("no live record for this output"))),
        }
    }

    /// Index of the live row with identifier `did`.
    pub fn position_by_did(&self, did: &String) -> (r: Option<usize>)
        ensures
            r is Some <==> self.has_live(did@),
            r is Some ==> r->Some_0 < self.live@.len() && self.live@[r->Some_0 as int].did@ == did@,
    {
        let mut i: usize = 0;
        while i < self.live.len()
            invariant
                i <= self.live@.len(),
                forall|j: int| 0 <= j < i ==> self.live@[j].did@ != did@,
            decreases self.live@.len() - i,
        {
            if self.live[i].did == *did {
                return Some(i);
            }
            i = i + 1;
        }
        None
    }

    /// The stored document text of `did`, or `DidDocNotFound`.
    pub fn query_valid_did_doc(&self, did: &String) -> (r: Result<String, AppError>)
        requires
            self.wf(),
        ensures
            r is Ok ==> exists|i: int| 0 <= i < self.live@.len() && self.live@[i].did@ == did@
                && self.live@[i].valid,
            r is Err ==> r->Err_0 == AppError::DidDocNotFound(*did),
            r is Ok <==> self.has_live(did@),
            r is Ok ==> exists|i: int| 0 <= i < self.live@.len() && self.live@[i].did@ == did@
                && self.live@[i].document == r->Ok_0,
            r is Err ==> r->Err_0 is DidDocNotFound,
    {
        match self.position_by_did(did) {
            Some(i) => Ok(self.live[i].document.clone()),
            None => Err(AppError::DidDocNotFound(did.clone())),
        }
    }

    /// The identifier of the first live row with `handle`, or `HandleNotFound`.
    pub fn resolve_valid_handle(&self, handle: &String) -> (r: Result<String, AppError>)
        requires
            self.wf(),
        ensures
            r is Ok ==> exists|i: int| 0 <= i < self.live@.len() && self.live@[i].handle@ == handle@
                && self.live@[i].valid && self.live@[i].did == r->Ok_0,
            r is Err ==> r->Err_0 == AppError::HandleNotFound(*handle),
            r is Ok <==> exists|i: int| 0 <= i < self.live@.len() && self.live@[i].handle@ == handle@,
            r is Ok ==> exists|i: int| 0 <= i < self.live@.len() && self.live@[i].handle@ == handle@
                && self.live@[i].did == r->Ok_0,
            r is Err ==> r->Err_0 is HandleNotFound,
    {
        let mut i: usize = 0;
        while i < self.live.len()
            invariant
                i <= self.live@.len(),
                self.wf(),
                forall|j: int| 0 <= j < i ==> self.live@[j].handle@ != handle@,
            decreases self.live@.len() - i,
        {
            if self.live[i].handle == *handle {
                assert(self.live@[i as int].valid);
                return Ok(self.live[i].did.clone());
            }
            i = i + 1;
        }
        Err(AppError::HandleNotFound(handle.clone()))
    }

    /// Adds a live row. A row for the same identifier or the same output is a
    /// conflict: then nothing changes. Returns whether the row was added.
    pub fn insert_record(&mut self, rec: DidRecord) -> (r: bool)
        requires
            old(self).wf(),
            rec.valid,
        ensures
            r == (!old(self).has_live(rec.did@) && !old(self).live_refs().contains(row_ref(rec))),
            r ==> final(self).live@ == old(self).live@.push(rec),
            r ==> final(self).journal@ == old(self).journal@.push(StoreOp::Insert(rec)),
            !r ==> *final(self) == *old(self),
            final(self).tombstones@ == old(self).tombstones@,
            final(self).wf(),
            old(self).exclusive() && !old(self).has_tombstone(rec.did@) ==> final(self).exclusive(),
    {
        let ghost rec0 = rec;
        let by_did = self.position_by_did(&rec.did);
        let by_ref = self.position_by_ref(&rec.tx_hash, rec.out_index);
        if by_did.is_some() || by_ref.is_some() {
            proof {
                if by_ref.is_some() {
                    let k = by_ref->Some_0 as int;
                    assert(self.live_refs().contains(row_ref(self.live@[k])));
                }
            }
            return false;
        }
        let entry = StoreOp::Insert(rec.duplicate());
        self.live.push(rec);
        self.journal.push(entry);
        proof {
            let o = old(self).live@;
            let n = self.live@;
            assert(n.len() == o.len() + 1);
            assert forall|i: int| 0 <= i < o.len() implies n[i] == o[i] by {}
            assert forall|i: int| 0 <= i < o.len() implies row_ref(o[i]) != row_ref(rec) by {
                if row_ref(o[i]) == row_ref(rec) {
                    assert(old(self).live_refs().contains(row_ref(rec)));
                }
            }
            assert(forall|d: Seq<char>| self.has_live(d) ==> old(self).has_live(d) || d == rec.did@);
            assert(forall|d: Seq<char>| self.has_tombstone(d) == old(self).has_tombstone(d));
        }
        true
    }

    /// Retires the live row of `record.did` at input `in_index` of
    /// transaction `tx_hash` in block `height`: the live row is deleted and a
    /// tombstone written, unless the identifier already has one.
    pub fn delete_record(&mut self, record: &DidRecord, tx_hash: String, in_index: u32, height: u64, deleted_at: String)
        requires
            old(self).wf(),
        ensures
            forall|k: int| 0 <= k < old(self).live@.len() && old(self).live@[k].did@ == record.did@
                ==> final(self).live@ == old(self).live@.remove(k),
            !old(self).has_live(record.did@) ==> final(self).live@ == old(self).live@,
            old(self).has_tombstone(record.did@) ==> final(self).tombstones@ == old(self).tombstones@,
            !old(self).has_tombstone(record.did@) ==> final(self).tombstones@ == old(self).tombstones@.push(
                TombstoneRecord {
                    did: record.did,
                    handle: record.handle,
                    deleted_at: deleted_at,
                    ckb_address: record.ckb_address,
                    tx_hash: tx_hash,
                    in_index: in_index,
                    height: height,
                    document: record.document,
                },
            ),
            final(self).journal@ == old(self).journal@.push(StoreOp::Retire(
                TombstoneRecord {
                    did: record.did,
                    handle: record.handle,
                    deleted_at: deleted_at,
                    ckb_address: record.ckb_address,
                    tx_hash: tx_hash,
                    in_index: in_index,
                    height: height,
                    document: record.document,
                },
            )),
            !final(self).has_live(record.did@),
            final(self).has_tombstone(record.did@),
            final(self).wf(),
            old(self).exclusive() ==> final(self).exclusive(),
    {
        let ghost o = self.live@;
        match self.position_by_did(&record.did) {
            Some(i) => {
                self.live.remove(i);
                proof {
                    let n = self.live@;
                    assert forall|a: int, b: int| 0 <= a < b < n.len() implies n[a].did@ != n[b].did@ && row_ref(n[a]) != row_ref(n[b]) by {
                        let a2 = if a < i { a } else { a + 1 };
                        let b2 = if b < i { b } else { b + 1 };
                        assert(n[a] == o[a2] && n[b] == o[b2]);
                    }
                    assert forall|k: int| 0 <= k < o.len() && o[k].did@ == record.did@ implies n == o.remove(k) by {
                        assert(k == i);
                    }
                    assert forall|d: Seq<char>| self.has_live(d) implies old(self).has_live(d) && d != record.did@ by {
                        let c = choose|c: int| 0 <= c < n.len() && n[c].did@ == d;
                        let c2 = if c < i { c } else { c + 1 };
                        assert(n[c] == o[c2]);
                    }
                }
            },
            None => {},
        }
        let ghost mid = self.live@;
        assert(forall|d: Seq<char>| self.has_live(d) ==> old(self).has_live(d) && d != record.did@);
        let t = TombstoneRecord {
            did: record.did.clone(),
            handle: record.handle.clone(),
            deleted_at: deleted_at,
            ckb_address: record.ckb_address.clone(),
            tx_hash: tx_hash,
            in_index: in_index,
            height: height,
            document: record.document.clone(),
        };
        let found = self.has_tombstone_exec(&record.did);
        let ghost before_push = self.tombstones@;
        self.journal.push(StoreOp::Retire(t.duplicate()));
        if !found {
            self.tombstones.push(t);
            proof {
                let ot = old(self).tombstones@;
                let nt = self.tombstones@;
                assert forall|k: int| 0 <= k < ot.len() implies nt[k] == ot[k] by {}
                assert(nt[ot.len() as int].did@ == record.did@);
                assert(self.has_tombstone(record.did@));
                assert(forall|d: Seq<char>| self.has_tombstone(d) ==> old(self).has_tombstone(d) || d == record.did@);
            }
        }
        proof {
            if found {
                assert(self.tombstones@ == before_push);
                let c = choose|c: int| 0 <= c < before_push.len() && before_push[c].did@ == record.did@;
                assert(self.tombstones@[c].did@ == record.did@);
            }
        }
        assert(self.has_tombstone(record.did@));
        assert(self.live@ == mid);
        assert(forall|d: Seq<char>| self.has_live(d) ==> old(self).has_live(d) && d != record.did@);
    }

    /// Rewrites the live row of `did` to stand for output `(tx_hash,
    /// out_index)` at `height`, with a new handle, creation time and document.
    /// Nothing changes where `did` has no live row or another live row stands
    /// for that output. Returns whether the row was rewritten.
    pub fn update_record(
        &mut self,
        did: &String,
        handle: String,
        created_at: String,
        tx_hash: String,
        out_index: u32,
        height: u64,
        document: String,
    ) -> (r: bool)
        requires
            old(self).wf(),
        ensures
            final(self).wf(),
            final(self).tombstones@ == old(self).tombstones@,
            !r ==> *final(self) == *old(self),
            !old(self).has_live(did@) ==> !r,
            old(self).has_live(did@) && (forall|j: int| 0 <= j < old(self).live@.len()
                && row_ref(old(self).live@[j]) == (tx_hash@, out_index) ==> old(self).live@[j].did@ == did@) ==> r,
            r ==> exists|k: int| 0 <= k < old(self).live@.len() && old(self).live@[k].did@ == did@
                && final(self).live@ == old(self).live@.update(k, DidRecord {
                    did: old(self).live@[k].did,
                    handle: handle,
                    created_at: created_at,
                    ckb_address: old(self).live@[k].ckb_address,
                    tx_hash: tx_hash,
                    out_index: out_index,
                    height: height,
                    document: document,
                    valid: old(self).live@[k].valid,
                }) && final(self).journal@ == old(self).journal@.push(StoreOp::Update(final(self).live@[k])),
    {
        let k = match self.position_by_did(did) {
            Some(k) => k,
            None => return false,
        };
        match self.position_by_ref(&tx_hash, out_index) {
            Some(j) => {
                if j != k {
                    return false;
                }
            },
            None => {},
        }
        let ghost o = self.live@;
        let rec = DidRecord {
            did: self.live[k].did.clone(),
            handle,
            created_at,
            ckb_address: self.live[k].ckb_address.clone(),
            tx_hash,
            out_index,
            height,
            document,
            valid: self.live[k].valid,
        };
        let entry = StoreOp::Update(rec.duplicate());
        self.live.set(k, rec);
        self.journal.push(entry);
        proof {
            let n = self.live@;
            assert forall|a: int, b: int| 0 <= a < b < n.len() implies n[a].did@ != n[b].did@ && row_ref(n[a]) != row_ref(n[b]) by {
                if a == k as int {
                    assert(n[a].did@ == o[a].did@);
                    if row_ref(n[a]) == row_ref(n[b]) {
                        assert(n[b] == o[b]);
                        assert(old(self).live_refs().contains(row_ref(o[b])));
                    }
                } else if b == k as int {
                    assert(n[b].did@ == o[b].did@);
                    if row_ref(n[a]) == row_ref(n[b]) {
                        assert(n[a] == o[a]);
                        assert(old(self).live_refs().contains(row_ref(o[a])));
                    }
                }
            }
        }
        true
    }

    /// Tests whether the tables are well formed.
    pub fn check_wf(&self) -> (r: bool)
        ensures
            r == self.wf(),
    {
        let n = self.live.len();
        let mut v: usize = 0;
        while v < n
            invariant
                n == self.live@.len(),
                v <= n,
                forall|a: int| 0 <= a < v ==> self.live@[a].valid,
            decreases n - v,
        {
            if !self.live[v].valid {
                return false;
            }
            v = v + 1;
        }
        let mut i: usize = 0;
        while i < n
            invariant
                n == self.live@.len(),
                forall|a: int| 0 <= a < n ==> self.live@[a].valid,
                i <= n,
                forall|a: int, b: int| 0 <= a < b < n && a < i ==> self.live@[a].did@ != self.live@[b].did@
                    && row_ref(self.live@[a]) != row_ref(self.live@[b]),
            decreases n - i,
        {
            let mut j: usize = i + 1;
            while j < n
                invariant
                    n == self.live@.len(),
                    forall|a: int| 0 <= a < n ==> self.live@[a].valid,
                    i < n,
                    i < j <= n,
                    forall|a: int, b: int| 0 <= a < b < n && a < i ==> self.live@[a].did@ != self.live@[b].did@
                        && row_ref(self.live@[a]) != row_ref(self.live@[b]),
                    forall|b: int| i < b < j ==> self.live@[i as int].did@ != self.live@[b].did@
                        && row_ref(self.live@[i as int]) != row_ref(self.live@[b]),
                decreases n - j,
            {
                if self.live[i].did == self.live[j].did
                    || (self.live[i].tx_hash == self.live[j].tx_hash && self.live[i].out_index == self.live[j].out_index) {
                    return false;
                }
                j = j + 1;
            }
            i = i + 1;
        }
        let m = self.tombstones.len();
        let mut i: usize = 0;
        while i < m
            invariant
                m == self.tombstones@.len(),
                forall|a: int| 0 <= a < self.live@.len() ==> self.live@[a].valid,
                i <= m,
                forall|a: int, b: int| 0 <= a < b < self.live@.len() ==> self.live@[a].did@ != self.live@[b].did@
                    && row_ref(self.live@[a]) != row_ref(self.live@[b]),
                forall|a: int, b: int| 0 <= a < b < m && a < i ==> self.tombstones@[a].did@ != self.tombstones@[b].did@,
            decreases m - i,
        {
            let mut j: usize = i + 1;
            while j < m
                invariant
                    m == self.tombstones@.len(),
                    forall|a: int| 0 <= a < self.live@.len() ==> self.live@[a].valid,
                    forall|a: int, b: int| 0 <= a < b < self.live@.len() ==> self.live@[a].did@ != self.live@[b].did@
                        && row_ref(self.live@[a]) != row_ref(self.live@[b]),
                    i < m,
                    i < j <= m,
                    forall|a: int, b: int| 0 <= a < b < m && a < i ==> self.tombstones@[a].did@ != self.tombstones@[b].did@,
                    forall|b: int| i < b < j ==> self.tombstones@[i as int].did@ != self.tombstones@[b].did@,
                decreases m - j,
            {
                if self.tombstones[i].did == self.tombstones[j].did {
                    return false;
                }
                j = j + 1;
            }
            i = i + 1;
        }
        true
    }

    /// Whether `did` has a tombstone.
    pub fn has_tombstone_exec(&self, did: &String) -> (r: bool)
        ensures
            r == self.has_tombstone(did@),
    {
        let mut i: usize = 0;
        while i < self.tombstones.len()
            invariant
                i <= self.tombstones@.len(),
                forall|j: int| 0 <= j < i ==> self.tombstones@[j].did@ != did@,
            decreases self.tombstones@.len() - i,
        {
            if self.tombstones[i].did == *did {
                return true;
            }
            i = i + 1;
        }
        false
    }
}

} // verus!
