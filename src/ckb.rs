use vstd::prelude::*;
use crate::bytes::bytes_eq;
use crate::envelope::{is_v1_envelope, parse_molecule, v1_document};
use crate::error::AppError;
use crate::store::{row_ref, DidRecord, Projection, ProjectionView, RowView, TombView};
use crate::util::{
    address_of, calculate_web5_did, check_did_doc, did_of, doc_is_valid, handle_of, rfc3339_millis,
    transfer_time, utf8, Web5DocumentData, MAX_RENDERED_MILLIS,
};

verus! {

/// The network an address is rendered for.
#[derive(Clone, Copy, Debug, PartialEq, Eq, Structural)]
pub enum Network {
    Mainnet,
    Testnet,
}

/// A script: code hash, hash type and arguments.
#[derive(Clone, Debug)]
pub struct Script {
    pub code_hash: Vec<u8>,
    pub hash_type: u8,
    pub args: Vec<u8>,
}

impl Script {
    /// A 32-byte code hash and a hash type that the chain knows.
    pub open spec fn wf(&self) -> bool {
        self.code_hash@.len() == 32 && (self.hash_type % 2 == 0 || self.hash_type == 1)
    }
}

/// A decoded document together with its canonical JSON text.
#[derive(Clone, Debug)]
pub struct DecodedDocument {
    pub doc: Web5DocumentData,
    pub json: String,
}

/// An output of a transaction with its data. `document` is supplied by the
/// caller: it must be the DAG-CBOR decoding of the document that the data's
/// envelope carries, or `None` where the envelope is malformed or the document
/// does not decode. Nothing here decodes DAG-CBOR or checks that the two agree;
/// an output is indexed only where the envelope is well formed and a
/// document is supplied.
#[derive(Clone, Debug)]
pub struct CellOutput {
    pub lock: Script,
    pub type_: Option<Script>,
    pub data: Vec<u8>,
    pub document: Option<DecodedDocument>,
}

/// The output that an input spends.
#[derive(Clone, Debug)]
pub struct OutPoint {
    pub tx_hash: String,
    pub index: u32,
}

/// A transaction: its hash, the outputs it spends and the outputs it creates.
#[derive(Clone, Debug)]
pub struct Transaction {
    pub hash: String,
    pub inputs: Vec<OutPoint>,
    pub outputs: Vec<CellOutput>,
}

/// A block: its timestamp in Unix milliseconds and its transactions.
#[derive(Clone, Debug)]
pub struct Block {
    pub timestamp: u64,
    pub transactions: Vec<Transaction>,
}

impl Block {
    /// Every lock script of the block is well formed, and no transaction has
    /// more inputs or outputs than a 32-bit index can name.
    pub open spec fn wf(&self) -> bool {
        forall|t: int| 0 <= t < self.transactions@.len() ==> {
            &&& self.transactions@[t].inputs@.len() <= u32::MAX
            &&& self.transactions@[t].outputs@.len() <= u32::MAX
            &&& forall|o: int| 0 <= o < self.transactions@[t].outputs@.len()
                ==> #[trigger] self.transactions@[t].outputs@[o].lock.wf()
        }
    }
}

impl Block {
    /// Tests whether the block is well formed.
    pub fn check_wf(&self) -> (r: bool)
        ensures
            r == self.wf(),
    {
        let mut t: usize = 0;
        while t < self.transactions.len()
            invariant
                t <= self.transactions@.len(),
                forall|u: int| 0 <= u < t ==> {
                    &&& self.transactions@[u].inputs@.len() <= u32::MAX
                    &&& self.transactions@[u].outputs@.len() <= u32::MAX
                    &&& forall|o: int| 0 <= o < self.transactions@[u].outputs@.len()
                        ==> #[trigger] self.transactions@[u].outputs@[o].lock.wf()
                },
            decreases self.transactions@.len() - t,
        {
            let tx = &self.transactions[t];
            if tx.inputs.len() > u32::MAX as usize || tx.outputs.len() > u32::MAX as usize {
                return false;
            }
            let mut o: usize = 0;
            while o < tx.outputs.len()
                invariant
                    t < self.transactions@.len(),
                    *tx == self.transactions@[t as int],
                    o <= tx.outputs@.len(),
                    forall|p: int| 0 <= p < o ==> #[trigger] tx.outputs@[p].lock.wf(),
                decreases tx.outputs@.len() - o,
            {
                let lock = &tx.outputs[o].lock;
                if lock.code_hash.len() != 32 || !(lock.hash_type % 2 == 0 || lock.hash_type == 1) {
                    assert(!self.transactions@[t as int].outputs@[o as int].lock.wf());
                    return false;
                }
                o = o + 1;
            }
            t = t + 1;
        }
        true
    }
}

/// The outcome of one iteration of the follower.
pub struct RollingResult {
    pub is_sync: bool,
    pub got_block: bool,
}

/// Renders the address of a lock script for a network.
pub fn calculate_address(lock_script: &Script, network: Network) -> (r: String)
    requires
        lock_script.wf(),
    ensures
        r@ == address_of(network == Network::Mainnet, lock_script.code_hash@, lock_script.hash_type, lock_script.args@),
{
    crate::util::full_address_of(
        network == Network::Mainnet,
        lock_script.code_hash.as_slice(),
        lock_script.hash_type,
        lock_script.args.as_slice(),
    )
}

/// Whether an output is a DID cell of the indexed kind whose document is valid.
pub open spec fn indexable(out: CellOutput, target_code_hash: Seq<u8>) -> bool {
    &&& out.type_ is Some
    &&& out.type_->Some_0.code_hash@ == target_code_hash
    &&& out.type_->Some_0.args@.len() >= 20
    &&& is_v1_envelope(out.data@)
    &&& out.document is Some
    &&& doc_is_valid(out.document->Some_0.doc)
}

/// The live row that an indexable output yields.
pub open spec fn record_for(
    rec: DidRecord,
    out: CellOutput,
    tx_hash: Seq<char>,
    out_index: u32,
    height: u64,
    timestamp: u64,
    network: Network,
) -> bool {
    &&& rec.did@ == did_of(out.type_->Some_0.args@)
    &&& utf8(rec.handle) == handle_of(out.document->Some_0.doc)
    &&& rec.created_at@ == rfc3339_millis(timestamp as int)
    &&& rec.ckb_address@ == address_of(network == Network::Mainnet, out.lock.code_hash@, out.lock.hash_type, out.lock.args@)
    &&& rec.tx_hash@ == tx_hash
    &&& rec.out_index == out_index
    &&& rec.height == height
    &&& rec.document == out.document->Some_0.json
    &&& rec.valid
}

/// Whether a live row stands for output `r`.
pub open spec fn ref_is_live(p: ProjectionView, r: (Seq<char>, u32)) -> bool {
    exists|k: int| 0 <= k < p.live.len() && (p.live[k].tx_hash, p.live[k].out_index) == r
}

/// Whether `did` has a live row.
pub open spec fn did_is_live(p: ProjectionView, did: Seq<char>) -> bool {
    exists|k: int| 0 <= k < p.live.len() && p.live[k].did == did
}

/// Whether `did` has a tombstone.
pub open spec fn did_is_retired(p: ProjectionView, did: Seq<char>) -> bool {
    exists|k: int| 0 <= k < p.tombstones.len() && p.tombstones[k].did == did
}

/// The tables after input `in_index` of transaction `tx_hash` in block
/// `height` spends output `spent`: the row of an indexed output moves to the
/// tombstones, unless its identifier already has one, in which case it is
/// only deleted.
pub open spec fn after_input(
    p: ProjectionView,
    spent: (Seq<char>, u32),
    tx_hash: Seq<char>,
    in_index: u32,
    height: u64,
    stamp: Seq<char>,
) -> ProjectionView {
    if ref_is_live(p, spent) {
        let k = choose|k: int| 0 <= k < p.live.len() && (p.live[k].tx_hash, p.live[k].out_index) == spent;
        let row = p.live[k];
        ProjectionView {
            live: p.live.remove(k),
            tombstones: if did_is_retired(p, row.did) {
                p.tombstones
            } else {
                p.tombstones.push(TombView {
                    did: row.did,
                    handle: row.handle,
                    deleted_at: stamp,
                    ckb_address: row.ckb_address,
                    tx_hash: tx_hash,
                    in_index: in_index,
                    height: height,
                    document: row.document,
                })
            },
        }
    } else {
        p
    }
}

/// The tables after output `out_index` of transaction `tx_hash` in block
/// `height`: an indexable output whose identifier and output are not live
/// yet gets a live row.
pub open spec fn after_output(
    p: ProjectionView,
    out: CellOutput,
    tx_hash: Seq<char>,
    out_index: u32,
    height: u64,
    timestamp: u64,
    target_code_hash: Seq<u8>,
    network: Network,
) -> ProjectionView {
    let did = did_of(out.type_->Some_0.args@);
    if indexable(out, target_code_hash) && !did_is_live(p, did) && !ref_is_live(p, (tx_hash, out_index)) {
        ProjectionView {
            live: p.live.push(RowView {
                did: did,
                handle: handle_of(out.document->Some_0.doc),
                created_at: rfc3339_millis(timestamp as int),
                ckb_address: address_of(network == Network::Mainnet, out.lock.code_hash@, out.lock.hash_type, out.lock.args@),
                tx_hash: tx_hash,
                out_index: out_index,
                height: height,
                document: out.document->Some_0.json@,
                valid: true,
            }),
            tombstones: p.tombstones,
        }
    } else {
        p
    }
}

/// The tables after the first `n` inputs of a transaction.
pub open spec fn inputs_upto(p: ProjectionView, tx: Transaction, n: int, height: u64, stamp: Seq<char>) -> ProjectionView
    decreases n,
{
    if n <= 0 {
        p
    } else {
        after_input(
            inputs_upto(p, tx, n - 1, height, stamp),
            (tx.inputs@[n - 1].tx_hash@, tx.inputs@[n - 1].index),
            tx.hash@,
            (n - 1) as u32,
            height,
            stamp,
        )
    }
}

/// The tables after the first `n` outputs of a transaction.
pub open spec fn outputs_upto(
    p: ProjectionView,
    tx: Transaction,
    n: int,
    height: u64,
    timestamp: u64,
    target_code_hash: Seq<u8>,
    network: Network,
) -> ProjectionView
    decreases n,
{
    if n <= 0 {
        p
    } else {
        after_output(
            outputs_upto(p, tx, n - 1, height, timestamp, target_code_hash, network),
            tx.outputs@[n - 1],
            tx.hash@,
            (n - 1) as u32,
            height,
            timestamp,
            target_code_hash,
            network,
        )
    }
}

/// The tables after a transaction: its inputs, then its outputs.
pub open spec fn after_tx(
    p: ProjectionView,
    tx: Transaction,
    height: u64,
    timestamp: u64,
    target_code_hash: Seq<u8>,
    network: Network,
) -> ProjectionView {
    outputs_upto(
        inputs_upto(p, tx, tx.inputs@.len() as int, height, rfc3339_millis(timestamp as int)),
        tx,
        tx.outputs@.len() as int,
        height,
        timestamp,
        target_code_hash,
        network,
    )
}

/// The tables after the first `n` transactions of a block.
pub open spec fn txs_upto(
    p: ProjectionView,
    block: Block,
    n: int,
    height: u64,
    target_code_hash: Seq<u8>,
    network: Network,
) -> ProjectionView
    decreases n,
{
    if n <= 0 {
        p
    } else {
        after_tx(
            txs_upto(p, block, n - 1, height, target_code_hash, network),
            block.transactions@[n - 1],
            height,
            block.timestamp,
            target_code_hash,
            network,
        )
    }
}

/// The tables after a block at `height`.
pub open spec fn after_block(
    p: ProjectionView,
    block: Block,
    height: u64,
    target_code_hash: Seq<u8>,
    network: Network,
) -> ProjectionView {
    txs_upto(p, block, block.transactions@.len() as int, height, target_code_hash, network)
}

/// The follower's in-memory set of indexed outputs.
pub struct CkbCtx {
    pub valid_cells: Vec<(String, u32)>,
}

impl CkbCtx {
    /// The outputs in the set.
    pub open spec fn cell_set(&self) -> Set<(Seq<char>, u32)> {
        Set::new(|r: (Seq<char>, u32)| exists|i: int| 0 <= i < self.valid_cells@.len()
            && (self.valid_cells@[i].0@, self.valid_cells@[i].1) == r)
    }

    /// The set lists the outputs of the live table, in the table's order.
    pub open spec fn mirrors(&self, store: &Projection) -> bool {
        &&& store.wf()
        &&& self.valid_cells@.len() == store.live@.len()
        &&& forall|i: int| 0 <= i < self.valid_cells@.len()
            ==> (self.valid_cells@[i].0@, self.valid_cells@[i].1) == row_ref(store.live@[i])
    }

    /// A set that holds the given outputs, in the given order.
    pub fn init(live_cells: Vec<(String, u32)>) -> (r: CkbCtx)
        ensures
            r.valid_cells@ == live_cells@,
    {
        CkbCtx { valid_cells: live_cells }
    }

    /// Retires the row of the output that an input spends, if that output is
    /// indexed. Returns whether it was.
    pub fn apply_input(
        &mut self,
        store: &mut Projection,
        input: &OutPoint,
        tx_hash: &String,
        in_index: u32,
        height: u64,
        deleted_at: &String,
    ) -> (r: bool)
        requires
            old(self).mirrors(old(store)),
        ensures
            final(self).mirrors(final(store)),
            r == old(store).live_refs().contains((input.tx_hash@, input.index)),
            !r ==> *final(store) == *old(store) && final(self).valid_cells@ == old(self).valid_cells@,
            r ==> exists|k: int| 0 <= k < old(store).live@.len()
                && row_ref(old(store).live@[k]) == (input.tx_hash@, input.index)
                && final(store).live@ == old(store).live@.remove(k)
                && final(store).has_tombstone(old(store).live@[k].did@),
            forall|h: int| old(store).heights_at_most(h) ==> final(store).heights_at_most(h),
            old(store).exclusive() ==> final(store).exclusive(),
            final(store)@ == after_input(old(store)@, (input.tx_hash@, input.index), tx_hash@, in_index, height, deleted_at@),
    {
        proof {
            lemma_view_membership(store);
        }
        match store.position_by_ref(&input.tx_hash, input.index) {
            None => false,
            Some(i) => {
                proof {
                    assert(store.live_refs().contains((input.tx_hash@, input.index)));
                }
                let row = store.live[i].duplicate();
                store.delete_record(&row, tx_hash.clone(), in_index, height, deleted_at.clone());
                self.valid_cells.remove(i);
                proof {
                    let o = old(store).live@;
                    let n = store.live@;
                    assert(n == o.remove(i as int));
                    let p = old(store)@;
                    let spent = (input.tx_hash@, input.index);
                    let k = choose|k: int| 0 <= k < p.live.len() && (p.live[k].tx_hash, p.live[k].out_index) == spent;
                    assert(p.live[k] == o[k]@);
                    assert(row_ref(o[k]) == row_ref(o[i as int]));
                    assert(k == i);
                    assert(store@.live =~= p.live.remove(k));
                    if !did_is_retired(p, row@.did) {
                        assert(store@.tombstones =~= p.tombstones.push(TombView {
                            did: row@.did,
                            handle: row@.handle,
                            deleted_at: deleted_at@,
                            ckb_address: row@.ckb_address,
                            tx_hash: tx_hash@,
                            in_index: in_index,
                            height: height,
                            document: row@.document,
                        }));
                    } else {
                        assert(store@.tombstones =~= p.tombstones);
                    }
                    assert forall|j: int| 0 <= j < self.valid_cells@.len() implies
                        (self.valid_cells@[j].0@, self.valid_cells@[j].1) == row_ref(store.live@[j]) by {
                        let j2 = if j < i { j } else { j + 1 };
                        assert(n[j] == o[j2]);
                    }
                    assert forall|h: int| old(store).heights_at_most(h) implies store.heights_at_most(h) by {
                        assert forall|j: int| 0 <= j < n.len() implies n[j].height <= h by {
                            let j2 = if j < i { j } else { j + 1 };
                            assert(n[j] == o[j2]);
                        }
                    }
                }
                true
            },
        }
    }

    /// Indexes an output of the target kind whose document is valid; any
    /// other output, and one whose identifier or output is already live, is
    /// skipped. Returns whether a row was added.
    pub fn apply_output(
        &mut self,
        store: &mut Projection,
        out: &CellOutput,
        tx_hash: &String,
        out_index: u32,
        height: u64,
        timestamp: u64,
        created_at: &String,
        target_code_hash: &[u8],
        network: Network,
    ) -> (r: bool)
        requires
            old(self).mirrors(old(store)),
            out.lock.wf(),
            created_at@ == rfc3339_millis(timestamp as int),
        ensures
            final(self).mirrors(final(store)),
            final(store).tombstones@ == old(store).tombstones@,
            r ==> indexable(*out, target_code_hash@),
            r ==> !old(store).has_live(did_of(out.type_->Some_0.args@))
                && !old(store).live_refs().contains((tx_hash@, out_index)),
            indexable(*out, target_code_hash@) && !old(store).live_refs().contains((tx_hash@, out_index))
                ==> final(store).has_live(did_of(out.type_->Some_0.args@)),
            indexable(*out, target_code_hash@) && !old(store).has_live(did_of(out.type_->Some_0.args@))
                && !old(store).live_refs().contains((tx_hash@, out_index)) ==> r,
            r ==> final(store).live@ == old(store).live@.push(final(store).live@.last())
                && record_for(final(store).live@.last(), *out, tx_hash@, out_index, height, timestamp, network),
            !r ==> final(store).live@ == old(store).live@ && final(self).valid_cells@ == old(self).valid_cells@,
            forall|h: int| old(store).heights_at_most(h) && height <= h ==> final(store).heights_at_most(h),
            old(store).exclusive() && !old(store).has_tombstone(did_of(out.type_->Some_0.args@))
                ==> final(store).exclusive(),
            final(store)@ == after_output(old(store)@, *out, tx_hash@, out_index, height, timestamp, target_code_hash@, network),
    {
        proof {
            lemma_view_membership(store);
        }
        let type_script = match &out.type_ {
            Some(t) => t,
            None => return false,
        };
        if !bytes_eq(type_script.code_hash.as_slice(), target_code_hash) || type_script.args.len() < 20 {
            return false;
        }
        if parse_molecule(out.data.as_slice()).is_err() {
            return false;
        }
        let decoded = match &out.document {
            Some(d) => d,
            None => return false,
        };
        let handle = match check_did_doc(&decoded.doc) {
            Ok(pair) => pair.0,
            Err(_) => return false,
        };
        let did = calculate_web5_did(type_script.args.as_slice());
        let ckb_address = calculate_address(&out.lock, network);
        let rec = DidRecord {
            did,
            handle,
            created_at: created_at.clone(),
            ckb_address,
            tx_hash: tx_hash.clone(),
            out_index,
            height,
            document: decoded.json.clone(),
            valid: true,
        };
        let ghost rec_spec = rec;
        let inserted = store.insert_record(rec);
        proof {
            if inserted {
                assert(store.live@[store.live@.len() - 1] == rec_spec);
                assert(store.has_live(rec_spec.did@));
                assert(store@.live =~= old(store)@.live.push(rec_spec@));
                assert(store@.tombstones =~= old(store)@.tombstones);
            }
        }
        if inserted {
            self.valid_cells.push((tx_hash.clone(), out_index));
            proof {
                let n = store.live@;
                assert(n.last() == rec_spec);
                assert forall|h: int| old(store).heights_at_most(h) && height <= h implies store.heights_at_most(h) by {
                    assert forall|j: int| 0 <= j < n.len() implies n[j].height <= h by {
                        if j < old(store).live@.len() {
                            assert(n[j] == old(store).live@[j]);
                        }
                    }
                }
            }
        }
        inserted
    }

    /// Applies a block at `height`: transaction by transaction in block
    /// order, the inputs, then the outputs. Fails, changing nothing, only
    /// when the block's timestamp cannot be rendered.
    pub fn apply_block(
        &mut self,
        store: &mut Projection,
        block: &Block,
        height: u64,
        target_code_hash: &[u8],
        network: Network,
    ) -> (r: Result<(), AppError>)
        requires
            old(self).mirrors(old(store)),
            block.wf(),
        ensures
            final(self).mirrors(final(store)),
            final(self).cell_set() == final(store).live_refs(),
            r is Err ==> *final(store) == *old(store) && final(self).valid_cells@ == old(self).valid_cells@
                && r->Err_0 is RunTimeError,
            block.timestamp > i64::MAX ==> r is Err,
            block.timestamp <= MAX_RENDERED_MILLIS ==> r is Ok,
            r is Ok ==> final(store)@ == after_block(old(store)@, *block, height, target_code_hash@, network),
            forall|h: int| old(store).heights_at_most(h) && height <= h ==> final(store).heights_at_most(h),
    {
        let stamp = match transfer_time(block.timestamp) {
            Ok(s) => s,
            Err(e) => {
                proof {
                    lemma_mirror_parity(self, store);
                }
                return Err(e);
            },
        };
        let mut t: usize = 0;
        while t < block.transactions.len()
            invariant
                block.wf(),
                t <= block.transactions@.len(),
                self.mirrors(store),
                stamp@ == rfc3339_millis(block.timestamp as int),
                forall|h: int| old(store).heights_at_most(h) && height <= h ==> store.heights_at_most(h),
                store@ == txs_upto(old(store)@, *block, t as int, height, target_code_hash@, network),
            decreases block.transactions@.len() - t,
        {
            let tx = &block.transactions[t];
            let ghost start = store@;
            let mut i: usize = 0;
            while i < tx.inputs.len()
                invariant
                    block.wf(),
                    t < block.transactions@.len(),
                    *tx == block.transactions@[t as int],
                    i <= tx.inputs@.len(),
                    self.mirrors(store),
                    store@ == inputs_upto(start, *tx, i as int, height, stamp@),
                    forall|h: int| old(store).heights_at_most(h) && height <= h ==> store.heights_at_most(h),
                decreases tx.inputs@.len() - i,
            {
                self.apply_input(store, &tx.inputs[i], &tx.hash, i as u32, height, &stamp);
                i = i + 1;
            }
            let ghost mid = store@;
            let mut o: usize = 0;
            while o < tx.outputs.len()
                invariant
                    block.wf(),
                    t < block.transactions@.len(),
                    *tx == block.transactions@[t as int],
                    o <= tx.outputs@.len(),
                    self.mirrors(store),
                    mid == inputs_upto(start, *tx, tx.inputs@.len() as int, height, stamp@),
                    store@ == outputs_upto(mid, *tx, o as int, height, block.timestamp, target_code_hash@, network),
                    stamp@ == rfc3339_millis(block.timestamp as int),
                    forall|h: int| old(store).heights_at_most(h) && height <= h ==> store.heights_at_most(h),
                decreases tx.outputs@.len() - o,
            {
                assert(tx.outputs@[o as int].lock.wf());
                self.apply_output(
                    store,
                    &tx.outputs[o],
                    &tx.hash,
                    o as u32,
                    height,
                    block.timestamp,
                    &stamp,
                    target_code_hash,
                    network,
                );
                o = o + 1;
            }
            assert(store@ == after_tx(start, block.transactions@[t as int], height, block.timestamp, target_code_hash@, network));
            t = t + 1;
        }
        proof {
            lemma_mirror_parity(self, store);
        }
        Ok(())
    }

    /// One iteration of the follower at `query_height`, given what the node
    /// answered: the block at that height, if any, and the tip height where
    /// it was asked for (see `needs_tip`).
    pub fn rolling(
        &mut self,
        store: &mut Projection,
        query_height: u64,
        block: Option<&Block>,
        tip: Option<u64>,
        is_sync: bool,
        target_code_hash: &[u8],
        network: Network,
    ) -> (r: Result<RollingResult, AppError>)
        requires
            old(self).mirrors(old(store)),
            block is Some ==> block->Some_0.wf(),
        ensures
            final(self).mirrors(final(store)),
            final(self).cell_set() == final(store).live_refs(),
            block is None ==> *final(store) == *old(store) && final(self).valid_cells@ == old(self).valid_cells@,
            r is Ok ==> r->Ok_0.got_block == block is Some,
            r is Ok ==> r->Ok_0.is_sync == next_sync(is_sync, query_height, block is Some, tip),
            r is Err ==> block is Some && block->Some_0.timestamp > i64::MAX || r->Err_0 is RunTimeError,
            block is None ==> r is Ok,
            block is Some && block->Some_0.timestamp <= MAX_RENDERED_MILLIS ==> r is Ok,
            block is Some && r is Ok ==> final(store)@ == after_block(old(store)@, *block->Some_0, query_height, target_code_hash@, network),
            forall|h: int| old(store).heights_at_most(h) && query_height <= h ==> final(store).heights_at_most(h),
    {
        let next = sync_after(is_sync, query_height, block.is_some(), tip);
        match block {
            Some(b) => {
                match self.apply_block(store, b, query_height, target_code_hash, network) {
                    Ok(()) => Ok(RollingResult { is_sync: next, got_block: true }),
                    Err(e) => Err(e),
                }
            },
            None => {
                proof {
                    lemma_mirror_parity(self, store);
                }
                Ok(RollingResult { is_sync: next, got_block: false })
            },
        }
    }
}

/// The value view agrees with the tables on which outputs and identifiers are
/// live or retired.
pub proof fn lemma_view_membership(store: &Projection)
    ensures
        forall|r: (Seq<char>, u32)| ref_is_live(store@, r) == store.live_refs().contains(r),
        forall|d: Seq<char>| did_is_live(store@, d) == store.has_live(d),
        forall|d: Seq<char>| did_is_retired(store@, d) == store.has_tombstone(d),
{
    let p = store@;
    assert forall|r: (Seq<char>, u32)| ref_is_live(p, r) == store.live_refs().contains(r) by {
        if ref_is_live(p, r) {
            let k = choose|k: int| 0 <= k < p.live.len() && (p.live[k].tx_hash, p.live[k].out_index) == r;
            assert(row_ref(store.live@[k]) == r);
        }
        if store.live_refs().contains(r) {
            let k = choose|k: int| 0 <= k < store.live@.len() && row_ref(store.live@[k]) == r;
            assert(p.live[k] == store.live@[k]@);
        }
    }
    assert forall|d: Seq<char>| did_is_live(p, d) == store.has_live(d) by {
        if did_is_live(p, d) {
            let k = choose|k: int| 0 <= k < p.live.len() && p.live[k].did == d;
            assert(store.live@[k].did@ == d);
        }
        if store.has_live(d) {
            let k = choose|k: int| 0 <= k < store.live@.len() && store.live@[k].did@ == d;
            assert(p.live[k] == store.live@[k]@);
        }
    }
    assert forall|d: Seq<char>| did_is_retired(p, d) == store.has_tombstone(d) by {
        if did_is_retired(p, d) {
            let k = choose|k: int| 0 <= k < p.tombstones.len() && p.tombstones[k].did == d;
            assert(store.tombstones@[k].did@ == d);
        }
        if store.has_tombstone(d) {
            let k = choose|k: int| 0 <= k < store.tombstones@.len() && store.tombstones@[k].did@ == d;
            assert(p.tombstones[k] == store.tombstones@[k]@);
        }
    }
}

/// No two live rows stand for the same output.
pub open spec fn refs_distinct(p: ProjectionView) -> bool {
    forall|i: int, j: int| 0 <= i < j < p.live.len()
        ==> (p.live[i].tx_hash, p.live[i].out_index) != (p.live[j].tx_hash, p.live[j].out_index)
}

/// Spending the same output a second time changes nothing more.
pub proof fn lemma_input_twice(
    p: ProjectionView,
    spent: (Seq<char>, u32),
    tx_hash: Seq<char>,
    in_index: u32,
    height: u64,
    stamp: Seq<char>,
)
    requires
        refs_distinct(p),
    ensures
        after_input(after_input(p, spent, tx_hash, in_index, height, stamp), spent, tx_hash, in_index, height, stamp)
            == after_input(p, spent, tx_hash, in_index, height, stamp),
{
    let p1 = after_input(p, spent, tx_hash, in_index, height, stamp);
    if ref_is_live(p, spent) {
        let k = choose|k: int| 0 <= k < p.live.len() && (p.live[k].tx_hash, p.live[k].out_index) == spent;
        assert(p1.live == p.live.remove(k));
        assert forall|j: int| 0 <= j < p1.live.len() implies (p1.live[j].tx_hash, p1.live[j].out_index) != spent by {
            let j2 = if j < k { j } else { j + 1 };
            assert(p1.live[j] == p.live[j2]);
        }
        assert(!ref_is_live(p1, spent));
    }
}

/// Applying the same output a second time changes nothing more.
pub proof fn lemma_output_twice(
    p: ProjectionView,
    out: CellOutput,
    tx_hash: Seq<char>,
    out_index: u32,
    height: u64,
    timestamp: u64,
    target_code_hash: Seq<u8>,
    network: Network,
)
    ensures
        after_output(
            after_output(p, out, tx_hash, out_index, height, timestamp, target_code_hash, network),
            out,
            tx_hash,
            out_index,
            height,
            timestamp,
            target_code_hash,
            network,
        ) == after_output(p, out, tx_hash, out_index, height, timestamp, target_code_hash, network),
{
    let p1 = after_output(p, out, tx_hash, out_index, height, timestamp, target_code_hash, network);
    let did = did_of(out.type_->Some_0.args@);
    if indexable(out, target_code_hash) && !did_is_live(p, did) && !ref_is_live(p, (tx_hash, out_index)) {
        assert(p1.live[p1.live.len() - 1].did == did);
        assert(did_is_live(p1, did));
    }
}

/// Two sets that mirror the same tables hold the same outputs in the same
/// order: a follower rebuilt from the persisted tables is in the state that a
/// follower which never stopped is in over those tables.
pub proof fn lemma_restart_same_set(a: &CkbCtx, b: &CkbCtx, store: &Projection)
    requires
        a.mirrors(store),
        b.mirrors(store),
    ensures
        a.valid_cells@.len() == b.valid_cells@.len(),
        forall|i: int| 0 <= i < a.valid_cells@.len()
            ==> (a.valid_cells@[i].0@, a.valid_cells@[i].1) == (b.valid_cells@[i].0@, b.valid_cells@[i].1),
        a.cell_set() == b.cell_set(),
{
    assert forall|i: int| 0 <= i < a.valid_cells@.len() implies
        (a.valid_cells@[i].0@, a.valid_cells@[i].1) == (b.valid_cells@[i].0@, b.valid_cells@[i].1) by {
        assert((a.valid_cells@[i].0@, a.valid_cells@[i].1) == row_ref(store.live@[i]));
        assert((b.valid_cells@[i].0@, b.valid_cells@[i].1) == row_ref(store.live@[i]));
    }
    lemma_mirror_parity(a, store);
    lemma_mirror_parity(b, store);
}

/// A set that mirrors the live table holds exactly the table's outputs.
pub proof fn lemma_mirror_parity(ctx: &CkbCtx, store: &Projection)
    requires
        ctx.mirrors(store),
    ensures
        ctx.cell_set() == store.live_refs(),
{
    assert forall|r: (Seq<char>, u32)| ctx.cell_set().contains(r) implies store.live_refs().contains(r) by {
        let i = choose|i: int| 0 <= i < ctx.valid_cells@.len() && (ctx.valid_cells@[i].0@, ctx.valid_cells@[i].1) == r;
        assert(row_ref(store.live@[i]) == r);
    }
    assert forall|r: (Seq<char>, u32)| store.live_refs().contains(r) implies ctx.cell_set().contains(r) by {
        let i = choose|i: int| 0 <= i < store.live@.len() && row_ref(store.live@[i]) == r;
        assert((ctx.valid_cells@[i].0@, ctx.valid_cells@[i].1) == r);
    }
    assert(ctx.cell_set() =~= store.live_refs());
}

/// Whether the iteration asks the node for its tip: with a block, at every
/// hundredth height while behind; without one, while catching up.
pub open spec fn tip_wanted(is_sync: bool, height: u64, got_block: bool) -> bool {
    if got_block {
        height % 100 == 0 && !is_sync
    } else {
        is_sync
    }
}

/// The sync flag after an iteration: with a block, a tip above the height
/// sets it; without one, a tip below the height clears it.
pub open spec fn next_sync(is_sync: bool, height: u64, got_block: bool, tip: Option<u64>) -> bool {
    if !tip_wanted(is_sync, height, got_block) || tip is None {
        is_sync
    } else if got_block {
        if tip->Some_0 > height { true } else { is_sync }
    } else {
        if tip->Some_0 < height { false } else { is_sync }
    }
}

/// Whether the iteration at `height` asks the node for its tip.
pub fn needs_tip(is_sync: bool, height: u64, got_block: bool) -> (r: bool)
    ensures
        r == tip_wanted(is_sync, height, got_block),
{
    if got_block {
        height % 100 == 0 && !is_sync
    } else {
        is_sync
    }
}

/// The sync flag after an iteration.
pub fn sync_after(is_sync: bool, height: u64, got_block: bool, tip: Option<u64>) -> (r: bool)
    ensures
        r == next_sync(is_sync, height, got_block, tip),
{
    if !needs_tip(is_sync, height, got_block) {
        return is_sync;
    }
    match tip {
        None => is_sync,
        Some(t) => {
            if got_block {
                if t > height { true } else { is_sync }
            } else {
                if t < height { false } else { is_sync }
            }
        },
    }
}

/// Seconds to pause after an iteration: none while catching up, three at the tip.
pub fn pause_secs(is_sync: bool) -> (r: u64)
    ensures
        r == if is_sync { 0u64 } else { 3u64 },
{
    if is_sync { 0 } else { 3 }
}

/// The number of consecutive failed iterations after which the follower gives up.
pub const RETRY_LIMIT: u32 = 10;

/// The state that the follower's loop carries between iterations.
pub struct FollowerState {
    pub height: u64,
    pub is_sync: bool,
    pub err_streak: u32,
}

/// The first height to process: the greater of the configured start and
/// the highest recorded height, or the start where nothing is recorded.
pub open spec fn start_height_of(start_height: u64, highest: Result<u64, AppError>) -> u64 {
    match highest {
        Ok(h) => if h > start_height { h } else { start_height },
        Err(_) => start_height,
    }
}

/// The height to resume from. A failure to read the highest height other
/// than an empty table is a `DbCountError`.
pub fn initial_height(start_height: u64, highest: Result<u64, AppError>) -> (r: Result<u64, AppError>)
    ensures
        r is Ok <==> (highest is Ok || highest->Err_0 is CountNotFound),
        r is Ok ==> r->Ok_0 == start_height_of(start_height, highest),
        r is Err ==> r->Err_0 is DbCountError,
{
    match highest {
        Ok(h) => Ok(if h > start_height { h } else { start_height }),
        Err(AppError::CountNotFound) => Ok(start_height),
        Err(_) => Err(AppError::DbCountError(String::from_str("cannot read the highest recorded height"))),
    }
}

impl FollowerState {
    /// The state at startup: at the resume height, expecting blocks.
    pub fn start(start_height: u64, highest: Result<u64, AppError>) -> (r: Result<FollowerState, AppError>)
        ensures
            r is Ok <==> (highest is Ok || highest->Err_0 is CountNotFound),
            r is Ok ==> r->Ok_0.height == start_height_of(start_height, highest) && r->Ok_0.is_sync
                && r->Ok_0.err_streak == 0,
            r is Err ==> r->Err_0 is DbCountError,
    {
        match initial_height(start_height, highest) {
            Ok(h) => Ok(FollowerState { height: h, is_sync: true, err_streak: 0 }),
            Err(e) => Err(e),
        }
    }

    /// Records a successful iteration: the streak of failures ends, the sync
    /// flag is taken over, and the height advances past a processed block.
    pub fn on_success(&mut self, res: &RollingResult)
        requires
            old(self).height < u64::MAX,
        ensures
            final(self).err_streak == 0,
            final(self).is_sync == res.is_sync,
            final(self).height == if res.got_block { old(self).height + 1 } else { old(self).height as int },
    {
        self.err_streak = 0;
        self.is_sync = res.is_sync;
        if res.got_block {
            self.height = self.height + 1;
        }
    }

    /// Records a failed iteration and returns whether the retry budget is
    /// spent, in which case the follower cancels and stops.
    pub fn on_error(&mut self) -> (cancel: bool)
        ensures
            final(self).err_streak == if old(self).err_streak == u32::MAX { u32::MAX as int } else { old(self).err_streak + 1 },
            final(self).height == old(self).height,
            final(self).is_sync == old(self).is_sync,
            cancel == (final(self).err_streak > RETRY_LIMIT),
    {
        if self.err_streak < u32::MAX {
            self.err_streak = self.err_streak + 1;
        }
        self.err_streak > RETRY_LIMIT
    }
}

/// Resumes from a projection: the set of its live outputs and the state at
/// the resume height. Every live row then lies at or below that height.
pub fn resume(store: &Projection, start_height: u64) -> (r: (CkbCtx, FollowerState))
    requires
        store.wf(),
    ensures
        r.0.mirrors(store),
        r.0.cell_set() == store.live_refs(),
        r.1.height >= start_height,
        store.heights_at_most(r.1.height as int),
        r.1.height == start_height || exists|i: int| 0 <= i < store.live@.len() && store.live@[i].height == r.1.height,
        r.1.is_sync,
        r.1.err_streak == 0,
{
    let highest = store.query_count();
    let ctx = CkbCtx::init(store.query_valid_index_set());
    let height = if let Ok(h) = highest { if h > start_height { h } else { start_height } } else { start_height };
    proof {
        lemma_mirror_parity(&ctx, store);
    }
    (ctx, FollowerState { height, is_sync: true, err_streak: 0 })
}

} // verus!
