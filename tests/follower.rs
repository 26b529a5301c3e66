use did_indexer::ckb::{
    calculate_address, initial_height, needs_tip, pause_secs, resume, Block, CellOutput, CkbCtx,
    DecodedDocument, FollowerState, Network, OutPoint, RollingResult, Script, Transaction,
};
use did_indexer::error::AppError;
use did_indexer::store::{DidRecord, Projection};
use did_indexer::util::Web5DocumentData;

fn target() -> Vec<u8> {
    vec![7u8; 32]
}

fn lock() -> Script {
    Script { code_hash: vec![1u8; 32], hash_type: 1, args: vec![9u8; 20] }
}

fn envelope(doc: &[u8]) -> Vec<u8> {
    let n = (doc.len() + 16) as u32;
    let mut b = Vec::new();
    b.extend_from_slice(&0u32.to_le_bytes());
    b.extend_from_slice(&(n - 4).to_le_bytes());
    b.extend_from_slice(&8u32.to_le_bytes());
    b.extend_from_slice(&(doc.len() as u32).to_le_bytes());
    b.extend_from_slice(doc);
    b
}

fn doc(aka: &[&str]) -> Web5DocumentData {
    Web5DocumentData {
        also_known_as: aka.iter().map(|s| s.to_string()).collect(),
        services: vec!["{\"atproto_pds\":{}}".to_string()],
        verification_methods: vec![("atproto".to_string(), "did:key:z6Mkabc".to_string())],
    }
}

fn did_output(code_hash: Vec<u8>, args: Vec<u8>, d: Web5DocumentData) -> CellOutput {
    CellOutput {
        lock: lock(),
        type_: Some(Script { code_hash, hash_type: 1, args }),
        data: envelope(b"cbor"),
        document: Some(DecodedDocument { doc: d, json: "{\"doc\":1}".to_string() }),
    }
}

fn tx(hash: &str, inputs: Vec<OutPoint>, outputs: Vec<CellOutput>) -> Transaction {
    Transaction { hash: hash.to_string(), inputs, outputs }
}

fn block(txs: Vec<Transaction>) -> Block {
    Block { timestamp: 1_700_000_000_000, transactions: txs }
}

fn args_a() -> Vec<u8> {
    (1u8..=24).collect()
}

fn roll(ctx: &mut CkbCtx, store: &mut Projection, h: u64, b: &Block) -> RollingResult {
    ctx.rolling(store, h, Some(b), None, true, &target(), Network::Mainnet).unwrap()
}

#[test]
fn create_then_retire() {
    let mut store = Projection::new();
    let mut ctx = CkbCtx::init(vec![]);
    let b100 = block(vec![tx("aa", vec![], vec![did_output(target(), args_a(), doc(&["at://alice.example"]))])]);
    let r = roll(&mut ctx, &mut store, 100, &b100);
    assert!(r.got_block);
    assert_eq!(store.live.len(), 1);
    assert_eq!(store.live[0].handle, "alice.example");
    assert_eq!(store.live[0].did, "aebagbafaydqqcikbmga2dqpcaireeyu");
    assert_eq!(store.live[0].height, 100);
    assert_eq!(store.live[0].created_at, "2023-11-14T22:13:20.000Z");
    assert_eq!(ctx.valid_cells, vec![("aa".to_string(), 0u32)]);
    let b101 = block(vec![tx("bb", vec![OutPoint { tx_hash: "aa".to_string(), index: 0 }], vec![])]);
    roll(&mut ctx, &mut store, 101, &b101);
    assert_eq!(store.live.len(), 0);
    assert_eq!(store.tombstones.len(), 1);
    assert_eq!(store.tombstones[0].did, "aebagbafaydqqcikbmga2dqpcaireeyu");
    assert_eq!(store.tombstones[0].in_index, 0);
    assert_eq!(store.tombstones[0].height, 101);
    assert_eq!(store.tombstones[0].tx_hash, "bb");
    assert!(ctx.valid_cells.is_empty());
}

#[test]
fn invalid_document_skipped() {
    let mut store = Projection::new();
    let mut ctx = CkbCtx::init(vec![]);
    let b = block(vec![tx("cc", vec![], vec![did_output(target(), args_a(), doc(&[]))])]);
    let r = roll(&mut ctx, &mut store, 200, &b);
    assert!(r.got_block);
    assert_eq!(store.live.len(), 0);
    let mut st = FollowerState { height: 200, is_sync: true, err_streak: 0 };
    st.on_success(&r);
    assert_eq!(st.height, 201);
}

#[test]
fn non_matching_code_hash_ignored() {
    let mut store = Projection::new();
    let mut ctx = CkbCtx::init(vec![]);
    let b = block(vec![tx("dd", vec![], vec![did_output(vec![8u8; 32], args_a(), doc(&["at://bob"]))])]);
    let r = roll(&mut ctx, &mut store, 300, &b);
    assert_eq!(store.live.len(), 0);
    let mut st = FollowerState { height: 300, is_sync: true, err_streak: 0 };
    st.on_success(&r);
    assert_eq!(st.height, 301);
}

#[test]
fn at_tip_pacing() {
    let mut store = Projection::new();
    let mut ctx = CkbCtx::init(vec![]);
    let tip = 500u64;
    assert!(needs_tip(true, tip + 1, false));
    let r = ctx.rolling(&mut store, tip + 1, None, Some(tip), true, &target(), Network::Mainnet).unwrap();
    assert!(!r.got_block);
    assert!(!r.is_sync);
    assert_eq!(pause_secs(r.is_sync), 3);
    let mut st = FollowerState { height: tip + 1, is_sync: true, err_streak: 0 };
    st.on_success(&r);
    assert_eq!(st.height, tip + 1);
    assert_eq!(pause_secs(true), 0);
}

#[test]
fn tip_probe_with_block_sets_sync() {
    let mut store = Projection::new();
    let mut ctx = CkbCtx::init(vec![]);
    let b = block(vec![]);
    assert!(needs_tip(false, 1000, true));
    assert!(!needs_tip(false, 1001, true));
    let r = ctx.rolling(&mut store, 1000, Some(&b), Some(2000), false, &target(), Network::Mainnet).unwrap();
    assert!(r.is_sync);
}

#[test]
fn retry_budget() {
    let mut st = FollowerState { height: 5, is_sync: true, err_streak: 0 };
    for _ in 0..10 {
        assert!(!st.on_error());
    }
    assert!(st.on_error());
    assert_eq!(st.err_streak, 11);
    assert_eq!(st.height, 5);
    st.on_success(&RollingResult { is_sync: true, got_block: false });
    assert_eq!(st.err_streak, 0);
}

#[test]
fn startup_resume() {
    assert_eq!(initial_height(100, Ok(500)).unwrap(), 500);
    assert_eq!(initial_height(100, Err(AppError::CountNotFound)).unwrap(), 100);
    assert_eq!(initial_height(600, Ok(500)).unwrap(), 600);
    assert!(matches!(
        initial_height(100, Err(AppError::DbExecuteFailed("down".to_string()))),
        Err(AppError::DbCountError(_))
    ));
    let st = FollowerState::start(100, Ok(500)).unwrap();
    assert_eq!(st.height, 500);
    assert!(st.is_sync);
}

fn record(did: &str, tx_hash: &str, idx: u32, height: u64) -> DidRecord {
    DidRecord {
        did: did.to_string(),
        handle: format!("{did}.example"),
        created_at: "t".to_string(),
        ckb_address: "addr".to_string(),
        tx_hash: tx_hash.to_string(),
        out_index: idx,
        height,
        document: "{}".to_string(),
        valid: true,
    }
}

#[test]
fn resume_from_store() {
    let mut store = Projection::new();
    assert!(store.insert_record(record("x", "t1", 0, 500)));
    assert!(store.insert_record(record("y", "t2", 1, 300)));
    let (ctx, st) = resume(&store, 100);
    assert_eq!(st.height, 500);
    assert_eq!(ctx.valid_cells, vec![("t1".to_string(), 0u32), ("t2".to_string(), 1u32)]);
    let (_, st2) = resume(&Projection::new(), 100);
    assert_eq!(st2.height, 100);
}

#[test]
fn same_block_twice() {
    let mut store = Projection::new();
    let mut ctx = CkbCtx::init(vec![]);
    let b = block(vec![
        tx("a1", vec![], vec![did_output(target(), args_a(), doc(&["at://alice"]))]),
        tx("a2", vec![OutPoint { tx_hash: "a1".to_string(), index: 0 }], vec![
            did_output(target(), args_a(), doc(&["at://alice2"])),
        ]),
    ]);
    roll(&mut ctx, &mut store, 10, &b);
    let once_live: Vec<String> = store.live.iter().map(|r| format!("{}/{}/{}", r.did, r.tx_hash, r.handle)).collect();
    let once_tomb: Vec<String> = store.tombstones.iter().map(|r| format!("{}/{}", r.did, r.tx_hash)).collect();
    let once_cells = ctx.valid_cells.clone();
    roll(&mut ctx, &mut store, 10, &b);
    let twice_live: Vec<String> = store.live.iter().map(|r| format!("{}/{}/{}", r.did, r.tx_hash, r.handle)).collect();
    let twice_tomb: Vec<String> = store.tombstones.iter().map(|r| format!("{}/{}", r.did, r.tx_hash)).collect();
    assert_eq!(once_live, twice_live);
    assert_eq!(once_tomb, twice_tomb);
    assert_eq!(once_cells, ctx.valid_cells);
    assert_eq!(once_live, vec!["aebagbafaydqqcikbmga2dqpcaireeyu/a2/alice2".to_string()]);
}

#[test]
fn restart_then_replay_converges() {
    let b1 = block(vec![tx("r1", vec![], vec![did_output(target(), args_a(), doc(&["at://one"]))])]);
    let b2 = block(vec![tx("r2", vec![OutPoint { tx_hash: "r1".to_string(), index: 0 }], vec![])]);
    let mut s1 = Projection::new();
    let mut c1 = CkbCtx::init(vec![]);
    roll(&mut c1, &mut s1, 1, &b1);
    roll(&mut c1, &mut s1, 2, &b2);

    let mut s2 = Projection::new();
    let mut c2 = CkbCtx::init(vec![]);
    roll(&mut c2, &mut s2, 1, &b1);
    let (mut c3, st) = resume(&s2, 0);
    assert_eq!(st.height, 1);
    roll(&mut c3, &mut s2, 1, &b1);
    roll(&mut c3, &mut s2, 2, &b2);
    assert_eq!(s1.live.len(), s2.live.len());
    assert_eq!(s1.tombstones.len(), s2.tombstones.len());
    assert_eq!(s1.tombstones[0].did, s2.tombstones[0].did);
    assert_eq!(c1.valid_cells, c3.valid_cells);
}

#[test]
fn address_of_lock_script() {
    let code_hash = hex_bytes("9bd7e06f3ecf4be0f2fcd2188b23f1b9fcc88e5d4b65a8637b17723bbda3cce8");
    let args = hex_bytes("b39bbc0b3673c7d36450bc14cfcdad2d559c6c64");
    let s = Script { code_hash, hash_type: 1, args };
    assert_eq!(
        calculate_address(&s, Network::Mainnet),
        "ckb1qzda0cr08m85hc8jlnfp3zer7xulejywt49kt2rr0vthywaa50xwsqdnnw7qkdnnclfkg59uzn8umtfd2kwxceqxwquc4"
    );
    assert!(calculate_address(&s, Network::Testnet).starts_with("ckt1"));
}

fn hex_bytes(s: &str) -> Vec<u8> {
    (0..s.len()).step_by(2).map(|i| u8::from_str_radix(&s[i..i + 2], 16).unwrap()).collect()
}

#[test]
fn store_conflicts_and_lookups() {
    let mut store = Projection::new();
    assert!(matches!(store.query_count(), Err(AppError::CountNotFound)));
    assert!(store.insert_record(record("x", "t1", 0, 7)));
    assert!(!store.insert_record(record("x", "t9", 3, 8)));
    assert!(!store.insert_record(record("z", "t1", 0, 8)));
    assert_eq!(store.query_count().unwrap(), 7);
    assert_eq!(store.resolve_valid_handle(&"x.example".to_string()).unwrap(), "x");
    assert!(matches!(store.resolve_valid_handle(&"nobody".to_string()), Err(AppError::HandleNotFound(_))));
    assert_eq!(store.query_valid_did_doc(&"x".to_string()).unwrap(), "{}");
    assert!(matches!(store.query_valid_did_doc(&"q".to_string()), Err(AppError::DidDocNotFound(_))));
    assert_eq!(store.query_valid_did_doc_by_index(&"t1".to_string(), 0).unwrap().did, "x");
    assert!(store.query_valid_did_doc_by_index(&"t1".to_string(), 1).is_err());
    let row = store.query_valid_did_doc_by_index(&"t1".to_string(), 0).unwrap();
    store.delete_record(&row, "t5".to_string(), 2, 9, "d".to_string());
    store.delete_record(&row, "t6".to_string(), 4, 10, "e".to_string());
    assert_eq!(store.live.len(), 0);
    assert_eq!(store.tombstones.len(), 1);
    assert_eq!(store.tombstones[0].tx_hash, "t5");
    assert_eq!(store.query_valid_index_set().len(), 0);
}

#[test]
fn update_rewrites_row_and_journals() {
    let mut store = Projection::new();
    assert!(store.insert_record(record("x", "t1", 0, 7)));
    assert!(store.insert_record(record("y", "t2", 0, 7)));
    assert!(!store.update_record(&"q".to_string(), "h".into(), "c".into(), "t3".into(), 1, 9, "{}".into()));
    assert!(!store.update_record(&"x".to_string(), "h".into(), "c".into(), "t2".into(), 0, 9, "{}".into()));
    assert!(store.update_record(&"x".to_string(), "h".into(), "c".into(), "t3".into(), 1, 9, "{\"a\":1}".into()));
    assert_eq!(store.live[0].tx_hash, "t3");
    assert_eq!(store.live[0].height, 9);
    assert_eq!(store.live[0].ckb_address, "addr");
    assert_eq!(store.journal.len(), 3);
    assert!(matches!(store.journal[2], did_indexer::store::StoreOp::Update(_)));
    assert!(store.check_wf());
}

#[test]
fn malformed_store_and_block_detected() {
    let mut store = Projection::new();
    store.live.push(record("x", "t1", 0, 1));
    store.live.push(record("y", "t1", 0, 1));
    assert!(!store.check_wf());
    let good = block(vec![tx("g", vec![], vec![did_output(target(), args_a(), doc(&["at://g"]))])]);
    assert!(good.check_wf());
    let mut bad = good.clone();
    bad.transactions[0].outputs[0].lock.hash_type = 3;
    assert!(!bad.check_wf());
}

#[test]
fn short_type_args_skipped() {
    let mut store = Projection::new();
    let mut ctx = CkbCtx::init(vec![]);
    let b = block(vec![tx("s", vec![], vec![did_output(target(), vec![1u8; 19], doc(&["at://s"]))])]);
    roll(&mut ctx, &mut store, 3, &b);
    assert_eq!(store.live.len(), 0);
}

#[test]
fn bad_envelope_or_undecoded_document_skipped() {
    let mut store = Projection::new();
    let mut ctx = CkbCtx::init(vec![]);
    let mut o1 = did_output(target(), args_a(), doc(&["at://a"]));
    o1.data = vec![1, 0, 0, 0];
    let mut o2 = did_output(target(), (2u8..30).collect(), doc(&["at://b"]));
    o2.document = None;
    let b = block(vec![tx("e", vec![], vec![o1, o2])]);
    roll(&mut ctx, &mut store, 4, &b);
    assert_eq!(store.live.len(), 0);
}

#[test]
fn lookups_report_the_missing_key() {
    let mut store = Projection::new();
    assert!(store.insert_record(record("x", "t1", 0, 7)));
    assert_eq!(store.query_valid_did_doc(&"q".to_string()).unwrap_err(), AppError::DidDocNotFound("q".to_string()));
    assert_eq!(store.resolve_valid_handle(&"h".to_string()).unwrap_err(), AppError::HandleNotFound("h".to_string()));
    assert!(store.query_valid_did_doc_by_index(&"t1".to_string(), 0).unwrap().valid);
    let mut bad = record("z", "t2", 0, 7);
    bad.valid = false;
    store.live.push(bad);
    assert!(!store.check_wf());
}

#[test]
fn update_succeeds_on_own_output() {
    let mut store = Projection::new();
    assert!(store.insert_record(record("x", "t1", 0, 7)));
    assert!(store.update_record(&"x".to_string(), "h".into(), "c".into(), "t1".into(), 0, 8, "{}".into()));
    assert_eq!(store.live[0].height, 8);
}
