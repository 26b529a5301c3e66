use vstd::prelude::*;
use vstd::string::StringSliceAdditionalSpecFns;
use vstd::utf8::{encode_utf8, is_char_boundary, length_of_first_scalar, pop_first_scalar, valid_utf8};
use crate::bytes::{bytes_eq, has_prefix, starts_with_bytes};
use crate::error::AppError;

verus! {

broadcast use vstd::utf8::encode_utf8_valid_utf8;

/// A decoded DID document. Each service descriptor is kept as its JSON text;
/// the verification methods map role names to key strings.
#[derive(Clone, Debug)]
pub struct Web5DocumentData {
    pub also_known_as: Vec<String>,
    pub services: Vec<String>,
    pub verification_methods: Vec<(String, String)>,
}

/// The UTF-8 bytes of a string.
pub open spec fn utf8(s: String) -> Seq<u8> {
    encode_utf8(s@)
}

/// `at://`
pub open spec fn at_prefix() -> Seq<u8> {
    seq![97u8, 116, 58, 47, 47]
}

/// `did:key`
pub open spec fn did_key_prefix() -> Seq<u8> {
    seq![100u8, 105, 100, 58, 107, 101, 121]
}

/// `did:`
pub open spec fn did_prefix() -> Seq<u8> {
    seq![100u8, 105, 100, 58]
}

/// `atproto`, the role of the signing key.
pub open spec fn atproto_role() -> Seq<u8> {
    seq![97u8, 116, 112, 114, 111, 116, 111]
}

/// The value of the first entry from position `i` on whose role is `k`.
pub open spec fn find_method_from(m: Seq<(String, String)>, k: Seq<u8>, i: int) -> Option<String>
    decreases m.len() - i,
{
    if i < 0 || i >= m.len() {
        None
    } else if utf8(m[i].0) == k {
        Some(m[i].1)
    } else {
        find_method_from(m, k, i + 1)
    }
}

/// The key that a document gives for the `atproto` role.
pub open spec fn signing_key_of(doc: Web5DocumentData) -> Option<String> {
    find_method_from(doc.verification_methods@, atproto_role(), 0)
}

/// Whether the first alias of a document is an `at://` URI.
pub open spec fn aliases_ok(doc: Web5DocumentData) -> bool {
    doc.also_known_as@.len() > 0 && has_prefix(utf8(doc.also_known_as@[0]), at_prefix())
}

/// Whether a document passes every rule of the validator.
pub open spec fn doc_is_valid(doc: Web5DocumentData) -> bool {
    &&& aliases_ok(doc)
    &&& doc.services@.len() > 0
    &&& signing_key_of(doc) is Some
    &&& has_prefix(utf8(signing_key_of(doc)->Some_0), did_key_prefix())
}

/// The handle of a document: its first alias without the `at://` prefix.
pub open spec fn handle_of(doc: Web5DocumentData) -> Seq<u8> {
    let a = utf8(doc.also_known_as@[0]);
    a.subrange(5, a.len() as int)
}

/// Index of the last `c` among the first `n` bytes of `b`, or -1.
pub open spec fn last_index_of(b: Seq<u8>, c: u8, n: int) -> int
    decreases n,
{
    if n <= 0 {
        -1
    } else if b[n - 1] == c {
        n - 1
    } else {
        last_index_of(b, c, n - 1)
    }
}

/// The core of a DID string: the text after its last `:` when it starts with
/// `did:`, else the whole string.
pub open spec fn core_did(b: Seq<u8>) -> Seq<u8> {
    if has_prefix(b, did_prefix()) {
        b.subrange(last_index_of(b, 58u8, b.len() as int) + 1, b.len() as int)
    } else {
        b
    }
}

/// A character boundary followed by an ASCII byte is followed by another one.
proof fn lemma_boundary_after_ascii(bytes: Seq<u8>, j: int)
    requires
        valid_utf8(bytes),
        0 <= j < bytes.len(),
        is_char_boundary(bytes, j),
        bytes[j] < 128,
    ensures
        is_char_boundary(bytes, j + 1),
    decreases bytes.len(),
{
    let l = length_of_first_scalar(bytes);
    let rest = pop_first_scalar(bytes);
    if j == 0 {
        assert(l == 1);
        assert(is_char_boundary(rest, 0));
    } else {
        assert(is_char_boundary(rest, j - l));
        if j - l == 0 {
            assert(rest[0] == bytes[j]);
        } else {
            assert(j - l > 0);
        }
        assert(rest[j - l] == bytes[j]);
        lemma_boundary_after_ascii(rest, j - l);
    }
}

/// Every index within an ASCII prefix is a character boundary.
proof fn lemma_ascii_prefix_boundary(bytes: Seq<u8>, k: int)
    requires
        valid_utf8(bytes),
        0 <= k <= bytes.len(),
        forall|i: int| 0 <= i < k ==> bytes[i] < 128,
    ensures
        is_char_boundary(bytes, k),
    decreases k,
{
    if k > 0 {
        lemma_ascii_prefix_boundary(bytes, k - 1);
        lemma_boundary_after_ascii(bytes, k - 1);
    }
}

/// The part of `s` from byte `mid` on, where `mid` follows an ASCII byte that
/// stands on a character boundary.
fn suffix_after_ascii(s: &str, mid: usize) -> (r: String)
    requires
        0 < mid <= s.spec_bytes().len(),
        is_char_boundary(s.spec_bytes(), mid - 1),
        s.spec_bytes()[mid - 1] < 128,
    ensures
        encode_utf8(r@) == s.spec_bytes().subrange(mid as int, s.spec_bytes().len() as int),
{
    proof {
        lemma_boundary_after_ascii(s.spec_bytes(), mid - 1);
    }
    let (_, tail) = s.split_at(mid);
    tail.to_owned()
}

/// Whether a key string has the `did:key` form.
pub fn check_signing_key_str(did: &str) -> (r: bool)
    ensures
        r == has_prefix(did.spec_bytes(), did_key_prefix()),
{
    let p: Vec<u8> = vec![100u8, 105, 100, 58, 107, 101, 121];
    assert(p@ =~= did_key_prefix());
    starts_with_bytes(did.as_bytes(), p.as_slice())
}

/// Whether an identifier is acceptable for a lookup; every identifier is.
pub fn check_did_str(_did: &str) -> (r: bool)
    ensures
        r,
{
    true
}

/// Strips a `did:<method>:` qualification from an identifier, keeping the
/// text after its last `:`.
pub fn extract_core_did(did: &str) -> (r: String)
    ensures
        encode_utf8(r@) == core_did(did.spec_bytes()),
{
    let b = did.as_bytes();
    let p: Vec<u8> = vec![100u8, 105, 100, 58];
    assert(p@ =~= did_prefix());
    if !starts_with_bytes(b, p.as_slice()) {
        return did.to_owned();
    }
    let mut n: usize = b.len();
    while n > 0 && b[n - 1] != 58u8
        invariant
            n <= b@.len(),
            b@ == did.spec_bytes(),
            last_index_of(b@, 58u8, b@.len() as int) == last_index_of(b@, 58u8, n as int),
        decreases n,
    {
        n = n - 1;
    }
    proof {
        assert(b@[3] == 58u8);
        if n == 0 {
            assert(last_index_of(b@, 58u8, 0) == -1);
            assert(false) by {
                lemma_no_colon_before(b@, b@.len() as int);
            }
        }
        assert(last_index_of(b@, 58u8, n as int) == n - 1);
        lemma_valid_boundary_at_last_colon(b@, n as int - 1);
    }
    suffix_after_ascii(did, n)
}

/// A string whose fourth byte is `:` has a last `:`.
proof fn lemma_no_colon_before(b: Seq<u8>, n: int)
    requires
        4 <= n <= b.len(),
        b[3] == 58u8,
    ensures
        last_index_of(b, 58u8, n) >= 3,
    decreases n,
{
    if n > 4 && b[n - 1] != 58u8 {
        lemma_no_colon_before(b, n - 1);
    }
}

/// The last `:` of valid UTF-8 stands on a character boundary.
proof fn lemma_valid_boundary_at_last_colon(b: Seq<u8>, j: int)
    requires
        valid_utf8(b),
        0 <= j < b.len(),
        b[j] == 58u8,
    ensures
        is_char_boundary(b, j),
{
    vstd::utf8::is_char_boundary_iff_is_leading_byte(b, j);
}

/// Checks a decoded document and returns its handle and its signing key.
///
/// The rules, in order: the first alias is an `at://` URI; there is a
/// service; there is an `atproto` verification method; its key has the
/// `did:key` form. The handle is the first alias without its `at://` prefix.
pub fn check_did_doc(doc: &Web5DocumentData) -> (r: Result<(String, String), AppError>)
    ensures
        r is Ok <==> doc_is_valid(*doc),
        r is Ok ==> utf8(r->Ok_0.0) == handle_of(*doc) && r->Ok_0.1 == signing_key_of(*doc)->Some_0,
        r is Err ==> r->Err_0 is IncompatibleDidDoc,
        !aliases_ok(*doc) ==> r is Err && r->Err_0->IncompatibleDidDoc_0@ == "alsoKnownAs not correct"@,
        aliases_ok(*doc) && doc.services@.len() == 0
            ==> r is Err && r->Err_0->IncompatibleDidDoc_0@ == "services not provide"@,
        aliases_ok(*doc) && doc.services@.len() > 0 && signing_key_of(*doc) is None
            ==> r is Err && r->Err_0->IncompatibleDidDoc_0@ == "verificationMethods not provide"@,
        aliases_ok(*doc) && doc.services@.len() > 0 && signing_key_of(*doc) is Some
            && !has_prefix(utf8(signing_key_of(*doc)->Some_0), did_key_prefix())
            ==> r is Err && r->Err_0->IncompatibleDidDoc_0@
                == "verificationMethods provided signing key format error: "@ + (signing_key_of(*doc)->Some_0)@,
{
    let at: Vec<u8> = vec![97u8, 116, 58, 47, 47];
    assert(at@ =~= at_prefix());
    if doc.also_known_as.len() == 0 || !starts_with_bytes(doc.also_known_as[0].as_str().as_bytes(), at.as_slice()) {
        return Err(AppError::IncompatibleDidDoc(String::from_str("alsoKnownAs not correct")));
    }
    if doc.services.len() == 0 {
        return Err(AppError::IncompatibleDidDoc(String::from_str("services not provide")));
    }
    let first = doc.also_known_as[0].as_str();
    proof {
        let fb = first.spec_bytes();
        assert(fb.subrange(0, 5) == at_prefix());
        assert forall|i: int| 0 <= i < 4 implies fb[i] < 128 by {
            assert(fb[i] == fb.subrange(0, 5)[i]);
        }
        assert(fb[4] == fb.subrange(0, 5)[4]);
        lemma_ascii_prefix_boundary(fb, 4);
    }
    let handle = suffix_after_ascii(first, 5);
    match find_method(&doc.verification_methods) {
        None => Err(AppError::IncompatibleDidDoc(String::from_str("verificationMethods not provide"))),
        Some(key) => {
            if !check_signing_key_str(key.as_str()) {
                Err(AppError::IncompatibleDidDoc(
                    String::from_str("verificationMethods provided signing key format error: ").concat(key.as_str()),
                ))
            } else {
                Ok((handle, key.clone()))
            }
        },
    }
}

/// Looks up the key of the `atproto` role.
fn find_method(m: &Vec<(String, String)>) -> (r: Option<&String>)
    ensures
        r is Some <==> find_method_from(m@, atproto_role(), 0) is Some,
        r is Some ==> *r->Some_0 == find_method_from(m@, atproto_role(), 0)->Some_0,
{
    let role: Vec<u8> = vec![97u8, 116, 112, 114, 111, 116, 111];
    assert(role@ =~= atproto_role());
    let mut i: usize = 0;
    while i < m.len()
        invariant
            i <= m@.len(),
            role@ == atproto_role(),
            find_method_from(m@, atproto_role(), 0) == find_method_from(m@, atproto_role(), i as int),
        decreases m@.len() - i,
    {
        if bytes_eq(m[i].0.as_str().as_bytes(), role.as_slice()) {
            return Some(&m[i].1);
        }
        i = i + 1;
    }
    None
}

/// What `BASE32.encode` of the data-encoding crate returns for `b`.
pub uninterp spec fn base32_of(b: Seq<u8>) -> Seq<char>;

/// What `str::to_lowercase` returns for `s`.
pub uninterp spec fn lower_of(s: Seq<char>) -> Seq<char>;

/// The RFC 3339 text, to the millisecond, of a Unix time in milliseconds, as
/// chrono formats it.
pub uninterp spec fn rfc3339_millis(ms: int) -> Seq<char>;

/// The full-format (Bech32m) address of a lock script, as ckb-sdk renders it.
pub uninterp spec fn address_of(mainnet: bool, code_hash: Seq<u8>, hash_type: u8, args: Seq<u8>) -> Seq<char>;

/// The identifier derived from a type script's arguments: the lowercase
/// base32 text of their first 20 bytes.
pub open spec fn did_of(args: Seq<u8>) -> Seq<char> {
    lower_of(base32_of(args.subrange(0, 20)))
}

/// Relies on data_encoding::BASE32.encode: RFC 4648 base32 text of the bytes.
#[verifier::external_body]
fn base32_encode(b: &[u8]) -> (r: String)
    ensures
        r@ == base32_of(b@),
{
    data_encoding::BASE32.encode(b)
}

/// Relies on str::to_lowercase: the result depends on the characters alone.
#[verifier::external_body]
fn lowercase(s: &str) -> (r: String)
    ensures
        r@ == lower_of(s@),
{
    s.to_lowercase()
}

/// The last millisecond of the year 9999, the end of the range that the
/// timestamps of the store are rendered in.
pub const MAX_RENDERED_MILLIS: u64 = 253_402_300_799_999;

/// Relies on chrono's DateTime::from_timestamp_millis, which gives `None`
/// only for a number of milliseconds outside its range of dates (years up to
/// 262143 around the epoch), and on its formatter, which cannot fail on a UTC
/// date.
#[verifier::external_body]
fn format_millis(ms: i64) -> (r: Option<String>)
    ensures
        r is Some ==> r->Some_0@ == rfc3339_millis(ms as int),
        0 <= ms <= MAX_RENDERED_MILLIS ==> r is Some,
{
    match chrono::DateTime::from_timestamp_millis(ms) {
        Some(dt) => Some(dt.format("%Y-%m-%dT%H:%M:%S%.3fZ").to_string()),
        None => None,
    }
}

/// Relies on ckb_sdk's AddressPayload::new_full and Address::new with the new
/// full format; ckb_types panics on a hash type it does not know and on a
/// code hash that is not 32 bytes long.
#[verifier::external_body]
pub(crate) fn full_address_of(mainnet: bool, code_hash: &[u8], hash_type: u8, args: &[u8]) -> (r: String)
    requires
        code_hash@.len() == 32,
        hash_type % 2 == 0 || hash_type == 1,
    ensures
        r@ == address_of(mainnet, code_hash@, hash_type, args@),
{
    let network = if mainnet { ckb_sdk::NetworkType::Mainnet } else { ckb_sdk::NetworkType::Testnet };
    let hash_type = ckb_types::core::ScriptHashType::try_from(hash_type).unwrap();
    let code_hash = <ckb_types::packed::Byte32 as ckb_types::molecule::prelude::Entity>::from_slice(code_hash).unwrap();
    let args = ckb_types::bytes::Bytes::from(args.to_vec());
    let payload = ckb_sdk::AddressPayload::new_full(hash_type, code_hash, args);
    ckb_sdk::Address::new(network, payload, true).to_string()
}

/// Renders a Unix time in milliseconds as `YYYY-MM-DDTHH:MM:SS.sssZ`.
pub fn transfer_time(ts: u64) -> (r: Result<String, AppError>)
    ensures
        r is Ok ==> r->Ok_0@ == rfc3339_millis(ts as int),
        ts <= MAX_RENDERED_MILLIS ==> r is Ok,
        ts > i64::MAX ==> r is Err,
        r is Err ==> r->Err_0 is RunTimeError,
{
    if ts > i64::MAX as u64 {
        return Err(AppError::RunTimeError(String::from_str("timestamp out of range")));
    }
    match format_millis(ts as i64) {
        Some(s) => Ok(s),
        None => Err(AppError::RunTimeError(String::from_str("timestamp out of range"))),
    }
}

/// The identifier of a DID cell: the lowercase base32 text of the first 20
/// bytes of its type script's arguments.
pub fn calculate_web5_did(args: &[u8]) -> (r: String)
    requires
        args@.len() >= 20,
    ensures
        r@ == did_of(args@),
{
    let head = crate::bytes::copy_range(args, 0, 20);
    let upper = base32_encode(head.as_slice());
    lowercase(upper.as_str())
}

/// Two argument strings that agree on their first 20 bytes give the same
/// identifier.
pub proof fn lemma_did_depends_on_prefix(a: Seq<u8>, b: Seq<u8>)
    requires
        a.len() >= 20,
        b.len() >= 20,
        a.subrange(0, 20) == b.subrange(0, 20),
    ensures
        did_of(a) == did_of(b),
{
}

} // verus!
