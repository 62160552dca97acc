//! Cache-key fingerprints over observation content.
//!
//! A fingerprint identifies a (model, configuration, data) triple: it
//! is a cryptographic digest over the model identity, the provider
//! identity, the target column, the history window, and the canonical
//! serialized form of each observation, concatenated in their given
//! order. Equal content gives equal keys; the digest's security margin
//! bounds the chance that different content collides.

use vstd::prelude::*;
use vstd::utf8::encode_utf8;

use crate::TimeSeriesDataPoint;

verus! {

/// A cache key: a 256-bit digest carried as four 64-bit words.
#[derive(PartialEq, Eq, Structural, Clone, Copy, Debug)]
pub struct CacheKey {
    pub w0: u64,
    pub w1: u64,
    pub w2: u64,
    pub w3: u64,
}

/// What blake3's hash function returns on the given bytes.
pub uninterp spec fn blake3_of(bytes: Seq<u8>) -> Seq<u8>;

/// Relies on blake3's `hash`: the digest is a function of the input
/// bytes alone — the same in every call, process and machine — and is
/// 32 bytes long.
#[verifier::external_body]
fn blake3_digest(bytes: &Vec<u8>) -> (r: Vec<u8>)
    ensures
        r@ == blake3_of(bytes@),
        r@.len() == 32,
{
    blake3::hash(bytes.as_slice()).as_bytes().to_vec()
}

/// The eight little-endian bytes of a 64-bit number.
pub open spec fn le_bytes(n: u64) -> Seq<u8> {
    seq![
        (n & 0xff) as u8,
        ((n >> 8) & 0xff) as u8,
        ((n >> 16) & 0xff) as u8,
        ((n >> 24) & 0xff) as u8,
        ((n >> 32) & 0xff) as u8,
        ((n >> 40) & 0xff) as u8,
        ((n >> 48) & 0xff) as u8,
        ((n >> 56) & 0xff) as u8,
    ]
}

/// A length-prefixed byte string: eight length bytes, then the bytes.
pub open spec fn enc_bytes(b: Seq<u8>) -> Seq<u8> {
    le_bytes(b.len() as u64) + b
}

/// The canonical serialized form of a feature list: each feature's
/// name and value, length-prefixed, in their given order.
pub open spec fn enc_pairs(ps: Seq<(String, String)>) -> Seq<u8>
    decreases ps.len(),
{
    if ps.len() == 0 {
        Seq::empty()
    } else {
        enc_pairs(ps.drop_last()) + enc_bytes(encode_utf8(ps.last().0@)) + enc_bytes(
            encode_utf8(ps.last().1@),
        )
    }
}

/// The canonical serialized form of one observation: timestamp bits,
/// value bits, the number of additional features, then the features.
pub open spec fn enc_point(p: TimeSeriesDataPoint) -> Seq<u8> {
    le_bytes(p.timestamp as u64) + le_bytes(p.value) + le_bytes(
        p.additional_features@.len() as u64,
    ) + enc_pairs(p.additional_features@)
}

/// The canonical serialized forms of the observations, concatenated in
/// their given order.
pub open spec fn enc_points(ps: Seq<TimeSeriesDataPoint>) -> Seq<u8>
    decreases ps.len(),
{
    if ps.len() == 0 {
        Seq::empty()
    } else {
        enc_points(ps.drop_last()) + enc_point(ps.last())
    }
}

/// The full message a fingerprint hashes: model name, provider name
/// and target column, each length-prefixed, then the history window,
/// then the observations.
pub open spec fn fingerprint_message(
    model_name: Seq<char>,
    provider_name: Seq<char>,
    target_column: Seq<char>,
    history_window: u32,
    points: Seq<TimeSeriesDataPoint>,
) -> Seq<u8> {
    enc_bytes(encode_utf8(model_name)) + enc_bytes(encode_utf8(provider_name)) + enc_bytes(
        encode_utf8(target_column),
    ) + le_bytes(history_window as u64) + enc_points(points)
}

/// The 64-bit little-endian word at offset `k` of a digest.
pub open spec fn word_at(d: Seq<u8>, k: int) -> u64 {
    (d[k] as u64) | ((d[k + 1] as u64) << 8) | ((d[k + 2] as u64) << 16) | ((d[k + 3] as u64)
        << 24) | ((d[k + 4] as u64) << 32) | ((d[k + 5] as u64) << 40) | ((d[k + 6] as u64) << 48)
        | ((d[k + 7] as u64) << 56)
}

/// The key carried by a 32-byte digest.
pub open spec fn key_of_digest(d: Seq<u8>) -> CacheKey {
    CacheKey { w0: word_at(d, 0), w1: word_at(d, 8), w2: word_at(d, 16), w3: word_at(d, 24) }
}

/// The fingerprint of a forecast request.
pub open spec fn fingerprint_spec(
    model_name: Seq<char>,
    provider_name: Seq<char>,
    target_column: Seq<char>,
    history_window: u32,
    points: Seq<TimeSeriesDataPoint>,
) -> CacheKey {
    key_of_digest(
        blake3_of(
            fingerprint_message(model_name, provider_name, target_column, history_window, points),
        ),
    )
}

/// Append the eight little-endian bytes of `n`.
fn push_le(v: &mut Vec<u8>, n: u64)
    ensures
        final(v)@ == old(v)@ + le_bytes(n),
{
    v.push((n & 0xff) as u8);
    v.push(((n >> 8) & 0xff) as u8);
    v.push(((n >> 16) & 0xff) as u8);
    v.push(((n >> 24) & 0xff) as u8);
    v.push(((n >> 32) & 0xff) as u8);
    v.push(((n >> 40) & 0xff) as u8);
    v.push(((n >> 48) & 0xff) as u8);
    v.push(((n >> 56) & 0xff) as u8);
    proof {
        assert(v@ =~= old(v)@ + le_bytes(n));
    }
}

/// Append a string, length-prefixed, in its UTF-8 encoding.
fn push_str_enc(v: &mut Vec<u8>, s: &str)
    ensures
        final(v)@ == old(v)@ + enc_bytes(encode_utf8(s@)),
{
    let b = s.as_bytes();
    push_le(v, b.len() as u64);
    let ghost mid = v@;
    let mut i: usize = 0;
    while i < b.len()
        invariant
            i <= b@.len(),
            v@ == mid + b@.subrange(0, i as int),
        decreases b@.len() - i,
    {
        v.push(b[i]);
        proof {
            assert(v@ =~= mid + b@.subrange(0, i + 1));
        }
        i = i + 1;
    }
    proof {
        assert(b@.subrange(0, b@.len() as int) =~= b@);
        assert(v@ =~= old(v)@ + enc_bytes(encode_utf8(s@)));
    }
}

/// Append the canonical serialized form of one observation.
fn push_point(v: &mut Vec<u8>, p: &TimeSeriesDataPoint)
    ensures
        final(v)@ == old(v)@ + enc_point(*p),
{
    push_le(v, p.timestamp as u64);
    push_le(v, p.value);
    push_le(v, p.additional_features.len() as u64);
    let ghost mid = v@;
    let mut i: usize = 0;
    while i < p.additional_features.len()
        invariant
            i <= p.additional_features@.len(),
            v@ == mid + enc_pairs(p.additional_features@.subrange(0, i as int)),
        decreases p.additional_features@.len() - i,
    {
        let (name, value) = &p.additional_features[i];
        push_str_enc(v, name.as_str());
        push_str_enc(v, value.as_str());
        proof {
            let pre = p.additional_features@.subrange(0, i + 1);
            assert(pre.drop_last() =~= p.additional_features@.subrange(0, i as int));
            assert(pre.last() == p.additional_features@[i as int]);
            assert(v@ =~= mid + enc_pairs(pre));
        }
        i = i + 1;
    }
    proof {
        assert(p.additional_features@.subrange(0, p.additional_features@.len() as int)
            =~= p.additional_features@);
        assert(v@ =~= old(v)@ + enc_point(*p));
    }
}

/// The 64-bit little-endian word at offset `k` of the digest.
fn word_from(d: &Vec<u8>, k: usize) -> (r: u64)
    requires
        k + 8 <= d@.len(),
    ensures
        r == word_at(d@, k as int),
{
    let n = d.len();
    proof {
        assert(k + 8 <= n);
    }
    (d[k] as u64) | ((d[k + 1] as u64) << 8u64) | ((d[k + 2] as u64) << 16u64) | ((d[k + 3] as u64)
        << 24u64) | ((d[k + 4] as u64) << 32u64) | ((d[k + 5] as u64) << 40u64) | ((d[k
        + 6] as u64) << 48u64) | ((d[k + 7] as u64) << 56u64)
}

/// The fingerprint of a forecast request: a cryptographic digest over
/// the model identity, provider identity, target column, history
/// window, and the observations' canonical serialized forms in their
/// given order.
pub fn fingerprint(
    model_name: &str,
    provider_name: &str,
    target_column: &str,
    history_window: u32,
    observations: &Vec<TimeSeriesDataPoint>,
) -> (r: CacheKey)
    ensures
        r == fingerprint_spec(
            model_name@,
            provider_name@,
            target_column@,
            history_window,
            observations@,
        ),
{
    let mut msg: Vec<u8> = Vec::new();
    push_str_enc(&mut msg, model_name);
    push_str_enc(&mut msg, provider_name);
    push_str_enc(&mut msg, target_column);
    push_le(&mut msg, history_window as u64);
    let ghost header = msg@;
    let mut i: usize = 0;
    while i < observations.len()
        invariant
            i <= observations@.len(),
            msg@ == header + enc_points(observations@.subrange(0, i as int)),
        decreases observations@.len() - i,
    {
        push_point(&mut msg, &observations[i]);
        proof {
            let pre = observations@.subrange(0, i + 1);
            assert(pre.drop_last() =~= observations@.subrange(0, i as int));
            assert(pre.last() == observations@[i as int]);
            assert(msg@ =~= header + enc_points(pre));
        }
        i = i + 1;
    }
    proof {
        assert(observations@.subrange(0, observations@.len() as int) =~= observations@);
        assert(msg@ =~= fingerprint_message(
            model_name@,
            provider_name@,
            target_column@,
            history_window,
            observations@,
        ));
    }
    let d = blake3_digest(&msg);
    CacheKey {
        w0: word_from(&d, 0),
        w1: word_from(&d, 8),
        w2: word_from(&d, 16),
        w3: word_from(&d, 24),
    }
}

/// Two observation batches carry the same content: they pair up, and
/// paired observations agree in timestamp, value, and each feature
/// name and value, in the same order.
pub open spec fn same_content(a: Seq<TimeSeriesDataPoint>, b: Seq<TimeSeriesDataPoint>) -> bool {
    &&& a.len() == b.len()
    &&& forall|i: int|
        0 <= i < a.len() ==> (#[trigger] a[i]).timestamp == (#[trigger] b[i]).timestamp
            && a[i].value == b[i].value && a[i].additional_features@ == b[i].additional_features@
}

proof fn lemma_enc_points_content(a: Seq<TimeSeriesDataPoint>, b: Seq<TimeSeriesDataPoint>)
    requires
        same_content(a, b),
    ensures
        enc_points(a) == enc_points(b),
    decreases a.len(),
{
    if a.len() > 0 {
        assert(same_content(a.drop_last(), b.drop_last()));
        lemma_enc_points_content(a.drop_last(), b.drop_last());
        assert(a.last().additional_features@ == b.last().additional_features@);
        assert(enc_point(a.last()) == enc_point(b.last()));
    }
}

/// Law: the fingerprint is determined by content alone. Two requests
/// with the same model name, provider name, target column and history
/// window, whose observation batches carry the same content in the
/// same order, yield the same cache key.
pub proof fn lemma_fingerprint_content_determined(
    model_name: Seq<char>,
    provider_name: Seq<char>,
    target_column: Seq<char>,
    history_window: u32,
    a: Seq<TimeSeriesDataPoint>,
    b: Seq<TimeSeriesDataPoint>,
)
    requires
        same_content(a, b),
    ensures
        fingerprint_spec(model_name, provider_name, target_column, history_window, a)
            == fingerprint_spec(model_name, provider_name, target_column, history_window, b),
{
    lemma_enc_points_content(a, b);
}

} // verus!
