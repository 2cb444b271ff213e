//! Parquet cache layer for `--reuse`: where an entry lives and when it is
//! fresh. Reading and writing the Parquet files happens outside the library.
//!
//! Layout: `<root>/<broker_hash>/<topic>/<window_hash>.parquet`.

use vstd::prelude::*;

use sha2::Digest;
use std::path::PathBuf;
use vstd::string::StringSliceAdditionalSpecFns;

use crate::names::{safe_segment, segment_spec};
use crate::sample::{hex_digit, hex_spec};
use crate::time::Span;
use crate::window::{OffsetStart, TimeWindow};

verus! {

/// `std::path::PathBuf`, carried as an opaque value.
#[verifier::external_type_specification]
#[verifier::external_body]
pub struct ExPathBuf(std::path::PathBuf);

/// Name for SHA-256 of a byte string.
pub uninterp spec fn sha256(data: Seq<u8>) -> Seq<u8>;

/// Calls `sha2::Sha256::digest`. Claimed: the result is the named
/// [`sha256`] of the input and is 32 bytes long.
#[verifier::external_body]
fn sha256_digest(data: &[u8]) -> (r: Vec<u8>)
    ensures
        r@ == sha256(data@),
        r@.len() == 32,
{
    sha2::Sha256::digest(data).to_vec()
}

/// Calls `hex::encode`. Claimed: lowercase hex, two digits per byte, high
/// nibble first (the crate's `HEX_CHARS_LOWER` table).
#[verifier::external_body]
fn hex_lower(data: &[u8]) -> (r: String)
    ensures
        r@ == hex_spec(data@),
{
    ::hex::encode(data)
}

/// Name for what `Path::join` makes of a base path and a segment: the base
/// with the segment adjoined (the segment alone where it is absolute).
pub uninterp spec fn joined_path(base: PathBuf, segment: Seq<char>) -> PathBuf;

/// Calls `Path::join`. Claimed: the result is the named [`joined_path`] of
/// the base and the segment, and depends on nothing else. `PathBuf` is opaque
/// here, so what the path spells is not stated.
#[verifier::external_body]
fn path_join(base: &PathBuf, segment: &str) -> (r: PathBuf)
    ensures
        r == joined_path(*base, segment@),
{
    base.join(segment)
}

/// The first eight bytes of the SHA-256 of `s`, in lowercase hex.
pub open spec fn short_hash_spec(s: &str) -> Seq<char> {
    hex_spec(sha256(s.spec_bytes()).take(8))
}

/// Sixteen hex digits naming `input`.
pub fn short_hash(input: &str) -> (r: String)
    ensures
        r@ == short_hash_spec(input),
{
    let digest = sha256_digest(input.as_bytes());
    let mut head: Vec<u8> = Vec::new();
    let mut i: usize = 0;
    while i < 8
        invariant
            i <= 8,
            digest@.len() == 32,
            head@ == digest@.take(i as int),
        decreases 8 - i,
    {
        head.push(digest[i]);
        assert(digest@.take(i + 1) =~= digest@.take(i as int).push(digest@[i as int]));
        i = i + 1;
    }
    hex_lower(head.as_slice())
}

/// The `k` low bytes of `n`, least significant first.
pub open spec fn le_bytes(n: nat, k: nat) -> Seq<u8>
    decreases k,
{
    if k == 0 {
        Seq::empty()
    } else {
        seq![(n % 256) as u8] + le_bytes(n / 256, (k - 1) as nat)
    }
}

/// The eight bytes of `n`, least significant first.
fn u64_le_bytes(n: u64) -> (r: Vec<u8>)
    ensures
        r@ == le_bytes(n as nat, 8),
{
    let mut out: Vec<u8> = Vec::new();
    let mut rest: u64 = n;
    let mut i: usize = 0;
    while i < 8
        invariant
            i <= 8,
            le_bytes(n as nat, 8) == out@ + le_bytes(rest as nat, (8 - i) as nat),
        decreases 8 - i,
    {
        let ghost before = out@;
        out.push((rest % 256) as u8);
        rest = rest / 256;
        assert(before + le_bytes((rest * 256 + (out@.last() as int)) as nat, (8 - i) as nat) =~= out@
            + le_bytes(rest as nat, (8 - i - 1) as nat)) by {
            assert(le_bytes((rest * 256 + (out@.last() as int)) as nat, (8 - i) as nat) =~= seq![
                out@.last(),
            ] + le_bytes(rest as nat, (8 - i - 1) as nat));
        }
        i = i + 1;
    }
    assert(out@ + le_bytes(rest as nat, 0) =~= out@);
    out
}

/// The bytes that identify a window in the cache: a tag byte, then the
/// fields as little-endian integers (signed ones in two's complement).
pub open spec fn token_spec(w: TimeWindow) -> Seq<u8> {
    match w {
        TimeWindow::Last(d) => seq![1u8] + le_bytes(d.secs as nat, 8) + le_bytes(d.nanos as nat, 8),
        TimeWindow::Range { from, to } => seq![2u8] + le_bytes(from.secs as u64 as nat, 8)
            + le_bytes(from.nanos as nat, 8) + match to {
            None => seq![0u8],
            Some(t) => seq![1u8] + le_bytes(t.secs as u64 as nat, 8) + le_bytes(
                t.nanos as nat,
                8,
            ),
        },
        TimeWindow::Offset { start, limit } => seq![3u8] + seq![
            match start {
                OffsetStart::Earliest => 0u8,
                OffsetStart::Latest => 1u8,
            },
        ] + le_bytes(limit as nat, 8),
    }
}

impl TimeWindow {
    /// The bytes that identify this window in the cache.
    pub fn cache_token(&self) -> (r: Vec<u8>)
        ensures
            r@ == token_spec(*self),
    {
        let mut out: Vec<u8> = Vec::new();
        match self {
            TimeWindow::Last(d) => {
                out.push(1u8);
                let mut a = u64_le_bytes(d.secs);
                let mut b = u64_le_bytes(d.nanos as u64);
                out.append(&mut a);
                out.append(&mut b);
            },
            TimeWindow::Range { from, to } => {
                out.push(2u8);
                let mut a = u64_le_bytes(from.secs as u64);
                let mut b = u64_le_bytes(from.nanos as u64);
                out.append(&mut a);
                out.append(&mut b);
                match to {
                    None => {
                        out.push(0u8);
                    },
                    Some(t) => {
                        out.push(1u8);
                        let mut c = u64_le_bytes(t.secs as u64);
                        let mut e = u64_le_bytes(t.nanos as u64);
                        out.append(&mut c);
                        out.append(&mut e);
                    },
                }
            },
            TimeWindow::Offset { start, limit } => {
                out.push(3u8);
                match start {
                    OffsetStart::Earliest => out.push(0u8),
                    OffsetStart::Latest => out.push(1u8),
                }
                let mut a = u64_le_bytes(*limit);
                out.append(&mut a);
            },
        }
        assert(out@ =~= token_spec(*self));
        out
    }
}

/// The file name of the entry for `w`: sixteen hex digits of SHA-256 over
/// its token, then `.parquet`.
pub open spec fn file_name_spec(w: TimeWindow) -> Seq<char> {
    hex_spec(sha256(token_spec(w)).take(8)) + ".parquet"@
}

/// `<root>/<broker_hash>/<topic>/<window_hash>.parquet`.
pub open spec fn key_path_spec(root: PathBuf, brokers: &str, topic: Seq<char>, w: TimeWindow) -> PathBuf {
    joined_path(
        joined_path(joined_path(root, short_hash_spec(brokers)), segment_spec(topic)),
        file_name_spec(w),
    )
}

/// The three path segments of a cache entry below the cache root.
#[derive(Debug, Clone)]
pub struct CacheKey {
    /// Sixteen hex digits of SHA-256 over the broker list.
    pub broker_dir: String,
    /// The topic, sanitised into one path segment.
    pub topic_dir: String,
    /// Sixteen hex digits of SHA-256 over the window token, then `.parquet`.
    pub file_name: String,
}

/// The outcome of looking up a cache entry.
#[derive(Debug, Clone, Copy, PartialEq, Eq, Structural)]
pub enum CacheLookup {
    /// A fresh entry: read it instead of Kafka.
    Hit,
    /// No entry: fetch from Kafka.
    Miss,
    /// An entry older than the TTL: fetch from Kafka.
    Stale,
}

/// Filesystem-backed Parquet cache: a root directory and a time to live.
#[derive(Debug)]
pub struct ParquetCache {
    pub root: PathBuf,
    pub ttl: Span,
}

impl ParquetCache {
    /// Build a cache rooted at `root`. Creates `root` lazily on first write.
    pub fn new(root: PathBuf, ttl: Span) -> (r: Self)
        ensures
            r.root == root,
            r.ttl == ttl,
    {
        ParquetCache { root, ttl }
    }

    /// The configured time to live.
    pub fn ttl(&self) -> (r: Span)
        ensures
            r == self.ttl,
    {
        self.ttl
    }

    /// An entry of age `age` is fresh when it is not older than the TTL.
    pub fn is_fresh_age(&self, age: Span) -> (r: bool)
        ensures
            r == age.spec_le(self.ttl),
    {
        age.le(&self.ttl)
    }

    /// What a read of the cache does with the entry on disk, given its age
    /// (`None` when there is no file): use it while it is fresh, else fetch.
    pub fn lookup(&self, entry_age: Option<Span>) -> (r: CacheLookup)
        ensures
            r == match entry_age {
                None => CacheLookup::Miss,
                Some(a) => if a.spec_le(self.ttl) {
                    CacheLookup::Hit
                } else {
                    CacheLookup::Stale
                },
            },
    {
        match entry_age {
            None => CacheLookup::Miss,
            Some(a) => if self.is_fresh_age(a) {
                CacheLookup::Hit
            } else {
                CacheLookup::Stale
            },
        }
    }

    /// Whether freshly fetched batches are written back: only a result that
    /// holds at least one batch is.
    pub fn store_after_fetch(batch_count: usize) -> (r: bool)
        ensures
            r == (batch_count > 0),
    {
        batch_count > 0
    }

    /// Where the entry for `brokers`, `topic` and `window` lives, below the root.
    pub fn cache_key(&self, brokers: &str, topic: &str, window: &TimeWindow) -> (r: CacheKey)
        ensures
            r.broker_dir@ == short_hash_spec(brokers),
            r.topic_dir@ == segment_spec(topic@),
            r.file_name@ == file_name_spec(*window),
            r.file_name@ == hex_spec(sha256(token_spec(*window)).take(8)) + ".parquet"@,
    {
        let broker_dir = short_hash(brokers);
        let token = window.cache_token();
        let digest = sha256_digest(token.as_slice());
        let mut head: Vec<u8> = Vec::new();
        let mut i: usize = 0;
        while i < 8
            invariant
                i <= 8,
                digest@.len() == 32,
                head@ == digest@.take(i as int),
            decreases 8 - i,
        {
            head.push(digest[i]);
            assert(digest@.take(i + 1) =~= digest@.take(i as int).push(digest@[i as int]));
            i = i + 1;
        }
        let mut file_name = hex_lower(head.as_slice());
        file_name.append(".parquet");
        CacheKey { broker_dir, topic_dir: safe_segment(topic), file_name }
    }

    /// `<root>/<broker_hash>/<topic>/<window_hash>.parquet`, made of the
    /// segments of [`ParquetCache::cache_key`].
    pub fn key_path(&self, brokers: &str, topic: &str, window: &TimeWindow) -> (r: PathBuf)
        ensures
            r == key_path_spec(self.root, brokers, topic@, *window),
    {
        let key = self.cache_key(brokers, topic, window);
        let a = path_join(&self.root, key.broker_dir.as_str());
        let b = path_join(&a, key.topic_dir.as_str());
        path_join(&b, key.file_name.as_str())
    }
}


/// `256^k`.
pub open spec fn byte_bound(k: nat) -> nat
    decreases k,
{
    if k == 0 {
        1
    } else {
        256 * byte_bound((k - 1) as nat)
    }
}

/// `le_bytes` has `k` bytes, and numbers below `256^k` are told apart by them.
pub proof fn lemma_le_bytes_injective(a: nat, b: nat, k: nat)
    requires
        a < byte_bound(k),
        b < byte_bound(k),
        le_bytes(a, k) == le_bytes(b, k),
    ensures
        a == b,
    decreases k,
{
    lemma_le_bytes_len(a, k);
    lemma_le_bytes_len(b, k);
    if k > 0 {
        let bk = byte_bound((k - 1) as nat);
        assert(le_bytes(a, k)[0] == le_bytes(b, k)[0]);
        assert(le_bytes(a / 256, (k - 1) as nat) =~= le_bytes(a, k).drop_first());
        assert(le_bytes(b / 256, (k - 1) as nat) =~= le_bytes(b, k).drop_first());
        assert(a / 256 < bk) by (nonlinear_arith)
            requires
                a < 256 * bk,
        ;
        assert(b / 256 < bk) by (nonlinear_arith)
            requires
                b < 256 * bk,
        ;
        lemma_le_bytes_injective(a / 256, b / 256, (k - 1) as nat);
        assert(le_bytes(a, k)[0] == (a % 256) as u8);
        assert(le_bytes(b, k)[0] == (b % 256) as u8);
        assert(a % 256 == b % 256);
        assert(a == 256 * (a / 256) + a % 256);
        assert(b == 256 * (b / 256) + b % 256);
    }
}

/// `le_bytes(n, k)` has `k` bytes.
pub proof fn lemma_le_bytes_len(n: nat, k: nat)
    ensures
        le_bytes(n, k).len() == k,
    decreases k,
{
    if k > 0 {
        lemma_le_bytes_len(n / 256, (k - 1) as nat);
    }
}

proof fn lemma_byte_bounds()
    ensures
        byte_bound(8) == 0x1_0000_0000_0000_0000,
{
    reveal_with_fuel(byte_bound, 9);
}

proof fn lemma_u64_bytes_injective(a: u64, b: u64)
    requires
        le_bytes(a as nat, 8) == le_bytes(b as nat, 8),
    ensures
        a == b,
{
    lemma_byte_bounds();
    lemma_le_bytes_injective(a as nat, b as nat, 8);
}

proof fn lemma_i64_bytes_injective(a: i64, b: i64)
    requires
        le_bytes(a as u64 as nat, 8) == le_bytes(b as u64 as nat, 8),
    ensures
        a == b,
{
    lemma_u64_bytes_injective(a as u64, b as u64);
    assert(a as u64 == b as u64 ==> a == b) by (bit_vector);
}

/// Two windows with the same cache token are the same window: the cache
/// never serves one window's entry for another (up to collisions of the
/// hash that the file name is made of).
pub proof fn lemma_token_injective(w1: TimeWindow, w2: TimeWindow)
    requires
        token_spec(w1) == token_spec(w2),
    ensures
        w1 == w2,
{
    let t = token_spec(w1);
    assert(t[0] == token_spec(w2)[0]);
    match (w1, w2) {
        (TimeWindow::Last(d1), TimeWindow::Last(d2)) => {
            lemma_le_bytes_len(d1.secs as nat, 8);
            lemma_le_bytes_len(d1.nanos as nat, 8);
            lemma_le_bytes_len(d2.secs as nat, 8);
            lemma_le_bytes_len(d2.nanos as nat, 8);
            assert(t.subrange(1, 9) =~= le_bytes(d1.secs as nat, 8));
            assert(t.subrange(1, 9) =~= le_bytes(d2.secs as nat, 8));
            assert(t.subrange(9, 17) =~= le_bytes(d1.nanos as nat, 8));
            assert(t.subrange(9, 17) =~= le_bytes(d2.nanos as nat, 8));
            lemma_u64_bytes_injective(d1.secs, d2.secs);
            lemma_u64_bytes_injective(d1.nanos as u64, d2.nanos as u64);
        },
        (TimeWindow::Range { from: f1, to: o1 }, TimeWindow::Range { from: f2, to: o2 }) => {
            lemma_le_bytes_len(f1.secs as u64 as nat, 8);
            lemma_le_bytes_len(f1.nanos as nat, 8);
            lemma_le_bytes_len(f2.secs as u64 as nat, 8);
            lemma_le_bytes_len(f2.nanos as nat, 8);
            assert(t.subrange(1, 9) =~= le_bytes(f1.secs as u64 as nat, 8));
            assert(t.subrange(1, 9) =~= le_bytes(f2.secs as u64 as nat, 8));
            assert(t.subrange(9, 17) =~= le_bytes(f1.nanos as nat, 8));
            assert(t.subrange(9, 17) =~= le_bytes(f2.nanos as nat, 8));
            lemma_i64_bytes_injective(f1.secs, f2.secs);
            lemma_u64_bytes_injective(f1.nanos as u64, f2.nanos as u64);
            assert(t[17] == token_spec(w2)[17]);
            match (o1, o2) {
                (Some(a), Some(b)) => {
                    lemma_le_bytes_len(a.secs as u64 as nat, 8);
                    lemma_le_bytes_len(a.nanos as nat, 8);
                    lemma_le_bytes_len(b.secs as u64 as nat, 8);
                    lemma_le_bytes_len(b.nanos as nat, 8);
                    assert(t.subrange(18, 26) =~= le_bytes(a.secs as u64 as nat, 8));
                    assert(t.subrange(18, 26) =~= le_bytes(b.secs as u64 as nat, 8));
                    assert(t.subrange(26, 34) =~= le_bytes(a.nanos as nat, 8));
                    assert(t.subrange(26, 34) =~= le_bytes(b.nanos as nat, 8));
                    lemma_i64_bytes_injective(a.secs, b.secs);
                    lemma_u64_bytes_injective(a.nanos as u64, b.nanos as u64);
                },
                _ => {},
            }
        },
        (TimeWindow::Offset { start: s1, limit: l1 }, TimeWindow::Offset { start: s2, limit: l2 }) => {
            lemma_le_bytes_len(l1 as nat, 8);
            lemma_le_bytes_len(l2 as nat, 8);
            assert(t[1] == token_spec(w2)[1]);
            assert(t.subrange(2, 10) =~= le_bytes(l1 as nat, 8));
            assert(t.subrange(2, 10) =~= le_bytes(l2 as nat, 8));
            lemma_u64_bytes_injective(l1, l2);
        },
        _ => {},
    }
}

/// Distinct nibbles have distinct hex digits.
proof fn lemma_hex_digit_injective(a: int, b: int)
    requires
        0 <= a < 16,
        0 <= b < 16,
        hex_digit(a) == hex_digit(b),
    ensures
        a == b,
{
    let ca = hex_digit(a);
    let cb = hex_digit(b);
    let ua = ca as u32;
    let ub = cb as u32;
    assert(ua == ub);
    if a < 10 {
        assert(ua == 48 + a);
    } else {
        assert(ua == 87 + a);
    }
    if b < 10 {
        assert(ub == 48 + b);
    } else {
        assert(ub == 87 + b);
    }
}

/// Hex text has two characters per byte.
proof fn lemma_hex_len(b: Seq<u8>)
    ensures
        hex_spec(b).len() == 2 * b.len(),
    decreases b.len(),
{
    if b.len() > 0 {
        lemma_hex_len(b.drop_last());
    }
}

/// Equal hex text comes from equal bytes.
proof fn lemma_hex_injective(a: Seq<u8>, b: Seq<u8>)
    requires
        hex_spec(a) == hex_spec(b),
    ensures
        a == b,
    decreases a.len(),
{
    lemma_hex_len(a);
    lemma_hex_len(b);
    if a.len() > 0 {
        let ha = hex_spec(a.drop_last());
        let hb = hex_spec(b.drop_last());
        lemma_hex_len(a.drop_last());
        lemma_hex_len(b.drop_last());
        let x = a.last();
        let y = b.last();
        let n = hex_spec(a).len();
        assert(hex_spec(a)[n - 2] == hex_digit((x / 16) as int));
        assert(hex_spec(b)[n - 2] == hex_digit((y / 16) as int));
        assert(hex_spec(a)[n - 1] == hex_digit((x % 16) as int));
        assert(hex_spec(b)[n - 1] == hex_digit((y % 16) as int));
        lemma_hex_digit_injective((x / 16) as int, (y / 16) as int);
        lemma_hex_digit_injective((x % 16) as int, (y % 16) as int);
        assert(x == y);
        assert(hex_spec(a).subrange(0, n - 2) =~= ha);
        assert(hex_spec(b).subrange(0, n - 2) =~= hb);
        lemma_hex_injective(a.drop_last(), b.drop_last());
        assert(a =~= a.drop_last().push(x));
        assert(b =~= b.drop_last().push(y));
    }
}

/// Each window has its own cache file: two windows whose entries share a
/// file name are the same window, or their tokens (which differ) collide
/// in the first eight bytes of SHA-256.
pub proof fn lemma_file_name_tells_windows_apart(w1: TimeWindow, w2: TimeWindow)
    requires
        file_name_spec(w1) == file_name_spec(w2),
        w1 != w2,
    ensures
        token_spec(w1) != token_spec(w2),
        sha256(token_spec(w1)).take(8) == sha256(token_spec(w2)).take(8),
{
    let h1 = hex_spec(sha256(token_spec(w1)).take(8));
    let h2 = hex_spec(sha256(token_spec(w2)).take(8));
    let suffix = ".parquet"@;
    assert(h1 + suffix == h2 + suffix);
    assert(h1.len() == h2.len());
    assert(h1 =~= (h1 + suffix).subrange(0, h1.len() as int));
    assert(h2 =~= (h2 + suffix).subrange(0, h2.len() as int));
    lemma_hex_injective(sha256(token_spec(w1)).take(8), sha256(token_spec(w2)).take(8));
    if token_spec(w1) == token_spec(w2) {
        lemma_token_injective(w1, w2);
    }
}

} // verus!
