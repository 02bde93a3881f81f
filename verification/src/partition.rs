//! Deterministic partitioning of the test set into disjoint shards.
//!
//! A partition specification follows the grammar `count:M/N`, `hash:M/N` or
//! bare `M/N` (taken as hash-based), with `M` and `N` decimal, `N >= 1` and
//! `M < N` (shard indexes are 0-based).  Membership of a test-case identity
//! in a shard is a pure function of the specification and the identity's
//! bytes, so independent invocations — also on different machines — agree on
//! every assignment: the `N` shards cover the whole set with no overlaps and
//! no gaps.

use vstd::prelude::*;
use vstd::string::StrSliceExecFns;
use vstd::string::StringExecFns;
use crate::errors::PartitionerBuilderParseError;

verus! {

/// FNV-1a 64-bit offset basis.
pub const FNV_OFFSET: u64 = 0xcbf29ce484222325;

/// FNV-1a 64-bit prime.
pub const FNV_PRIME: u64 = 0x100000001b3;

/// 64-bit wrapping multiplication.
pub open spec fn wrap_mul64(a: u64, b: u64) -> u64 {
    ((a as nat * b as nat) % 0x10000000000000000) as u64
}

/// The FNV-1a hash of `bytes` folded onto the accumulator `acc`.
pub open spec fn spec_fnv1a(bytes: Seq<u8>, acc: u64) -> u64
    decreases bytes.len(),
{
    if bytes.len() == 0 {
        acc
    } else {
        spec_fnv1a(bytes.drop_first(), wrap_mul64(acc ^ (bytes[0] as u64), FNV_PRIME))
    }
}

/// Computes the FNV-1a hash of a byte string.
pub fn fnv1a(bytes: &Vec<u8>) -> (r: u64)
    ensures
        r == spec_fnv1a(bytes@, FNV_OFFSET),
{
    let mut acc: u64 = FNV_OFFSET;
    let mut i: usize = 0;
    proof {
        assert(bytes@.skip(0) =~= bytes@);
    }
    while i < bytes.len()
        invariant
            i <= bytes@.len(),
            spec_fnv1a(bytes@, FNV_OFFSET) == spec_fnv1a(bytes@.skip(i as int), acc),
        decreases bytes@.len() - i,
    {
        proof {
            assert(bytes@.skip(i as int)[0] == bytes@[i as int]);
            assert(bytes@.skip(i as int).drop_first() =~= bytes@.skip(i + 1));
        }
        acc = (acc ^ (bytes[i] as u64)).wrapping_mul(FNV_PRIME);
        i += 1;
    }
    proof {
        assert(bytes@.skip(bytes@.len() as int) =~= Seq::<u8>::empty());
    }
    acc
}

/// The count-based shard of an identity: its hash modulo the shard count.
pub open spec fn spec_shard_count(identity: Seq<u8>, total: u64) -> u64
    recommends
        total >= 1,
{
    (spec_fnv1a(identity, FNV_OFFSET) as nat % total as nat) as u64
}

/// The hash-based shard of an identity: its hash mapped onto `[0, total)` by
/// range partitioning, the equal-count balancing variant.
pub open spec fn spec_shard_hash(identity: Seq<u8>, total: u64) -> u64
    recommends
        total >= 1,
{
    ((spec_fnv1a(identity, FNV_OFFSET) as nat * total as nat) / 0x10000000000000000) as u64
}

/// Every identity falls in exactly one of the `total` shards: the shard
/// functions return a value below `total`, and membership (being equal to
/// that value) holds for exactly one shard index.
pub proof fn lemma_shard_in_range(identity: Seq<u8>, total: u64)
    requires
        total >= 1,
    ensures
        spec_shard_count(identity, total) < total,
        spec_shard_hash(identity, total) < total,
{
    let h = spec_fnv1a(identity, FNV_OFFSET) as nat;
    let n = total as nat;
    assert(h % n < n) by (nonlinear_arith)
        requires
            n >= 1,
    ;
    assert(h * n / 0x10000000000000000 < n) by (nonlinear_arith)
        requires
            n >= 1,
            h < 0x10000000000000000,
    ;
}

/// A partitioner, built once from a specification string.
#[derive(Clone, Copy, Debug, PartialEq, Eq, Structural)]
pub enum PartitionerBuilder {
    /// `count:M/N`: membership by hash modulo `total`.
    Count { shard: u64, total: u64 },
    /// `hash:M/N` or bare `M/N`: membership by balanced range partitioning.
    Hash { shard: u64, total: u64 },
}

impl PartitionerBuilder {
    /// Validity: at least one shard, 0-based shard index in range.
    pub open spec fn wf(self) -> bool {
        match self {
            PartitionerBuilder::Count { shard, total } => total >= 1 && shard < total,
            PartitionerBuilder::Hash { shard, total } => total >= 1 && shard < total,
        }
    }

    /// The shard that this builder's strategy assigns to an identity.
    pub open spec fn spec_shard_of(self, identity: Seq<u8>) -> u64 {
        match self {
            PartitionerBuilder::Count { total, .. } => spec_shard_count(identity, total),
            PartitionerBuilder::Hash { total, .. } => spec_shard_hash(identity, total),
        }
    }

    /// Whether an identity belongs to this builder's shard: a pure function
    /// of the specification and the identity.
    pub open spec fn spec_member(self, identity: Seq<u8>) -> bool {
        match self {
            PartitionerBuilder::Count { shard, .. } => self.spec_shard_of(identity) == shard,
            PartitionerBuilder::Hash { shard, .. } => self.spec_shard_of(identity) == shard,
        }
    }

    /// Decides membership of an identity given as bytes.
    pub fn member_bytes(&self, identity: &Vec<u8>) -> (r: bool)
        requires
            self.wf(),
        ensures
            r == self.spec_member(identity@),
    {
        let h = fnv1a(identity);
        match self {
            PartitionerBuilder::Count { shard, total } => {
                let s = h % *total;
                proof {
                    assert(s == spec_shard_count(identity@, *total));
                }
                s == *shard
            }
            PartitionerBuilder::Hash { shard, total } => {
                proof {
                    assert((h as nat) * (*total as nat)
                        < 0x100000000000000000000000000000000) by (nonlinear_arith)
                        requires
                            h <= 0xffffffffffffffffu64,
                            *total <= 0xffffffffffffffffu64,
                    ;
                }
                let wide = (h as u128) * (*total as u128);
                let s128 = wide / 0x10000000000000000u128;
                proof {
                    lemma_shard_in_range(identity@, *total);
                    assert(s128 == spec_shard_hash(identity@, *total));
                }
                let s = s128 as u64;
                s == *shard
            }
        }
    }

    /// Decides membership of an identity given as a string; the identity's
    /// UTF-8 bytes are hashed.
    pub fn member(&self, identity: &str) -> (r: bool)
        requires
            self.wf(),
        ensures
            r == self.spec_member(vstd::string::StringSliceAdditionalSpecFns::spec_bytes(
                identity,
            )),
    {
        let bytes = identity.as_bytes_vec();
        self.member_bytes(&bytes)
    }
}

/// Partition totality and disjointness: for every shard count `total >= 1`
/// and every identity, membership holds for exactly one shard index in
/// `[0, total)` — for the count-based and for the hash-based strategy alike.
pub proof fn lemma_partition_exactly_one(identity: Seq<u8>, total: u64)
    requires
        total >= 1,
    ensures
        forall|i: u64|
            #![trigger (PartitionerBuilder::Count { shard: i, total }).spec_member(identity)]
            i < total ==> ((PartitionerBuilder::Count { shard: i, total }).spec_member(identity)
                <==> i == spec_shard_count(identity, total)),
        forall|i: u64|
            #![trigger (PartitionerBuilder::Hash { shard: i, total }).spec_member(identity)]
            i < total ==> ((PartitionerBuilder::Hash { shard: i, total }).spec_member(identity)
                <==> i == spec_shard_hash(identity, total)),
        spec_shard_count(identity, total) < total,
        spec_shard_hash(identity, total) < total,
{
    lemma_shard_in_range(identity, total);
}

/// Whether `c` is a decimal digit.
pub open spec fn is_digit(c: char) -> bool {
    ('0' as u32) <= (c as u32) && (c as u32) <= ('9' as u32)
}

/// The value of a decimal digit.
pub open spec fn digit_of(c: char) -> nat {
    ((c as u32) - ('0' as u32)) as nat
}

/// Whether `s` is one or more decimal digits.
pub open spec fn all_digits(s: Seq<char>) -> bool {
    s.len() > 0 && forall|i: int| 0 <= i < s.len() ==> is_digit(#[trigger] s[i])
}

/// The value of a decimal digit string.
pub open spec fn digits_val(s: Seq<char>) -> nat
    decreases s.len(),
{
    if s.len() == 0 {
        0
    } else {
        digits_val(s.drop_last()) * 10 + digit_of(s.last())
    }
}

/// A longer digit prefix never has a smaller value.
proof fn lemma_digits_val_prefix_le(s: Seq<char>, j: int)
    requires
        0 <= j <= s.len(),
    ensures
        digits_val(s.take(j)) <= digits_val(s),
    decreases s.len() - j,
{
    if j == s.len() {
        assert(s.take(j) =~= s);
    } else {
        assert(s.take(j + 1).drop_last() =~= s.take(j));
        assert(s.take(j + 1).last() == s[j]);
        lemma_digits_val_prefix_le(s, j + 1);
    }
}

/// The index of the first `/` in `s`, if any.
pub open spec fn first_slash(s: Seq<char>) -> Option<nat>
    decreases s.len(),
{
    if s.len() == 0 {
        None
    } else if s[0] == '/' {
        Some(0nat)
    } else {
        match first_slash(s.drop_first()) {
            Some(k) => Some((k + 1) as nat),
            None => None,
        }
    }
}

proof fn lemma_first_slash_found(s: Seq<char>, k: int)
    requires
        0 <= k < s.len(),
        s[k] == '/',
        forall|j: int| 0 <= j < k ==> s[j] != '/',
    ensures
        first_slash(s) == Some(k as nat),
    decreases k,
{
    if k > 0 {
        lemma_first_slash_found(s.drop_first(), k - 1);
    }
}

proof fn lemma_first_slash_none(s: Seq<char>)
    requires
        forall|j: int| 0 <= j < s.len() ==> s[j] != '/',
    ensures
        first_slash(s) is None,
    decreases s.len(),
{
    if s.len() > 0 {
        lemma_first_slash_none(s.drop_first());
    }
}

/// The shard pair that a `M/N` string denotes: both sides decimal, the
/// values within `u64`, at least one shard, and the 0-based shard index
/// below the shard count.
pub open spec fn spec_parse_shards(s: Seq<char>) -> Option<(u64, u64)> {
    match first_slash(s) {
        Some(k) => {
            let left = s.take(k as int);
            let right = s.skip(k as int + 1);
            if all_digits(left) && all_digits(right) && digits_val(left) <= u64::MAX
                && digits_val(right) <= u64::MAX && digits_val(right) >= 1 && digits_val(left)
                < digits_val(right) {
                Some((digits_val(left) as u64, digits_val(right) as u64))
            } else {
                None
            }
        },
        None => None,
    }
}

/// The partitioner that a specification string denotes, if any: `count:M/N`,
/// `hash:M/N`, or bare `M/N` taken as hash-based.
pub open spec fn spec_parse_partition(s: Seq<char>) -> Option<PartitionerBuilder> {
    if s.len() >= 6 && s.take(6) == "count:"@ {
        match spec_parse_shards(s.skip(6)) {
            Some(p) => Some(PartitionerBuilder::Count { shard: p.0, total: p.1 }),
            None => None,
        }
    } else if s.len() >= 5 && s.take(5) == "hash:"@ {
        match spec_parse_shards(s.skip(5)) {
            Some(p) => Some(PartitionerBuilder::Hash { shard: p.0, total: p.1 }),
            None => None,
        }
    } else {
        match spec_parse_shards(s) {
            Some(p) => Some(PartitionerBuilder::Hash { shard: p.0, total: p.1 }),
            None => None,
        }
    }
}

/// Parses a digit string into its value; `None` when the string is empty,
/// holds a non-digit, or denotes a value beyond `u64`.
fn parse_digits(s: &str) -> (r: Option<u64>)
    ensures
        r is Some <==> (all_digits(s@) && digits_val(s@) <= u64::MAX),
        r matches Some(v) ==> v == digits_val(s@),
{
    let n = s.unicode_len();
    if n == 0 {
        return None;
    }
    let mut val: u64 = 0;
    let mut i: usize = 0;
    proof {
        assert(s@.take(0) =~= Seq::<char>::empty());
    }
    while i < n
        invariant
            n == s@.len(),
            i <= n,
            forall|j: int| 0 <= j < i ==> is_digit(#[trigger] s@[j]),
            val == digits_val(s@.take(i as int)),
        decreases n - i,
    {
        let cu = s.get_char(i) as u32;
        if cu < 48 || cu > 57 {
            proof {
                assert(!is_digit(s@[i as int]));
            }
            return None;
        }
        let d = (cu - 48) as u64;
        proof {
            assert(d == digit_of(s@[i as int]));
            assert(s@.take(i + 1).drop_last() =~= s@.take(i as int));
            assert(s@.take(i + 1).last() == s@[i as int]);
        }
        let v10 = match val.checked_mul(10) {
            Some(v) => v,
            None => {
                proof {
                    lemma_digits_val_prefix_le(s@, i + 1);
                }
                return None;
            },
        };
        let v = match v10.checked_add(d) {
            Some(v) => v,
            None => {
                proof {
                    lemma_digits_val_prefix_le(s@, i + 1);
                }
                return None;
            },
        };
        val = v;
        i += 1;
    }
    proof {
        assert(s@.take(n as int) =~= s@);
    }
    Some(val)
}

/// Finds the first `/` of `s`.
fn find_slash(s: &str) -> (r: Option<usize>)
    ensures
        match r {
            Some(k) => first_slash(s@) == Some(k as nat) && k < s@.len() && s@[k as int] == '/',
            None => first_slash(s@) is None,
        },
{
    let n = s.unicode_len();
    let mut i: usize = 0;
    while i < n
        invariant
            n == s@.len(),
            i <= n,
            forall|j: int| 0 <= j < i ==> s@[j] != '/',
        decreases n - i,
    {
        if s.get_char(i) == '/' {
            proof {
                lemma_first_slash_found(s@, i as int);
            }
            return Some(i);
        }
        i += 1;
    }
    proof {
        lemma_first_slash_none(s@);
    }
    None
}

/// Parses a `M/N` shard pair.
fn parse_shards(s: &str) -> (r: Option<(u64, u64)>)
    ensures
        r == spec_parse_shards(s@),
{
    let n = s.unicode_len();
    let k = match find_slash(s) {
        Some(k) => k,
        None => {
            return None;
        },
    };
    let left = s.substring_char(0, k);
    let right = s.substring_char(k + 1, n);
    proof {
        assert(left@ =~= s@.take(k as int));
        assert(right@ =~= s@.skip(k as int + 1));
    }
    let m = match parse_digits(left) {
        Some(m) => m,
        None => {
            return None;
        },
    };
    let t = match parse_digits(right) {
        Some(t) => t,
        None => {
            return None;
        },
    };
    if t >= 1 && m < t {
        Some((m, t))
    } else {
        None
    }
}

impl PartitionerBuilder {
    /// Parses a partition specification string of the documented grammar.
    /// A malformed specification fails fast, naming the expected grammar and
    /// the offending input; it never defaults to any membership.
    pub fn parse(s: &str) -> (r: Result<PartitionerBuilder, PartitionerBuilderParseError>)
        ensures
            match r {
                Ok(b) => spec_parse_partition(s@) == Some(b) && b.wf(),
                Err(e) => spec_parse_partition(s@) is None && e.expected_format_view() == Some(
                    "count:M/N, hash:M/N or M/N"@,
                ) && e.message_view() == "invalid partition specification: "@ + s@,
            },
    {
        let n = s.unicode_len();
        let parsed: Option<PartitionerBuilder> = if crate::helpers::str_has_prefix(s, "count:") {
            proof {
                reveal_strlit("count:");
            }
            let rest = s.substring_char(6, n);
            proof {
                assert(rest@ =~= s@.skip(6));
            }
            match parse_shards(rest) {
                Some(p) => Some(PartitionerBuilder::Count { shard: p.0, total: p.1 }),
                None => None,
            }
        } else if crate::helpers::str_has_prefix(s, "hash:") {
            proof {
                reveal_strlit("hash:");
            }
            let rest = s.substring_char(5, n);
            proof {
                assert(rest@ =~= s@.skip(5));
            }
            match parse_shards(rest) {
                Some(p) => Some(PartitionerBuilder::Hash { shard: p.0, total: p.1 }),
                None => None,
            }
        } else {
            proof {
                reveal_strlit("count:");
                reveal_strlit("hash:");
            }
            match parse_shards(s) {
                Some(p) => Some(PartitionerBuilder::Hash { shard: p.0, total: p.1 }),
                None => None,
            }
        };
        match parsed {
            Some(b) => Ok(b),
            None => {
                let mut msg = String::from_str("invalid partition specification: ");
                msg.append(s);
                Err(
                    PartitionerBuilderParseError::new(
                        Some("count:M/N, hash:M/N or M/N"),
                        msg.as_str(),
                    ),
                )
            },
        }
    }
}

/// Partition determinism: membership is a function of the specification and
/// the identity alone, so two equal specifications — in this process or
/// another — agree on every identity.
pub proof fn lemma_partition_deterministic(
    a: PartitionerBuilder,
    b: PartitionerBuilder,
    identity: Seq<u8>,
)
    requires
        a == b,
    ensures
        a.spec_member(identity) == b.spec_member(identity),
{
}

} // verus!
