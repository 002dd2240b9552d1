//! The content-addressed schema cache, keyed by the 8-byte fingerprint.
//!
//! The cache is a write-once map from fingerprints to schema trees: a store
//! is a no-op when an entry for that fingerprint already exists (first
//! writer wins; entries are never overwritten), and a lookup of an absent
//! fingerprint is not an error. On disk the cache is a directory of one
//! file per fingerprint, named by the fingerprint's lowercase hex encoding
//! with a fixed extension; [`cache_file_name`] derives that name.

use vstd::prelude::*;

use crate::fingerprint::{fingerprint, fingerprint_bytes, spec_fingerprint, spec_fingerprint_bytes};
use crate::schema::{view_node, SchemaModel, SchemaNode};

verus! {

broadcast use {vstd::std_specs::vec::group_vec_axioms, vstd::seq::group_seq_axioms};

/// The mathematical value of a cache: a finite map from fingerprints to
/// schema values, built up entry by entry.
pub open spec fn cache_map(s: Seq<(u64, SchemaNode)>) -> Map<u64, SchemaModel>
    decreases s.len(),
{
    if s.len() == 0 {
        Map::empty()
    } else {
        cache_map(s.drop_last()).insert(s.last().0, view_node(s.last().1))
    }
}

/// An in-memory content-addressed store of schema trees.
pub struct Cache {
    entries: Vec<(u64, SchemaNode)>,
}

impl View for Cache {
    type V = Map<u64, SchemaModel>;

    closed spec fn view(&self) -> Map<u64, SchemaModel> {
        cache_map(self.entries@)
    }
}

proof fn lemma_cache_map_contains(s: Seq<(u64, SchemaNode)>, k: u64)
    ensures
        cache_map(s).contains_key(k) <==> (exists|i: int|
            0 <= i < s.len() && (#[trigger] s[i]).0 == k),
    decreases s.len(),
{
    if s.len() > 0 {
        lemma_cache_map_contains(s.drop_last(), k);
        if s.last().0 == k {
            assert(s[s.len() - 1].0 == k);
        } else if cache_map(s).contains_key(k) {
            let i = choose|i: int| 0 <= i < s.drop_last().len() && (#[trigger] s.drop_last()[i]).0
                == k;
            assert(s[i].0 == k);
        } else {
            if exists|i: int| 0 <= i < s.len() && (#[trigger] s[i]).0 == k {
                let i = choose|i: int| 0 <= i < s.len() && (#[trigger] s[i]).0 == k;
                assert(i < s.len() - 1 ==> s.drop_last()[i].0 == k);
            }
        }
    }
}

proof fn lemma_cache_map_at(s: Seq<(u64, SchemaNode)>, i: int)
    requires
        0 <= i < s.len(),
        forall|a: int, b: int| 0 <= a < b < s.len() ==> (#[trigger] s[a]).0 != (#[trigger] s[b]).0,
    ensures
        cache_map(s).contains_key(s[i].0),
        cache_map(s)[s[i].0] == view_node(s[i].1),
    decreases s.len(),
{
    if i == s.len() - 1 {
    } else {
        assert(s.drop_last()[i] == s[i]);
        lemma_cache_map_at(s.drop_last(), i);
        assert(s.last().0 != s[i].0);
    }
}

proof fn lemma_cache_map_len(s: Seq<(u64, SchemaNode)>)
    requires
        forall|a: int, b: int| 0 <= a < b < s.len() ==> (#[trigger] s[a]).0 != (#[trigger] s[b]).0,
    ensures
        cache_map(s).dom().finite(),
        cache_map(s).dom().len() == s.len(),
    decreases s.len(),
{
    if s.len() > 0 {
        lemma_cache_map_len(s.drop_last());
        lemma_cache_map_contains(s.drop_last(), s.last().0);
        assert(forall|i: int|
            0 <= i < s.drop_last().len() ==> (#[trigger] s.drop_last()[i]).0 == s[i].0);
        assert(!cache_map(s.drop_last()).contains_key(s.last().0));
        vstd::set::axiom_set_insert_len(cache_map(s.drop_last()).dom(), s.last().0);
    }
}

impl Cache {
    /// Whether the cache's stored keys are pairwise distinct, as the
    /// write-once discipline guarantees.
    pub closed spec fn wf(&self) -> bool {
        forall|a: int, b: int|
            0 <= a < b < self.entries@.len() ==> (#[trigger] self.entries@[a]).0 != (
            #[trigger] self.entries@[b]).0
    }

    /// An empty cache.
    pub fn new() -> (r: Self)
        ensures
            r@ == Map::<u64, SchemaModel>::empty(),
            r.wf(),
    {
        Cache { entries: Vec::new() }
    }

    /// How many schemas the cache holds.
    pub fn len(&self) -> (r: usize)
        requires
            self.wf(),
        ensures
            r == self@.dom().len(),
            self@.dom().finite(),
    {
        proof {
            lemma_cache_map_len(self.entries@);
        }
        self.entries.len()
    }

    /// Stores a schema under its own fingerprint. Idempotent: when an entry
    /// for that fingerprint already exists, the cache is left exactly as it
    /// was (first writer wins; never overwritten).
    pub fn store(&mut self, schema: SchemaNode)
        requires
            old(self).wf(),
        ensures
            final(self).wf(),
            final(self)@ == (if old(self)@.contains_key(spec_fingerprint(view_node(schema))) {
                old(self)@
            } else {
                old(self)@.insert(spec_fingerprint(view_node(schema)), view_node(schema))
            }),
    {
        let fp = fingerprint(&schema);
        let n = self.entries.len();
        let mut i: usize = 0;
        while i < n
            invariant
                i <= n,
                n == self.entries@.len(),
                self == old(self),
                self.wf(),
                fp == spec_fingerprint(view_node(schema)),
                forall|j: int| 0 <= j < i ==> (#[trigger] self.entries@[j]).0 != fp,
            decreases n - i,
        {
            if self.entries[i].0 == fp {
                proof {
                    lemma_cache_map_contains(self.entries@, fp);
                }
                return ;
            }
            i += 1;
        }
        proof {
            lemma_cache_map_contains(self.entries@, fp);
            assert(!self@.contains_key(fp));
        }
        let ghost before = self.entries@;
        self.entries.push((fp, schema));
        proof {
            assert(self.entries@.drop_last() =~= before);
        }
    }

    /// Looks a schema up by fingerprint; absence is not an error.
    pub fn lookup(&self, fp: u64) -> (r: Option<&SchemaNode>)
        requires
            self.wf(),
        ensures
            (match r {
                Option::Some(n) => self@.contains_key(fp) && view_node(*n) == self@[fp],
                Option::None => !self@.contains_key(fp),
            }),
    {
        let n = self.entries.len();
        let mut i: usize = 0;
        while i < n
            invariant
                i <= n,
                n == self.entries@.len(),
                self.wf(),
                forall|j: int| 0 <= j < i ==> (#[trigger] self.entries@[j]).0 != fp,
            decreases n - i,
        {
            if self.entries[i].0 == fp {
                proof {
                    lemma_cache_map_at(self.entries@, i as int);
                }
                return Option::Some(&self.entries[i].1);
            }
            i += 1;
        }
        proof {
            lemma_cache_map_contains(self.entries@, fp);
        }
        Option::None
    }
}

/// Storing the same schema twice leaves the cache exactly as one store
/// leaves it: the second store finds the fingerprint present and changes
/// nothing.
pub proof fn lemma_store_idempotent(m: Map<u64, SchemaModel>, fp: u64, s: SchemaModel)
    ensures
        m.insert(fp, s).insert(fp, s) == m.insert(fp, s),
        m.insert(fp, s).contains_key(fp),
{
    assert(m.insert(fp, s).insert(fp, s) =~= m.insert(fp, s));
}

/// The lowercase hex digit for a nibble.
pub open spec fn spec_hex_digit(d: int) -> u8 {
    if d < 10 {
        (0x30 + d) as u8
    } else {
        (0x57 + d) as u8
    }
}

/// The hex expansion of a byte string: two digits per byte, high nibble
/// first.
pub open spec fn spec_hex_bytes(s: Seq<u8>) -> Seq<u8>
    decreases s.len(),
{
    if s.len() == 0 {
        Seq::empty()
    } else {
        seq![spec_hex_digit(s[0] as int / 16), spec_hex_digit(s[0] as int % 16)] + spec_hex_bytes(s.skip(1))
    }
}

/// The cache file name of a fingerprint: the hex encoding of its 8 wire
/// bytes followed by the fixed extension `.pcs`.
pub open spec fn spec_cache_file_name(fp: u64) -> Seq<u8> {
    spec_hex_bytes(spec_fingerprint_bytes(fp)) + seq![0x2eu8, 0x70u8, 0x63u8, 0x73u8]
}

/// Derives the cache file name for a fingerprint, as ASCII bytes.
pub fn cache_file_name(fp: u64) -> (r: Vec<u8>)
    ensures
        r@ == spec_cache_file_name(fp),
{
    let bytes = fingerprint_bytes(fp);
    let mut out: Vec<u8> = Vec::new();
    let n = bytes.len();
    let mut i: usize = 0;
    proof {
        assert(bytes@.skip(0) =~= bytes@);
        assert(out@ + spec_hex_bytes(bytes@) =~= spec_hex_bytes(bytes@));
    }
    while i < n
        invariant
            i <= n,
            n == bytes@.len(),
            out@ + spec_hex_bytes(bytes@.skip(i as int)) == spec_hex_bytes(bytes@),
        decreases n - i,
    {
        let ghost rest = bytes@.skip(i as int);
        proof {
            assert(rest[0] == bytes@[i as int]);
            assert(rest.skip(1) =~= bytes@.skip(i + 1));
        }
        let b = bytes[i];
        let hi = b / 16;
        let lo = b % 16;
        let d1: u8 = if hi < 10 {
            0x30 + hi
        } else {
            0x57 + hi
        };
        let d2: u8 = if lo < 10 {
            0x30 + lo
        } else {
            0x57 + lo
        };
        out.push(d1);
        out.push(d2);
        proof {
            assert(out@ + spec_hex_bytes(bytes@.skip(i + 1)) =~= spec_hex_bytes(bytes@));
        }
        i += 1;
    }
    out.push(0x2e);
    out.push(0x70);
    out.push(0x63);
    out.push(0x73);
    proof {
        assert(bytes@.skip(n as int) =~= Seq::<u8>::empty());
        assert(out@ =~= spec_cache_file_name(fp));
    }
    out
}

} // verus!
