//! Parsing of the append-only, page-erasable queue format out of a raw
//! flash dump.
//!
//! The dump is a read-only byte buffer partitioned into 4096-byte pages
//! (the erase granularity). The first and last 4-byte word of every page
//! carry page-state markers; the bytes between them hold framed entries
//! written sequentially. An entry is an 8-byte header — a CRC-32 of the
//! payload (zero marks an erased entry), a little-endian payload length and
//! a CRC-16 of the length field — followed by the payload, padded to 4-byte
//! alignment. A header slot that still holds the erased sentinel (all bits
//! set) marks that no further entries exist in that page or beyond, so
//! iteration terminates there; a page whose entries run to its end
//! continues on the next page.

use vstd::prelude::*;

use crate::error::Error;

verus! {

broadcast use {vstd::std_specs::vec::group_vec_axioms, vstd::seq::group_seq_axioms};

/// The erase granularity: entries never span a page boundary.
pub const PAGE_SIZE: usize = 4096;

/// The read, write and marker word size of the flash layout.
pub const WORD_SIZE: usize = 4;

/// One shift-and-reduce round of the CRC-16 (polynomial 0x1a2e).
pub open spec fn crc16_round(crc: u16) -> u16 {
    if crc % 2 == 1 {
        (crc / 2) ^ 0x1a2e
    } else {
        crc / 2
    }
}

/// `k` rounds of the CRC-16.
pub open spec fn crc16_rounds(crc: u16, k: nat) -> u16
    decreases k,
{
    if k == 0 {
        crc
    } else {
        crc16_rounds(crc16_round(crc), (k - 1) as nat)
    }
}

/// The CRC-16 state after absorbing `s`.
pub open spec fn crc16_accum(crc: u16, s: Seq<u8>) -> u16
    decreases s.len(),
{
    if s.len() == 0 {
        crc
    } else {
        crc16_accum(crc16_rounds(crc ^ (s[0] as u16), 8), s.skip(1))
    }
}

/// The length-field checksum: a CRC-16 that never returns 0xFFFF, so a
/// stored checksum can always be told apart from erased flash.
pub open spec fn spec_crc16(s: Seq<u8>) -> u16 {
    let c = crc16_accum(0xffff, s) ^ 0xffff;
    if c == 0xFFFF {
        0xFFFE
    } else {
        c
    }
}

/// One shift-and-reduce round of the CRC-32 (Castagnoli polynomial,
/// reflected form 0x82f63b78).
pub open spec fn crc32_round(crc: u32) -> u32 {
    if crc % 2 == 1 {
        (crc / 2) ^ 0x82f6_3b78
    } else {
        crc / 2
    }
}

/// `k` rounds of the CRC-32.
pub open spec fn crc32_rounds(crc: u32, k: nat) -> u32
    decreases k,
{
    if k == 0 {
        crc
    } else {
        crc32_rounds(crc32_round(crc), (k - 1) as nat)
    }
}

/// The CRC-32 state after absorbing `s`.
pub open spec fn crc32_accum(crc: u32, s: Seq<u8>) -> u32
    decreases s.len(),
{
    if s.len() == 0 {
        crc
    } else {
        crc32_accum(crc32_rounds(crc ^ (s[0] as u32), 8), s.skip(1))
    }
}

/// The payload checksum: a CRC-32 with a modified initial value, inverted
/// at the end.
pub open spec fn spec_crc32(s: Seq<u8>) -> u32 {
    !crc32_accum(0xEEEE_EEEE, s)
}

/// The payload checksum as stored on flash: never zero (zero marks an
/// erased entry) and never with an all-zero or all-one first byte.
pub open spec fn spec_adapted_crc32(s: Seq<u8>) -> u32 {
    let c = spec_crc32(s);
    if c == 0 {
        1
    } else if c % 256 == 0 || c % 256 == 0xFF {
        c ^ 1
    } else {
        c
    }
}

/// The little-endian 16-bit value formed by two bytes.
pub open spec fn u16_of_le(b0: u8, b1: u8) -> u16 {
    (b0 + b1 * 0x100) as u16
}

/// The little-endian 32-bit value formed by four bytes of `s` at `i`.
pub open spec fn u32_at_le(s: Seq<u8>, i: int) -> u32 {
    (s[i] + s[i + 1] * 0x100 + s[i + 2] * 0x1_0000 + s[i + 3] * 0x100_0000) as u32
}

/// Whether the eight header bytes at `a` still hold the erased sentinel.
pub open spec fn header_erased(s: Seq<u8>, a: int) -> bool {
    forall|i: int| a <= i < a + 8 ==> s[i] == 0xFF
}

/// A payload length padded to the 4-byte word alignment.
pub open spec fn round_up_word(len: int) -> int {
    ((len + 3) / 4) * 4
}

/// The entries of one page's data region, scanning from `a` up to `pe`.
/// Returns the payloads in order together with a flag that is true when an
/// erased header slot was found, which ends the whole iteration.
pub open spec fn spec_page_items(s: Seq<u8>, pe: int, a: int) -> Result<(Seq<Seq<u8>>, bool), Error>
    decreases pe - a,
{
    if a + 8 > pe {
        Ok((Seq::empty(), false))
    } else if header_erased(s, a) {
        Ok((Seq::empty(), true))
    } else {
        let length = u16_of_le(s[a + 4], s[a + 5]);
        let stored_length_crc = u16_of_le(s[a + 6], s[a + 7]);
        if spec_crc16(s.subrange(a + 4, a + 6)) != stored_length_crc {
            Err(Error::CorruptedEntry)
        } else {
            let crc_field = u32_at_le(s, a);
            let next = a + 8 + round_up_word(length as int);
            if next > pe {
                Err(Error::CorruptedEntry)
            } else if crc_field == 0 {
                spec_page_items(s, pe, next)
            } else {
                let data = s.subrange(a + 8, a + 8 + length);
                if spec_adapted_crc32(data) == crc_field {
                    match spec_page_items(s, pe, next) {
                        Err(e) => Err(e),
                        Ok((rest, stop)) => Ok((seq![data] + rest, stop)),
                    }
                } else {
                    Err(Error::CorruptedEntry)
                }
            }
        }
    }
}

/// The entries of all full pages from page `p` onward, read linearly.
/// Iteration ends at the first erased header slot, at the first page that
/// is not fully contained in the buffer, or with the error of a corrupt
/// entry.
pub open spec fn spec_pages(s: Seq<u8>, p: nat) -> Result<Seq<Seq<u8>>, Error>
    decreases s.len() - p * (PAGE_SIZE as int),
{
    let ps = p * (PAGE_SIZE as int);
    if ps + PAGE_SIZE > s.len() {
        Ok(Seq::empty())
    } else {
        match spec_page_items(s, ps + PAGE_SIZE - WORD_SIZE, ps + WORD_SIZE) {
            Err(e) => Err(e),
            Ok((items, stop)) => {
                if stop {
                    Ok(items)
                } else {
                    match spec_pages(s, p + 1) {
                        Err(e) => Err(e),
                        Ok(rest) => Ok(items + rest),
                    }
                }
            },
        }
    }
}

/// All entries of a raw flash dump, in iteration order.
pub open spec fn spec_entries(s: Seq<u8>) -> Result<Seq<Seq<u8>>, Error> {
    spec_pages(s, 0)
}

/// The mathematical values of a list of byte vectors.
pub open spec fn view_byte_lists(v: Seq<Vec<u8>>) -> Seq<Seq<u8>> {
    Seq::new(v.len(), |i: int| v[i]@)
}

/// Computes the length-field CRC-16.
pub fn crc16(data: &[u8]) -> (r: u16)
    ensures
        r == spec_crc16(data@),
{
    let n = data.len();
    let mut crc: u16 = 0xffff;
    let mut i: usize = 0;
    proof {
        assert(data@.skip(0) =~= data@);
    }
    while i < n
        invariant
            i <= n,
            n == data@.len(),
            crc16_accum(crc, data@.skip(i as int)) == crc16_accum(0xffff, data@),
        decreases n - i,
    {
        let ghost rest = data@.skip(i as int);
        crc = crc ^ (data[i] as u16);
        let mut k: usize = 0;
        let ghost crc0 = crc;
        while k < 8
            invariant
                k <= 8,
                crc == crc16_rounds(crc0, k as nat),
            decreases 8 - k,
        {
            proof {
                assert(crc16_rounds(crc0, (k + 1) as nat) == crc16_rounds(
                    crc16_round(crc16_rounds(crc0, k as nat)),
                    0,
                )) by {
                    lemma_crc16_rounds_unfold(crc0, k as nat);
                }
            }
            if crc % 2 == 1 {
                crc = (crc / 2) ^ 0x1a2e;
            } else {
                crc = crc / 2;
            }
            k += 1;
        }
        proof {
            assert(rest[0] == data@[i as int]);
            assert(rest.skip(1) =~= data@.skip(i + 1));
        }
        i += 1;
    }
    let c = crc ^ 0xffff;
    if c == 0xFFFF {
        0xFFFE
    } else {
        c
    }
}

proof fn lemma_crc16_rounds_unfold(crc: u16, k: nat)
    ensures
        crc16_rounds(crc, (k + 1) as nat) == crc16_round(crc16_rounds(crc, k)),
    decreases k,
{
    if k == 0 {
        assert(crc16_rounds(crc, 1) == crc16_rounds(crc16_round(crc), 0));
    } else {
        lemma_crc16_rounds_unfold(crc16_round(crc), (k - 1) as nat);
        assert(crc16_rounds(crc, (k + 1) as nat) == crc16_rounds(crc16_round(crc), k));
    }
}

proof fn lemma_crc32_rounds_unfold(crc: u32, k: nat)
    ensures
        crc32_rounds(crc, (k + 1) as nat) == crc32_round(crc32_rounds(crc, k)),
    decreases k,
{
    if k == 0 {
        assert(crc32_rounds(crc, 1) == crc32_rounds(crc32_round(crc), 0));
    } else {
        lemma_crc32_rounds_unfold(crc32_round(crc), (k - 1) as nat);
        assert(crc32_rounds(crc, (k + 1) as nat) == crc32_rounds(crc32_round(crc), k));
    }
}

/// Computes the payload CRC-32 before the erased-value adaptation.
pub fn crc32(data: &[u8]) -> (r: u32)
    ensures
        r == spec_crc32(data@),
{
    let n = data.len();
    let mut crc: u32 = 0xEEEE_EEEE;
    let mut i: usize = 0;
    proof {
        assert(data@.skip(0) =~= data@);
    }
    while i < n
        invariant
            i <= n,
            n == data@.len(),
            crc32_accum(crc, data@.skip(i as int)) == crc32_accum(0xEEEE_EEEE, data@),
        decreases n - i,
    {
        let ghost rest = data@.skip(i as int);
        crc = crc ^ (data[i] as u32);
        let mut k: usize = 0;
        let ghost crc0 = crc;
        while k < 8
            invariant
                k <= 8,
                crc == crc32_rounds(crc0, k as nat),
            decreases 8 - k,
        {
            proof {
                lemma_crc32_rounds_unfold(crc0, k as nat);
            }
            if crc % 2 == 1 {
                crc = (crc / 2) ^ 0x82f6_3b78;
            } else {
                crc = crc / 2;
            }
            k += 1;
        }
        proof {
            assert(rest[0] == data@[i as int]);
            assert(rest.skip(1) =~= data@.skip(i + 1));
        }
        i += 1;
    }
    !crc
}

/// Computes the payload checksum as stored on flash.
pub fn adapted_crc32(data: &[u8]) -> (r: u32)
    ensures
        r == spec_adapted_crc32(data@),
{
    let c = crc32(data);
    if c == 0 {
        1
    } else if c % 256 == 0 || c % 256 == 0xFF {
        c ^ 1
    } else {
        c
    }
}

/// Decodes the entries of one page's data region starting at `a`.
fn parse_page_items(s: &[u8], pe: usize, a: usize) -> (r: Result<(Vec<Vec<u8>>, bool), Error>)
    requires
        pe <= s@.len(),
    ensures
        (match r {
            Ok((items, stop)) => spec_page_items(s@, pe as int, a as int) == Ok::<
                (Seq<Seq<u8>>, bool),
                Error,
            >((view_byte_lists(items@), stop)),
            Err(e) => spec_page_items(s@, pe as int, a as int) == Err::<
                (Seq<Seq<u8>>, bool),
                Error,
            >(e),
        }),
    decreases pe - a,
{
    if pe < 8 || a > pe - 8 {
        let items: Vec<Vec<u8>> = Vec::new();
        assert(view_byte_lists(items@) =~= Seq::<Seq<u8>>::empty());
        return Ok((items, false));
    }
    let mut all_ff = true;
    let mut j: usize = 0;
    while j < 8
        invariant
            j <= 8,
            a + 8 <= pe <= s@.len(),
            all_ff == (forall|i: int| a <= i < a + j ==> s@[i] == 0xFF),
        decreases 8 - j,
    {
        if s[a + j] != 0xFF {
            all_ff = false;
            assert(!(forall|i: int| a <= i < a + (j + 1) ==> s@[i] == 0xFF)) by {
                assert(s@[a + j] != 0xFF);
            }
        }
        j += 1;
    }
    if all_ff {
        let items: Vec<Vec<u8>> = Vec::new();
        assert(view_byte_lists(items@) =~= Seq::<Seq<u8>>::empty());
        assert(header_erased(s@, a as int));
        return Ok((items, true));
    }
    assert(!header_erased(s@, a as int));
    let length = (s[a + 4] as u16) + (s[a + 5] as u16) * 0x100;
    let stored_length_crc = (s[a + 6] as u16) + (s[a + 7] as u16) * 0x100;
    let mut length_bytes: Vec<u8> = Vec::new();
    length_bytes.push(s[a + 4]);
    length_bytes.push(s[a + 5]);
    proof {
        assert(length_bytes@ =~= s@.subrange(a + 4, a + 6));
    }
    let computed = crc16(length_bytes.as_slice());
    if computed != stored_length_crc {
        return Err(Error::CorruptedEntry);
    }
    let crc_field = (s[a] as u32) + (s[a + 1] as u32) * 0x100 + (s[a + 2] as u32) * 0x1_0000 + (s[a
        + 3] as u32) * 0x100_0000;
    let padded = ((length as usize) + 3) / 4 * 4;
    if padded > pe || a + 8 > pe - padded {
        return Err(Error::CorruptedEntry);
    }
    let next = a + 8 + padded;
    if crc_field == 0 {
        return parse_page_items(s, pe, next);
    }
    let mut data: Vec<u8> = Vec::new();
    let base = a + 8;
    let n = length as usize;
    let mut k: usize = 0;
    while k < n
        invariant
            k <= n,
            base + n <= pe <= s@.len(),
            data@ =~= s@.subrange(base as int, base + k),
        decreases n - k,
    {
        let b = s[base + k];
        data.push(b);
        proof {
            assert(data@ =~= s@.subrange(base as int, base + k + 1));
        }
        k += 1;
    }
    assert(data@ == s@.subrange(a + 8, a + 8 + length));
    let computed_data_crc = adapted_crc32(data.as_slice());
    if computed_data_crc != crc_field {
        return Err(Error::CorruptedEntry);
    }
    let rest = match parse_page_items(s, pe, next) {
        Ok(p) => p,
        Err(e) => {
            return Err(e);
        },
    };
    let (mut items, stop) = rest;
    let ghost items_view = items@;
    items.insert(0, data);
    proof {
        assert(view_byte_lists(items@) =~= seq![s@.subrange(a + 8, a + 8 + length)]
            + view_byte_lists(items_view));
    }
    Ok((items, stop))
}

/// Decodes the entries of all full pages from page `p` onward.
fn parse_pages(s: &[u8], p: usize) -> (r: Result<Vec<Vec<u8>>, Error>)
    ensures
        (match r {
            Ok(items) => spec_pages(s@, p as nat) == Ok::<Seq<Seq<u8>>, Error>(
                view_byte_lists(items@),
            ),
            Err(e) => spec_pages(s@, p as nat) == Err::<Seq<Seq<u8>>, Error>(e),
        }),
    decreases s@.len() - p * (PAGE_SIZE as int),
{
    let n = s.len();
    if n < PAGE_SIZE || p > n / PAGE_SIZE || p * PAGE_SIZE > n - PAGE_SIZE {
        let items: Vec<Vec<u8>> = Vec::new();
        assert(view_byte_lists(items@) =~= Seq::<Seq<u8>>::empty());
        assert((p as int) * (PAGE_SIZE as int) + PAGE_SIZE > s@.len());
        return Ok(items);
    }
    assert((p as int) * (PAGE_SIZE as int) + PAGE_SIZE <= s@.len());
    let ps = p * PAGE_SIZE;
    let (mut items, stop) = match parse_page_items(s, ps + PAGE_SIZE - WORD_SIZE, ps + WORD_SIZE) {
        Ok(r) => r,
        Err(e) => {
            return Err(e);
        },
    };
    if stop {
        return Ok(items);
    }
    let mut rest = match parse_pages(s, p + 1) {
        Ok(r) => r,
        Err(e) => {
            return Err(e);
        },
    };
    let ghost items_view = items@;
    let ghost rest_view = rest@;
    items.append(&mut rest);
    proof {
        assert(view_byte_lists(items@) =~= view_byte_lists(items_view) + view_byte_lists(
            rest_view,
        ));
    }
    Ok(items)
}

/// All entries of a raw flash dump, in iteration order: a lazy, finite,
/// forward-only walk realized as one pass over the buffer.
pub fn parse_queue_entries(s: &[u8]) -> (r: Result<Vec<Vec<u8>>, Error>)
    ensures
        (match r {
            Ok(items) => spec_entries(s@) == Ok::<Seq<Seq<u8>>, Error>(view_byte_lists(items@)),
            Err(e) => spec_entries(s@) == Err::<Seq<Seq<u8>>, Error>(e),
        }),
{
    parse_pages(s, 0)
}

proof fn lemma_page_items_depend_on_prefix(s1: Seq<u8>, s2: Seq<u8>, pe: int, a: int)
    requires
        0 <= a,
        0 <= pe,
        pe <= s1.len(),
        pe <= s2.len(),
        forall|i: int| 0 <= i < pe ==> s1[i] == s2[i],
    ensures
        spec_page_items(s1, pe, a) == spec_page_items(s2, pe, a),
    decreases pe - a,
{
    if a + 8 > pe {
    } else {
        assert(header_erased(s1, a) == header_erased(s2, a)) by {
            if header_erased(s1, a) {
                assert forall|i: int| a <= i < a + 8 implies s2[i] == 0xFF by {
                    assert(s1[i] == 0xFF);
                }
            }
            if header_erased(s2, a) {
                assert forall|i: int| a <= i < a + 8 implies s1[i] == 0xFF by {
                    assert(s2[i] == 0xFF);
                }
            }
        }
        if header_erased(s1, a) {
        } else {
            assert(s1.subrange(a + 4, a + 6) =~= s2.subrange(a + 4, a + 6));
            let length = u16_of_le(s1[a + 4], s1[a + 5]);
            let next = a + 8 + round_up_word(length as int);
            if spec_crc16(s1.subrange(a + 4, a + 6)) != u16_of_le(s1[a + 6], s1[a + 7]) {
            } else if next > pe {
            } else {
                assert(s1.subrange(a + 8, a + 8 + length) =~= s2.subrange(a + 8, a + 8 + length));
                lemma_page_items_depend_on_prefix(s1, s2, pe, next);
            }
        }
    }
}

proof fn lemma_pages_stop_at_erased(s: Seq<u8>, p: nat, q: nat)
    requires
        q <= p,
        (p + 1) * (PAGE_SIZE as int) <= s.len(),
        forall|i: int|
            p * (PAGE_SIZE as int) <= i < (p + 1) * (PAGE_SIZE as int) ==> s[i] == 0xFF,
    ensures
        spec_pages(s, q) == spec_pages(s.take(p * (PAGE_SIZE as int)), q),
    decreases p - q,
{
    let t = s.take(p * (PAGE_SIZE as int));
    let ps = q * (PAGE_SIZE as int);
    if q == p {
        assert(ps + PAGE_SIZE > t.len());
        assert(ps + PAGE_SIZE <= s.len());
        assert(header_erased(s, ps + WORD_SIZE)) by {
            assert forall|i: int| ps + WORD_SIZE <= i < ps + WORD_SIZE + 8 implies s[i]
                == 0xFF by {}
        }
        assert(spec_page_items(s, ps + PAGE_SIZE - WORD_SIZE, ps + WORD_SIZE) == Ok::<
            (Seq<Seq<u8>>, bool),
            Error,
        >((Seq::empty(), true)));
    } else {
        assert((q + 1) * (PAGE_SIZE as int) <= p * (PAGE_SIZE as int));
        assert(ps + PAGE_SIZE <= t.len());
        assert(ps + PAGE_SIZE <= s.len());
        lemma_page_items_depend_on_prefix(s, t, ps + PAGE_SIZE - WORD_SIZE, ps + WORD_SIZE);
        lemma_pages_stop_at_erased(s, p, q + 1);
    }
}

/// Iteration termination: when the whole page `p` still holds the erased
/// sentinel, the dump yields exactly the entries of the pages before it —
/// whatever bytes stand beyond that page.
pub proof fn lemma_erased_page_ends_iteration(s: Seq<u8>, p: nat)
    requires
        (p + 1) * (PAGE_SIZE as int) <= s.len(),
        forall|i: int|
            p * (PAGE_SIZE as int) <= i < (p + 1) * (PAGE_SIZE as int) ==> s[i] == 0xFF,
    ensures
        spec_entries(s) == spec_entries(s.take(p * (PAGE_SIZE as int))),
{
    lemma_pages_stop_at_erased(s, p, 0);
}

} // verus!
