//! Byte-level model of the record store.
//!
//! A storage region is a fixed-length byte sequence.  It opens with a
//! 4-byte magic header; from offset 4 on, records are packed back to back.
//! A record is a 2-byte little-endian total size (counting the size field,
//! the name and the content), a null-terminated name, and raw content
//! bytes.  A size field of zero marks the end of the used area.
//!
//! [`parse`] turns the byte sequence into the list of records plus the
//! offset of the free slot; [`find_rec`] mirrors the forward scan the
//! executable operations perform, stopping at the first name match.  The
//! lemmas here relate the two and describe how writing and erasing
//! transform the parse.

use vstd::prelude::*;

verus! {

/// One stored record: a name (no null bytes, terminator not included)
/// and raw content bytes.
pub struct Rec {
    pub name: Seq<u8>,
    pub content: Seq<u8>,
}

/// Expected magic number at offset 0, read little-endian: the fixed
/// constant 0xBADD0BEE with its bytes swapped.
pub const STORAGE_MAGIC: u32 = 0xEE0BDDBA;

/// The 2-byte little-endian word at `off`.
pub open spec fn word_at(s: Seq<u8>, off: int) -> int
    recommends
        0 <= off,
        off + 2 <= s.len(),
{
    s[off] as int + 256 * (s[off + 1] as int)
}

/// `n` zero bytes.
pub open spec fn zeros(n: int) -> Seq<u8> {
    Seq::new(n as nat, |i: int| 0u8)
}

/// The 2-byte little-endian encoding of `n`.
pub open spec fn le16(n: int) -> Seq<u8>
    recommends
        0 <= n <= 0xFFFF,
{
    seq![(n % 256) as u8, ((n / 256) % 256) as u8]
}

/// True when `b` holds no null byte, so that it can stand as a stored
/// name without being cut short at a terminator.
pub open spec fn no_nul(b: Seq<u8>) -> bool {
    forall|i: int| 0 <= i < b.len() ==> b[i] != 0
}

/// The magic word stored at the head of the region.
pub open spec fn magic_word(s: Seq<u8>) -> u32
    recommends
        s.len() >= 4,
{
    vstd::bytes::spec_u32_from_le_bytes(s.subrange(0, 4))
}

/// A region whose head holds the expected magic number.
pub open spec fn valid_magic(s: Seq<u8>) -> bool {
    s.len() >= 4 && magic_word(s) == STORAGE_MAGIC
}

/// Position of the first zero byte in `s` at an index in `[i, end)`,
/// or `end` if every byte there is nonzero.
pub open spec fn find_zero(s: Seq<u8>, i: int, end: int) -> int
    recommends
        0 <= i <= end <= s.len(),
    decreases end - i,
{
    if i >= end {
        end
    } else if s[i] == 0 {
        i
    } else {
        find_zero(s, i + 1, end)
    }
}

/// Total on-disk size of a record: the 2-byte size field, the name with
/// its terminator, and the content.
pub open spec fn rec_total(r: Rec) -> int {
    3 + r.name.len() as int + r.content.len() as int
}

/// Parses the records packed from `off` to the free slot.  Returns the
/// record list and the free-slot offset, or `None` where a size field
/// runs past the region, is too small to hold a terminated name, or the
/// name lacks its terminator.
pub open spec fn parse(s: Seq<u8>, off: int) -> Option<(Seq<Rec>, int)>
    recommends
        4 <= off <= s.len(),
    decreases s.len() - off,
{
    if s.len() - off < 2 {
        Some((Seq::empty(), off))
    } else if word_at(s, off) == 0 {
        Some((Seq::empty(), off))
    } else {
        let n = word_at(s, off);
        if n < 3 || off + n > s.len() {
            None
        } else {
            let z = find_zero(s, off + 2, off + n);
            if z == off + n {
                None
            } else {
                match parse(s, off + n) {
                    None => None,
                    Some((recs, end)) => Some(
                        (
                            seq![
                                Rec {
                                    name: s.subrange(off + 2, z),
                                    content: s.subrange(z + 1, off + n),
                                },
                            ] + recs,
                            end,
                        ),
                    ),
                }
            }
        }
    }
}

/// Outcome of the forward scan for a name: the first matching record and
/// its offset, a clean end of data without a match, or a malformed record
/// met before either.
pub enum FindOut {
    Found(int, Rec),
    Absent,
    Corrupt,
}

/// The offset a successful scan found its record at.
pub open spec fn found_off(f: FindOut) -> int {
    match f {
        FindOut::Found(off, _) => off,
        _ => 0,
    }
}

/// The record a successful scan found.
pub open spec fn found_rec(f: FindOut) -> Rec {
    match f {
        FindOut::Found(_, r) => r,
        _ => Rec { name: Seq::empty(), content: Seq::empty() },
    }
}

/// The forward scan from `off` for the first record named `q`: the very
/// walk the executable lookup performs, stopping at a match, at the end
/// of data, or at a malformed record.
pub open spec fn find_rec(s: Seq<u8>, off: int, q: Seq<u8>) -> FindOut
    recommends
        4 <= off <= s.len(),
    decreases s.len() - off,
{
    if s.len() - off < 2 {
        FindOut::Absent
    } else if word_at(s, off) == 0 {
        FindOut::Absent
    } else {
        let n = word_at(s, off);
        if n < 3 || off + n > s.len() {
            FindOut::Corrupt
        } else {
            let z = find_zero(s, off + 2, off + n);
            if z == off + n {
                FindOut::Corrupt
            } else if s.subrange(off + 2, z) == q {
                FindOut::Found(
                    off,
                    Rec { name: s.subrange(off + 2, z), content: s.subrange(z + 1, off + n) },
                )
            } else {
                find_rec(s, off + n, q)
            }
        }
    }
}

/// First record named `q` in a record list.
pub open spec fn list_find(recs: Seq<Rec>, q: Seq<u8>) -> Option<Rec>
    decreases recs.len(),
{
    if recs.len() == 0 {
        None
    } else if recs[0].name == q {
        Some(recs[0])
    } else {
        list_find(recs.drop_first(), q)
    }
}

/// How many records in the list bear the name `q`.
pub open spec fn list_count(recs: Seq<Rec>, q: Seq<u8>) -> nat
    decreases recs.len(),
{
    if recs.len() == 0 {
        0
    } else {
        (if recs[0].name == q {
            1nat
        } else {
            0nat
        }) + list_count(recs.drop_first(), q)
    }
}

/// The record list with the first record named `q` taken out.
pub open spec fn remove_first_named(recs: Seq<Rec>, q: Seq<u8>) -> Seq<Rec>
    decreases recs.len(),
{
    if recs.len() == 0 {
        recs
    } else if recs[0].name == q {
        recs.drop_first()
    } else {
        seq![recs[0]] + remove_first_named(recs.drop_first(), q)
    }
}

/// A well-formed store: the magic number is in place and the records
/// parse cleanly up to the free slot.
pub open spec fn wf_store(s: Seq<u8>) -> bool {
    valid_magic(s) && parse(s, 4) is Some
}

/// The records of a well-formed store, in storage order.
pub open spec fn store_model(s: Seq<u8>) -> Seq<Rec>
    recommends
        parse(s, 4) is Some,
{
    (parse(s, 4)->0).0
}

/// The free-slot offset of a well-formed store.
pub open spec fn store_free(s: Seq<u8>) -> int
    recommends
        parse(s, 4) is Some,
{
    (parse(s, 4)->0).1
}

/// The region after a record with name field `nb` (terminator included)
/// and content `content` is written at `free`: everything below `free`
/// kept, the record's bytes laid down, and the rest zeroed.
pub open spec fn store_write_bytes(s: Seq<u8>, free: int, nb: Seq<u8>, content: Seq<u8>) -> Seq<
    u8,
>
    recommends
        4 <= free,
        free + 2 + nb.len() + content.len() <= s.len(),
{
    let total = 2 + nb.len() as int + content.len() as int;
    s.subrange(0, free) + le16(total) + nb + content + zeros(s.len() - free - total)
}

/// The region after the record of size `n` at `off` is erased: the bytes
/// between the record's end and the free slot `free` shift down by `n`,
/// the vacated tail is zeroed, and everything else is kept.
pub open spec fn store_erase_bytes(s: Seq<u8>, off: int, n: int, free: int) -> Seq<u8>
    recommends
        4 <= off,
        off + n <= free <= s.len(),
{
    s.subrange(0, off) + s.subrange(off + n, free) + zeros(n) + s.subrange(free, s.len() as int)
}

/// Whether a record with name field `nb` (terminator included) and
/// `content_len` content bytes fits the free space of `s`, both in the
/// region and in the 2-byte size field.
pub open spec fn write_fits(s: Seq<u8>, nb_len: int, content_len: int) -> bool {
    let total = 2 + nb_len + content_len;
    parse(s, 4) is Some && total <= s.len() - store_free(s) && total <= 0xFFFF
}

/// The name a query's raw bytes stand for: everything up to the first
/// null byte, since names are compared as null-terminated strings.
pub open spec fn query_name(b: Seq<u8>) -> Seq<u8> {
    b.subrange(0, find_zero(b, 0, b.len() as int))
}

/// Basic facts of [`find_zero`]: the result lies in `[i, end]`, every
/// byte before it is nonzero, and when it is below `end` it points at a
/// zero byte.
pub proof fn lemma_find_zero_bounds(s: Seq<u8>, i: int, end: int)
    requires
        0 <= i <= end <= s.len(),
    ensures
        i <= find_zero(s, i, end) <= end,
        forall|j: int| i <= j < find_zero(s, i, end) ==> s[j] != 0,
        find_zero(s, i, end) < end ==> s[find_zero(s, i, end)] == 0,
    decreases end - i,
{
    if i >= end {
    } else if s[i] == 0 {
    } else {
        lemma_find_zero_bounds(s, i + 1, end);
    }
}

/// [`find_zero`] lands exactly on `k` when every byte before `k` is
/// nonzero and `k` is a zero byte or the range's end.
pub proof fn lemma_find_zero_at(s: Seq<u8>, i: int, end: int, k: int)
    requires
        0 <= i <= k <= end <= s.len(),
        forall|j: int| i <= j < k ==> s[j] != 0,
        k < end ==> s[k] == 0,
    ensures
        find_zero(s, i, end) == k,
    decreases k - i,
{
    if i < k {
        lemma_find_zero_at(s, i + 1, end, k);
    }
}

/// [`find_zero`] depends only on the bytes of its range: over two ranges
/// of equal length with equal bytes it stops at the same distance.
pub proof fn lemma_find_zero_shift(s1: Seq<u8>, i1: int, e1: int, s2: Seq<u8>, i2: int, e2: int)
    requires
        0 <= i1 <= e1 <= s1.len(),
        0 <= i2 <= e2 <= s2.len(),
        e1 - i1 == e2 - i2,
        s1.subrange(i1, e1) == s2.subrange(i2, e2),
    ensures
        find_zero(s2, i2, e2) - i2 == find_zero(s1, i1, e1) - i1,
{
    lemma_find_zero_bounds(s1, i1, e1);
    let k1 = find_zero(s1, i1, e1);
    let k2 = i2 + (k1 - i1);
    assert forall|j: int| i2 <= j < k2 implies s2[j] != 0 by {
        assert(s2.subrange(i2, e2)[j - i2] == s2[j]);
        assert(s1.subrange(i1, e1)[j - i2] == s1[i1 + (j - i2)]);
    }
    if k1 < e1 {
        assert(s2.subrange(i2, e2)[k1 - i1] == s2[k2]);
        assert(s1.subrange(i1, e1)[k1 - i1] == s1[k1]);
    }
    lemma_find_zero_at(s2, i2, e2, k2);
}

/// A subrange of a subrange is the matching subrange of the base
/// sequence.
pub proof fn lemma_subrange_of_subrange(s: Seq<u8>, a: int, b: int, i: int, j: int)
    requires
        0 <= a <= b <= s.len(),
        0 <= i <= j <= b - a,
    ensures
        s.subrange(a, b).subrange(i, j) == s.subrange(a + i, a + j),
{
    assert(s.subrange(a, b).subrange(i, j) =~= s.subrange(a + i, a + j));
}

/// The free slot a parse ends at lies between its start and the region's
/// end.
pub proof fn lemma_parse_bounds(s: Seq<u8>, off: int)
    requires
        4 <= off <= s.len(),
        parse(s, off) is Some,
    ensures
        off <= (parse(s, off)->0).1 <= s.len(),
    decreases s.len() - off,
{
    if s.len() - off < 2 {
    } else if word_at(s, off) == 0 {
    } else {
        let n = word_at(s, off);
        lemma_parse_bounds(s, off + n);
    }
}

/// Parsing depends only on the bytes from the start offset up to the free
/// slot: where a second region carries the same bytes at another offset,
/// its parse is the first parse's records followed by whatever parses
/// after them.
pub proof fn lemma_parse_shift(s1: Seq<u8>, a1: int, s2: Seq<u8>, a2: int)
    requires
        4 <= a1 <= s1.len(),
        4 <= a2 <= s2.len(),
        parse(s1, a1) is Some,
        (parse(s1, a1)->0).1 - a1 <= s2.len() - a2,
        s1.subrange(a1, (parse(s1, a1)->0).1) == s2.subrange(
            a2,
            a2 + ((parse(s1, a1)->0).1 - a1),
        ),
    ensures
        parse(s2, a2) == match parse(s2, a2 + ((parse(s1, a1)->0).1 - a1)) {
            None => None::<(Seq<Rec>, int)>,
            Some((r2, e2)) => Some(((parse(s1, a1)->0).0 + r2, e2)),
        },
    decreases s1.len() - a1,
{
    let (recs1, e1) = parse(s1, a1)->0;
    let d = e1 - a1;
    let w1 = s1.subrange(a1, e1);
    let w2 = s2.subrange(a2, a2 + d);
    lemma_parse_bounds(s1, a1);
    if s1.len() - a1 < 2 || word_at(s1, a1) == 0 {
        assert(d == 0);
        match parse(s2, a2) {
            None => {},
            Some((r2, e2)) => {
                assert(recs1 + r2 =~= r2);
            },
        }
    } else {
        let n = word_at(s1, a1);
        let z1 = find_zero(s1, a1 + 2, a1 + n);
        let (recs1t, _e1t) = parse(s1, a1 + n)->0;
        lemma_parse_bounds(s1, a1 + n);
        assert(a1 + n <= e1);
        assert(word_at(s2, a2) == n) by {
            assert(w1[0] == s1[a1 + 0] && w2[0] == s2[a2 + 0]);
            assert(w1[1] == s1[a1 + 1] && w2[1] == s2[a2 + 1]);
        }
        assert(s1.subrange(a1 + 2, a1 + n) == s2.subrange(a2 + 2, a2 + n)) by {
            lemma_subrange_of_subrange(s1, a1, e1, 2, n);
            lemma_subrange_of_subrange(s2, a2, a2 + d, 2, n);
        }
        lemma_find_zero_shift(s1, a1 + 2, a1 + n, s2, a2 + 2, a2 + n);
        let z2 = find_zero(s2, a2 + 2, a2 + n);
        assert(z2 - a2 == z1 - a1);
        lemma_find_zero_bounds(s1, a1 + 2, a1 + n);
        assert(s2.subrange(a2 + 2, z2) == s1.subrange(a1 + 2, z1)) by {
            lemma_subrange_of_subrange(s1, a1, e1, 2, z1 - a1);
            lemma_subrange_of_subrange(s2, a2, a2 + d, 2, z1 - a1);
        }
        assert(s2.subrange(z2 + 1, a2 + n) == s1.subrange(z1 + 1, a1 + n)) by {
            lemma_subrange_of_subrange(s1, a1, e1, (z1 - a1) + 1, n);
            lemma_subrange_of_subrange(s2, a2, a2 + d, (z1 - a1) + 1, n);
        }
        let rec = Rec { name: s1.subrange(a1 + 2, z1), content: s1.subrange(z1 + 1, a1 + n) };
        assert(recs1 == seq![rec] + recs1t);
        assert(s1.subrange(a1 + n, e1) == s2.subrange(a2 + n, a2 + d)) by {
            lemma_subrange_of_subrange(s1, a1, e1, n, d);
            lemma_subrange_of_subrange(s2, a2, a2 + d, n, d);
        }
        lemma_parse_shift(s1, a1 + n, s2, a2 + n);
        match parse(s2, a2 + d) {
            None => {},
            Some((r2, e2)) => {
                assert((seq![rec] + recs1t) + r2 =~~= seq![rec] + (recs1t + r2));
            },
        }
    }
}

/// Writing a record at the free slot appends it to the store's records:
/// the new region parses as the old records followed by the new one, and
/// its free slot moves up by the record's total size.
pub proof fn lemma_store_write_parse(s: Seq<u8>, qn: Seq<u8>, content: Seq<u8>)
    requires
        s.len() >= 4,
        parse(s, 4) is Some,
        no_nul(qn),
        write_fits(s, qn.len() as int + 1, content.len() as int),
    ensures
        ({
            let free = store_free(s);
            let total = 3 + qn.len() as int + content.len() as int;
            let s2 = store_write_bytes(s, free, qn.push(0u8), content);
            &&& s2.len() == s.len()
            &&& s2.subrange(0, 4) == s.subrange(0, 4)
            &&& parse(s2, 4) == Some(
                (store_model(s).push(Rec { name: qn, content }), free + total),
            )
        }),
{
    let free = store_free(s);
    let recs = store_model(s);
    let nb = qn.push(0u8);
    let total = 2 + nb.len() as int + content.len() as int;
    let s2 = store_write_bytes(s, free, nb, content);
    lemma_parse_bounds(s, 4);
    assert(s2.len() == s.len());
    assert(s2.subrange(0, 4) =~= s.subrange(0, 4));
    assert(s.subrange(4, free) == s2.subrange(4, free)) by {
        assert(s.subrange(4, free) =~= s2.subrange(4, free));
    }
    lemma_parse_shift(s, 4, s2, 4);
    // the new record parses at the old free slot
    let z = free + 2 + qn.len() as int;
    assert(word_at(s2, free) == total) by {
        assert(s2[free] == (total % 256) as u8);
        assert(s2[free + 1] == ((total / 256) % 256) as u8);
        assert(total % 256 + 256 * (total / 256) == total) by {
            vstd::arithmetic::div_mod::lemma_fundamental_div_mod(total, 256);
        }
        assert(total / 256 < 256);
    }
    assert forall|j: int| free + 2 <= j < z implies s2[j] != 0 by {
        assert(s2[j] == nb[j - (free + 2)]);
        assert(nb[j - (free + 2)] == qn[j - (free + 2)]);
    }
    assert(s2[z] == nb[qn.len() as int]);
    lemma_find_zero_at(s2, free + 2, free + total, z);
    assert(s2.subrange(free + 2, z) == qn) by {
        assert(s2.subrange(free + 2, z) =~= qn);
    }
    assert(s2.subrange(z + 1, free + total) == content) by {
        assert(s2.subrange(z + 1, free + total) =~= content);
    }
    // everything after the new record is zero, so the parse ends there
    if s2.len() - (free + total) >= 2 {
        assert(s2[free + total] == 0);
        assert(s2[free + total + 1] == 0);
        assert(word_at(s2, free + total) == 0);
    }
    assert(parse(s2, free + total) == Some((Seq::<Rec>::empty(), free + total)));
    let rec = Rec { name: qn, content };
    assert(parse(s2, free) == Some((seq![rec] + Seq::<Rec>::empty(), free + total)));
    assert(seq![rec] + Seq::<Rec>::empty() =~~= seq![rec]);
    assert(recs + seq![rec] =~~= recs.push(rec));
}

/// Erasing the record the scan finds shifts every later record down by
/// its size and drops it from the parse: the new region's records are the
/// old ones with the first match removed, and the free slot moves down by
/// the erased record's total size.
pub proof fn lemma_store_erase_parse(s: Seq<u8>, q: Seq<u8>, a: int)
    requires
        4 <= a <= s.len(),
        parse(s, a) is Some,
        find_rec(s, a, q) is Found,
    ensures
        ({
            let (recs_a, free) = parse(s, a)->0;
            let off = found_off(find_rec(s, a, q));
            let n = rec_total(found_rec(find_rec(s, a, q)));
            let s2 = store_erase_bytes(s, off, n, free);
            &&& a <= off && off + n <= free
            &&& s2.len() == s.len()
            &&& s2.subrange(0, a) == s.subrange(0, a)
            &&& parse(s2, a) == Some((remove_first_named(recs_a, q), free - n))
        }),
    decreases s.len() - a,
{
    let (recs_a, free) = parse(s, a)->0;
    let nw = word_at(s, a);
    let z = find_zero(s, a + 2, a + nw);
    let (recs_t, _e) = parse(s, a + nw)->0;
    lemma_parse_bounds(s, a + nw);
    lemma_find_zero_bounds(s, a + 2, a + nw);
    let rec1 = Rec { name: s.subrange(a + 2, z), content: s.subrange(z + 1, a + nw) };
    assert(rec_total(rec1) == nw);
    if s.subrange(a + 2, z) == q {
        // the first record is the one erased
        let off = a;
        let n = nw;
        let s2 = store_erase_bytes(s, off, n, free);
        assert(s2.len() == s.len());
        assert(s2.subrange(0, a) =~= s.subrange(0, a));
        assert(s.subrange(a + n, free) == s2.subrange(a, a + (free - (a + n)))) by {
            assert(s.subrange(a + n, free) =~= s2.subrange(a, a + (free - (a + n))));
        }
        lemma_parse_shift(s, a + n, s2, a);
        assert(s2[free - n] == 0);
        assert(s2[free - n + 1] == 0);
        assert(word_at(s2, free - n) == 0);
        assert(parse(s2, free - n) == Some((Seq::<Rec>::empty(), free - n)));
        assert(parse(s2, a) == Some((recs_t + Seq::<Rec>::empty(), free - n)));
        assert(recs_t + Seq::<Rec>::empty() =~~= recs_t);
        assert(recs_a == seq![rec1] + recs_t);
        assert(recs_a[0] == rec1);
        assert(recs_a.drop_first() =~~= recs_t);
    } else {
        // the first record survives; erase happens further on
        lemma_store_erase_parse(s, q, a + nw);
        let off = found_off(find_rec(s, a + nw, q));
        let rec = found_rec(find_rec(s, a + nw, q));
        let n = rec_total(rec);
        assert((parse(s, a + nw)->0).1 == free);
        let s2 = store_erase_bytes(s, off, n, free);
        assert(a + nw <= off);
        // the surviving first record's bytes are untouched
        assert(s2.len() == s.len());
        assert(s2.subrange(0, a) =~= s.subrange(0, a));
        assert(s.subrange(a, a + nw) == s2.subrange(a, a + nw)) by {
            assert(s.subrange(a, a + nw) =~= s2.subrange(a, a + nw));
        }
        assert(word_at(s2, a) == nw) by {
            assert(s2[a] == s[a]);
            assert(s2[a + 1] == s[a + 1]);
        }
        assert(s.subrange(a + 2, a + nw) == s2.subrange(a + 2, a + nw)) by {
            assert(s.subrange(a + 2, a + nw) =~= s2.subrange(a + 2, a + nw));
        }
        lemma_find_zero_shift(s, a + 2, a + nw, s2, a + 2, a + nw);
        let z2 = find_zero(s2, a + 2, a + nw);
        assert(z2 == z);
        assert(s2.subrange(a + 2, z) == s.subrange(a + 2, z)) by {
            assert(s2.subrange(a + 2, z) =~= s.subrange(a + 2, z));
        }
        assert(s2.subrange(z + 1, a + nw) == s.subrange(z + 1, a + nw)) by {
            assert(s2.subrange(z + 1, a + nw) =~= s.subrange(z + 1, a + nw));
        }
        assert(parse(s2, a) == Some(
            (seq![rec1] + remove_first_named(recs_t, q), free - n),
        ));
        assert(recs_a == seq![rec1] + recs_t);
        assert(recs_a[0] == rec1);
        assert(recs_a.drop_first() =~~= recs_t);
        assert(rec1.name != q);
        assert(remove_first_named(recs_a, q) == seq![rec1] + remove_first_named(recs_t, q));
    }
}

/// The forward scan agrees with the record list: it finds the first
/// record under the name where one exists, and reports a clean absence
/// otherwise.
pub proof fn lemma_find_rec_list(s: Seq<u8>, a: int, q: Seq<u8>)
    requires
        4 <= a <= s.len(),
        parse(s, a) is Some,
    ensures
        ({
            let recs = (parse(s, a)->0).0;
            match list_find(recs, q) {
                None => find_rec(s, a, q) == FindOut::Absent,
                Some(r) => find_rec(s, a, q) is Found && found_rec(find_rec(s, a, q)) == r,
            }
        }),
    decreases s.len() - a,
{
    let recs = (parse(s, a)->0).0;
    if s.len() - a < 2 || word_at(s, a) == 0 {
    } else {
        let n = word_at(s, a);
        let z = find_zero(s, a + 2, a + n);
        let rec1 = Rec { name: s.subrange(a + 2, z), content: s.subrange(z + 1, a + n) };
        let (recs_t, _e) = parse(s, a + n)->0;
        assert(recs == seq![rec1] + recs_t);
        assert(recs[0] == rec1);
        assert(recs.drop_first() =~~= recs_t);
        if s.subrange(a + 2, z) == q {
        } else {
            lemma_find_rec_list(s, a + n, q);
        }
    }
}

/// Appending a record to a list changes the first match only where the
/// list had none: then the new record matches exactly when it bears the
/// name.
pub proof fn lemma_list_find_push(recs: Seq<Rec>, r: Rec, q: Seq<u8>)
    ensures
        list_find(recs.push(r), q) == match list_find(recs, q) {
            Some(x) => Some(x),
            None => if r.name == q {
                Some(r)
            } else {
                None
            },
        },
    decreases recs.len(),
{
    if recs.len() == 0 {
        assert(recs.push(r)[0] == r);
        assert(recs.push(r).drop_first() =~~= Seq::<Rec>::empty());
        assert(list_find(Seq::<Rec>::empty(), q) is None);
    } else {
        assert(recs.push(r)[0] == recs[0]);
        assert(recs.push(r).drop_first() =~~= recs.drop_first().push(r));
        lemma_list_find_push(recs.drop_first(), r, q);
    }
}

/// A list holds a record under a name exactly when its count under that
/// name is positive.
pub proof fn lemma_list_find_count(recs: Seq<Rec>, q: Seq<u8>)
    ensures
        (list_find(recs, q) is Some) <==> list_count(recs, q) >= 1,
    decreases recs.len(),
{
    if recs.len() > 0 {
        lemma_list_find_count(recs.drop_first(), q);
    }
}

/// Scanning a null-terminated name buffer up to its first zero byte
/// recovers exactly the query name of the raw bytes.
pub proof fn lemma_query_name_cstr(qb: Seq<u8>)
    ensures
        ({
            let cs = qb.push(0u8);
            let k = find_zero(cs, 0, cs.len() as int);
            &&& 0 <= k <= qb.len()
            &&& cs.subrange(0, k) == query_name(qb)
        }),
{
    let cs = qb.push(0u8);
    let k = find_zero(cs, 0, cs.len() as int);
    lemma_find_zero_bounds(cs, 0, cs.len() as int);
    assert(cs[qb.len() as int] == 0);
    assert(k <= qb.len());
    assert forall|j: int| 0 <= j < k implies qb[j] != 0 by {
        assert(cs[j] != 0);
        assert(cs[j] == qb[j]);
    }
    if k < qb.len() {
        assert(qb[k] == cs[k]);
    }
    lemma_find_zero_at(qb, 0, qb.len() as int, k);
    assert(cs.subrange(0, k) =~= qb.subrange(0, k));
}

/// Where the scan finds a record, the record's bytes lie at the found
/// offset exactly as the parse of one record reads them.
pub proof fn lemma_find_rec_found_bytes(s: Seq<u8>, a: int, q: Seq<u8>)
    requires
        4 <= a <= s.len(),
        find_rec(s, a, q) is Found,
    ensures
        ({
            let off = found_off(find_rec(s, a, q));
            let rec = found_rec(find_rec(s, a, q));
            let n = rec_total(rec);
            let z = off + 2 + rec.name.len() as int;
            &&& a <= off
            &&& off + 2 <= s.len()
            &&& word_at(s, off) == n
            &&& 3 <= n && off + n <= s.len()
            &&& find_zero(s, off + 2, off + n) == z
            &&& rec.name == s.subrange(off + 2, z)
            &&& rec.content == s.subrange(z + 1, off + n)
            &&& rec.name == q
        }),
    decreases s.len() - a,
{
    if s.len() - a < 2 || word_at(s, a) == 0 {
    } else {
        let n = word_at(s, a);
        if n < 3 || a + n > s.len() {
        } else {
            let z = find_zero(s, a + 2, a + n);
            lemma_find_zero_bounds(s, a + 2, a + n);
            if z == a + n {
            } else if s.subrange(a + 2, z) == q {
            } else {
                lemma_find_rec_found_bytes(s, a + n, q);
            }
        }
    }
}

/// Removing the only record under a name leaves none behind.
pub proof fn lemma_remove_first_count(recs: Seq<Rec>, q: Seq<u8>)
    requires
        list_count(recs, q) == 1,
    ensures
        list_find(remove_first_named(recs, q), q) is None,
    decreases recs.len(),
{
    if recs.len() == 0 {
    } else if recs[0].name == q {
        lemma_list_find_count(recs.drop_first(), q);
    } else {
        lemma_remove_first_count(recs.drop_first(), q);
        let rest = remove_first_named(recs.drop_first(), q);
        let whole = seq![recs[0]] + rest;
        assert(whole[0] == recs[0]);
        assert(whole.drop_first() =~~= rest);
    }
}

} // verus!
