//! Store-wide laws: how the operations compose, proved over the
//! byte-level model of [`crate::layout`].
//!
//! Each law is stated against the same spec expressions the operations'
//! contracts use, so it speaks about exactly what the executable code is
//! proved to do.

use vstd::prelude::*;

use crate::layout::{
    find_rec, found_off, found_rec, list_count, list_find, magic_word, no_nul, parse, query_name,
    rec_total, remove_first_named, store_erase_bytes, store_free, store_model, store_write_bytes,
    valid_magic, wf_store, write_fits, FindOut, Rec, lemma_find_rec_list, lemma_list_find_count,
    lemma_list_find_push, lemma_remove_first_count, lemma_store_erase_parse,
    lemma_store_write_parse, STORAGE_MAGIC,
};

verus! {

/// Round trip: writing a record under a name the store does not yet hold
/// and then scanning for that name finds exactly the written content.
pub proof fn lemma_write_then_find(s: Seq<u8>, qn: Seq<u8>, content: Seq<u8>)
    requires
        wf_store(s),
        no_nul(qn),
        list_find(store_model(s), qn) is None,
        write_fits(s, qn.len() as int + 1, content.len() as int),
    ensures
        ({
            let s2 = store_write_bytes(s, store_free(s), qn.push(0u8), content);
            &&& wf_store(s2)
            &&& s2.len() == s.len()
            &&& find_rec(s2, 4, qn) is Found
            &&& found_rec(find_rec(s2, 4, qn)) == (Rec { name: qn, content })
            &&& store_model(s2) == store_model(s).push(Rec { name: qn, content })
            &&& store_free(s2) == store_free(s) + 3 + qn.len() + content.len()
        }),
{
    lemma_store_write_parse(s, qn, content);
    let s2 = store_write_bytes(s, store_free(s), qn.push(0u8), content);
    assert(valid_magic(s2));
    lemma_list_find_push(store_model(s), Rec { name: qn, content }, qn);
    lemma_find_rec_list(s2, 4, qn);
}

/// First-match semantics for duplicates: writing the same fresh name
/// twice with different contents and then scanning yields the first
/// write's content, not the second's.
pub proof fn lemma_duplicate_first_match(s: Seq<u8>, qn: Seq<u8>, c1: Seq<u8>, c2: Seq<u8>)
    requires
        wf_store(s),
        no_nul(qn),
        list_find(store_model(s), qn) is None,
        (3 + qn.len() + c1.len()) + (3 + qn.len() + c2.len()) <= s.len() - store_free(s),
        3 + qn.len() + c1.len() <= 0xFFFF,
        3 + qn.len() + c2.len() <= 0xFFFF,
    ensures
        ({
            let s1 = store_write_bytes(s, store_free(s), qn.push(0u8), c1);
            let s2 = store_write_bytes(s1, store_free(s1), qn.push(0u8), c2);
            &&& wf_store(s2)
            &&& find_rec(s2, 4, qn) is Found
            &&& found_rec(find_rec(s2, 4, qn)).content == c1
        }),
{
    let r1 = Rec { name: qn, content: c1 };
    let r2 = Rec { name: qn, content: c2 };
    lemma_write_then_find(s, qn, c1);
    let s1 = store_write_bytes(s, store_free(s), qn.push(0u8), c1);
    lemma_store_write_parse(s1, qn, c2);
    let s2 = store_write_bytes(s1, store_free(s1), qn.push(0u8), c2);
    assert(valid_magic(s2));
    lemma_list_find_push(store_model(s), r1, qn);
    lemma_list_find_push(store_model(s1), r2, qn);
    lemma_find_rec_list(s2, 4, qn);
}

/// Erasing a name the store holds exactly once removes its reachability:
/// afterwards the scan reports it absent, so lookups fail and existence
/// checks return false.
pub proof fn lemma_erase_removes(s: Seq<u8>, q: Seq<u8>)
    requires
        wf_store(s),
        list_count(store_model(s), q) == 1,
    ensures
        ({
            let f = find_rec(s, 4, q);
            let s2 = store_erase_bytes(s, found_off(f), rec_total(found_rec(f)), store_free(s));
            &&& f is Found
            &&& wf_store(s2)
            &&& s2.len() == s.len()
            &&& find_rec(s2, 4, q) == FindOut::Absent
            &&& store_model(s2) == remove_first_named(store_model(s), q)
            &&& store_free(s2) == store_free(s) - rec_total(found_rec(f))
        }),
{
    lemma_list_find_count(store_model(s), q);
    lemma_find_rec_list(s, 4, q);
    lemma_store_erase_parse(s, q, 4);
    let f = find_rec(s, 4, q);
    let s2 = store_erase_bytes(s, found_off(f), rec_total(found_rec(f)), store_free(s));
    assert(valid_magic(s2));
    lemma_remove_first_count(store_model(s), q);
    lemma_find_rec_list(s2, 4, q);
}

/// Compaction preserves the order and content of survivors: with records
/// A, B, C stored in that order, erasing B leaves exactly A then C, and
/// the used area shrinks by B's total size, so the next write lands that
/// much lower.
pub proof fn lemma_compaction_preserves_survivors(s: Seq<u8>, a: Rec, b: Rec, c: Rec)
    requires
        wf_store(s),
        store_model(s) == seq![a, b, c],
        a.name != b.name,
        c.name != b.name,
    ensures
        ({
            let f = find_rec(s, 4, b.name);
            let s2 = store_erase_bytes(s, found_off(f), rec_total(found_rec(f)), store_free(s));
            &&& f is Found && found_rec(f) == b
            &&& wf_store(s2)
            &&& store_model(s2) == seq![a, c]
            &&& store_free(s2) == store_free(s) - rec_total(b)
        }),
{
    let recs = store_model(s);
    assert(recs[0] == a && recs.drop_first() =~~= seq![b, c]);
    assert(seq![b, c][0] == b && seq![b, c].drop_first() =~~= seq![c]);
    assert(list_find(seq![b, c], b.name) == Some(b));
    assert(list_find(recs, b.name) == list_find(seq![b, c], b.name));
    lemma_find_rec_list(s, 4, b.name);
    lemma_store_erase_parse(s, b.name, 4);
    let f = find_rec(s, 4, b.name);
    let s2 = store_erase_bytes(s, found_off(f), rec_total(found_rec(f)), store_free(s));
    assert(valid_magic(s2));
    assert(remove_first_named(recs, b.name) == seq![a] + remove_first_named(seq![b, c], b.name));
    assert(remove_first_named(seq![b, c], b.name) =~~= seq![c]);
    assert(seq![a] + seq![c] =~~= seq![a, c]);
}

/// Capacity boundary: a record whose total size exactly equals the
/// remaining free bytes fits; one byte more does not.
pub proof fn lemma_capacity_boundary(s: Seq<u8>, nb_len: int, content_len: int)
    requires
        wf_store(s),
        0 <= nb_len,
        0 <= content_len,
        2 + nb_len + content_len <= 0xFFFF,
    ensures
        2 + nb_len + content_len == s.len() - store_free(s) ==> write_fits(s, nb_len, content_len),
        2 + nb_len + content_len > s.len() - store_free(s) ==> !write_fits(
            s,
            nb_len,
            content_len,
        ),
{
}

/// Corruption detection: a header that differs in any byte from the magic
/// constant's little-endian form fails validation, so every operation
/// reports the mismatch instead of scanning the records.
pub proof fn lemma_corrupt_header_detected(s: Seq<u8>)
    requires
        s.len() >= 4,
        s.subrange(0, 4) != vstd::bytes::spec_u32_to_le_bytes(STORAGE_MAGIC),
    ensures
        !valid_magic(s),
        magic_word(s) != STORAGE_MAGIC,
{
    vstd::bytes::lemma_auto_spec_u32_to_from_le_bytes();
}

} // verus!
