//! The record store: named byte blobs packed in a fixed-size region.
//!
//! A [`Storage`] owns the region's bytes.  Every operation validates the
//! magic header first, then walks the records from offset 4; writing
//! appends at the first free slot and zeroes the rest, erasing shifts the
//! following records down over the gap and zeroes the vacated tail.  The
//! contracts state each outcome over the byte-level model in [`crate::layout`].

use vstd::prelude::*;
use vstd::slice::{slice_index_get, slice_subrange, slice_to_vec};
use vstd::string::StringSliceAdditionalSpecFns;
use vstd::utf8::{decode_utf8, valid_utf8};

use crate::hvec::{
    hvec_as_slice, hvec_extend_from_slice, hvec_new, hvec_push, hvec_bytes, NAME_BUFFER_CAPACITY,
};
use crate::layout::{
    find_rec, find_zero, magic_word, parse, query_name, rec_total,
    store_erase_bytes, store_free, store_write_bytes, valid_magic, word_at, FindOut,
    lemma_find_rec_found_bytes, lemma_find_zero_bounds, lemma_parse_bounds, lemma_query_name_cstr,
    lemma_store_erase_parse, STORAGE_MAGIC,
};

verus! {

/// What a store operation can fail with.
#[derive(Debug, Clone, Copy, PartialEq, Eq, Structural)]
pub enum StorageError {
    /// The region's record data is malformed past the magic header.
    InvalidStorage,
    /// No record under the requested name.
    FileNotFound,
    /// No room left for any further record.
    InsufficientSpace,
    /// A name or text payload that cannot be encoded, or stored text
    /// without its terminator or with invalid UTF-8.
    InvalidInput,
    /// The magic header does not match: the region is not a store.
    InvalidMagicNumber { expected: u32, found: u32 },
    /// No free slot could be located.
    StorageFull,
    /// The record would run past the region's end, or past what the
    /// 2-byte size field can carry.
    StorageOverflow { available: usize, needed: usize },
}

/// Converts a name or text payload into its stored form: the UTF-8 bytes
/// with a null terminator appended.  Fails with
/// [`StorageError::InvalidInput`] when the terminated form does not fit
/// the bounded working buffer.
pub fn to_cstring(s: &str) -> (r: Result<heapless::Vec<u8, 256>, StorageError>)
    ensures
        r is Ok <==> s.spec_bytes().len() < NAME_BUFFER_CAPACITY,
        r is Ok ==> hvec_bytes(r->Ok_0) == s.spec_bytes().push(0u8),
        r is Err ==> r->Err_0 == StorageError::InvalidInput,
{
    let mut cstr = hvec_new();
    match hvec_extend_from_slice(&mut cstr, s.as_bytes()) {
        Ok(_) => {},
        Err(_) => {
            return Err(StorageError::InvalidInput);
        },
    }
    match hvec_push(&mut cstr, 0) {
        Ok(_) => {},
        Err(_) => {
            return Err(StorageError::InvalidInput);
        },
    }
    Ok(cstr)
}

/// A record store over an owned region of bytes.
pub struct Storage {
    region: Vec<u8>,
}

impl View for Storage {
    type V = Seq<u8>;

    closed spec fn view(&self) -> Seq<u8> {
        self.region@
    }
}

impl Storage {
    /// The region always has room for its 4-byte magic header.
    #[verifier::type_invariant]
    spec fn region_holds_header(self) -> bool {
        self.region@.len() >= 4
    }

    /// Takes ownership of a region's bytes.  The region must at least
    /// hold the 4-byte magic header; nothing else is assumed of it.
    pub fn new(region: Vec<u8>) -> (r: Storage)
        requires
            region@.len() >= 4,
        ensures
            r@ == region@,
    {
        Storage { region }
    }

    /// The region's bytes, exactly as stored.
    pub fn bytes(&self) -> (r: &Vec<u8>)
        ensures
            r@ == self@,
    {
        &self.region
    }

    /// The region's total size in bytes.
    pub fn size(&self) -> (r: usize)
        ensures
            r == self@.len(),
    {
        self.region.len()
    }

    /// Checks the magic header, reporting the expected and found words on
    /// a mismatch.
    pub fn is_valid(&self) -> (r: Result<(), StorageError>)
        ensures
            r is Ok <==> valid_magic(self@),
            r is Err ==> r->Err_0 == (StorageError::InvalidMagicNumber {
                expected: STORAGE_MAGIC,
                found: magic_word(self@),
            }),
    {
        proof {
            use_type_invariant(self);
        }
        let head = slice_subrange(self.region.as_slice(), 0, 4);
        let found = vstd::bytes::u32_from_le_bytes(head);
        if found == STORAGE_MAGIC {
            Ok(())
        } else {
            Err(StorageError::InvalidMagicNumber { expected: STORAGE_MAGIC, found })
        }
    }

    /// Reads the 2-byte little-endian word at `off`.
    fn read_word(&self, off: usize) -> (r: u16)
        requires
            off + 2 <= self@.len(),
        ensures
            r as int == word_at(self@, off as int),
    {
        proof {
            vstd::std_specs::vec::axiom_spec_len(&self.region);
        }
        let b0 = self.region[off];
        let b1 = self.region[off + 1];
        b0 as u16 + (b1 as u16) * 256
    }

    /// Writes `w` at `off` as a 2-byte little-endian word.
    fn set_word(&mut self, off: usize, w: u16)
        requires
            off + 2 <= old(self)@.len(),
        ensures
            final(self)@.len() == old(self)@.len(),
            final(self)@[off as int] == (w as int % 256) as u8,
            final(self)@[off as int + 1] == (w as int / 256) as u8,
            forall|j: int|
                0 <= j < old(self)@.len() && j != off as int && j != off as int + 1
                    ==> final(self)@[j] == old(self)@[j],
    {
        proof {
            use_type_invariant(&*self);
            vstd::std_specs::vec::axiom_spec_len(&self.region);
        }
        self.region[off] = (w % 256) as u8;
        self.region[off + 1] = (w / 256) as u8;
    }

    /// Position of the first zero byte at an index in `[lo, hi)`, or `hi`
    /// if every byte there is nonzero.
    fn find_zero_from(&self, lo: usize, hi: usize) -> (r: usize)
        requires
            lo <= hi <= self@.len(),
        ensures
            r as int == find_zero(self@, lo as int, hi as int),
    {
        let mut i = lo;
        while i < hi
            invariant
                lo <= i <= hi <= self@.len(),
                find_zero(self@, lo as int, hi as int) == find_zero(self@, i as int, hi as int),
            decreases hi - i,
        {
            if self.region[i] == 0 {
                return i;
            }
            i = i + 1;
        }
        hi
    }

    /// Whether the bytes at `[lo, lo + q.len())` equal `q`.
    fn range_matches(&self, lo: usize, q: &[u8]) -> (r: bool)
        requires
            lo + q@.len() <= self@.len(),
        ensures
            r == (self@.subrange(lo as int, lo as int + q@.len() as int) == q@),
    {
        proof {
            vstd::std_specs::vec::axiom_spec_len(&self.region);
        }
        let ghost w = self@.subrange(lo as int, lo as int + q@.len() as int);
        let mut k: usize = 0;
        while k < q.len()
            invariant
                0 <= k <= q@.len(),
                lo + q@.len() <= self@.len(),
                w == self@.subrange(lo as int, lo as int + q@.len() as int),
                forall|j: int| 0 <= j < k ==> w[j] == q@[j],
            decreases q@.len() - k,
        {
            proof {
                vstd::std_specs::vec::axiom_spec_len(&self.region);
            }
            if self.region[lo + k] != q[k] {
                proof {
                    assert(w[k as int] == self@[lo + k]);
                }
                return false;
            }
            k = k + 1;
        }
        proof {
            assert(w =~= q@);
        }
        true
    }

    /// A copy of the bytes at `[lo, hi)`.
    fn copy_range(&self, lo: usize, hi: usize) -> (r: Vec<u8>)
        requires
            lo <= hi <= self@.len(),
        ensures
            r@ == self@.subrange(lo as int, hi as int),
    {
        slice_to_vec(slice_subrange(self.region.as_slice(), lo, hi))
    }

    /// Offset of the first free slot: where the record walk meets a zero
    /// size field or runs out of room for one.  `None` where the magic
    /// header is wrong or a record is malformed.
    fn next_free_slot(&self) -> (r: Option<usize>)
        ensures
            match r {
                None => !valid_magic(self@) || parse(self@, 4) is None,
                Some(f) => valid_magic(self@) && parse(self@, 4) is Some && f as int
                    == store_free(self@),
            },
    {
        proof {
            use_type_invariant(self);
        }
        match self.is_valid() {
            Err(_) => {
                return None;
            },
            Ok(_) => {},
        }
        let len = self.region.len();
        let mut off: usize = 4;
        while len - off >= 2
            invariant
                4 <= off <= len,
                len == self@.len(),
                valid_magic(self@),
                parse(self@, 4) is Some <==> parse(self@, off as int) is Some,
                parse(self@, 4) is Some ==> store_free(self@) == (parse(self@, off as int)->0).1,
            decreases len - off,
        {
            let n = self.read_word(off);
            if n == 0 {
                return Some(off);
            }
            let nu = n as usize;
            if nu < 3 || nu > len - off {
                return None;
            }
            let z = self.find_zero_from(off + 2, off + nu);
            if z == off + nu {
                return None;
            }
            off = off + nu;
        }
        Some(off)
    }

    /// Scans forward for the first record whose stored name equals `qn`,
    /// returning its offset and total size.
    fn find_offset(&self, qn: &[u8]) -> (r: Result<(usize, usize), StorageError>)
        ensures
            match find_rec(self@, 4, qn@) {
                FindOut::Found(off, rec) => r is Ok && (r->Ok_0).0 == off && (r->Ok_0).1
                    == rec_total(rec),
                FindOut::Absent => r == Err::<(usize, usize), StorageError>(
                    StorageError::FileNotFound,
                ),
                FindOut::Corrupt => r == Err::<(usize, usize), StorageError>(
                    StorageError::InvalidStorage,
                ),
            },
    {
        proof {
            use_type_invariant(self);
        }
        let len = self.region.len();
        let mut off: usize = 4;
        while len - off >= 2
            invariant
                4 <= off <= len,
                len == self@.len(),
                find_rec(self@, 4, qn@) == find_rec(self@, off as int, qn@),
            decreases len - off,
        {
            let n = self.read_word(off);
            if n == 0 {
                return Err(StorageError::FileNotFound);
            }
            let nu = n as usize;
            if nu < 3 || nu > len - off {
                return Err(StorageError::InvalidStorage);
            }
            let z = self.find_zero_from(off + 2, off + nu);
            proof {
                lemma_find_zero_bounds(self@, off as int + 2, off as int + nu as int);
            }
            if z == off + nu {
                return Err(StorageError::InvalidStorage);
            }
            if z - (off + 2) == qn.len() && self.range_matches(off + 2, qn) {
                return Ok((off, nu));
            }
            proof {
                if z - (off + 2) != qn@.len() {
                    assert(self@.subrange(off as int + 2, z as int).len() != qn@.len());
                }
            }
            off = off + nu;
        }
        Err(StorageError::FileNotFound)
    }
    /// Looks up a record by name and returns a copy of its content bytes.
    /// The name is compared as a null-terminated byte string against each
    /// stored record in storage order; the first match wins.
    pub fn file_read_raw(&self, filename: &str) -> (r: Result<Vec<u8>, StorageError>)
        ensures
            ({
                let qb = filename.spec_bytes();
                &&& qb.len() >= NAME_BUFFER_CAPACITY ==> r == Err::<Vec<u8>, StorageError>(
                    StorageError::InvalidInput,
                )
                &&& qb.len() < NAME_BUFFER_CAPACITY && !valid_magic(self@) ==> r == Err::<
                    Vec<u8>,
                    StorageError,
                >(StorageError::InvalidMagicNumber {
                    expected: STORAGE_MAGIC,
                    found: magic_word(self@),
                })
                &&& qb.len() < NAME_BUFFER_CAPACITY && valid_magic(self@) ==> match find_rec(
                    self@,
                    4,
                    query_name(qb),
                ) {
                    FindOut::Found(_, rec) => r is Ok && r->Ok_0@ == rec.content,
                    FindOut::Absent => r == Err::<Vec<u8>, StorageError>(
                        StorageError::FileNotFound,
                    ),
                    FindOut::Corrupt => r == Err::<Vec<u8>, StorageError>(
                        StorageError::InvalidStorage,
                    ),
                }
            }),
    {
        let cstr = match to_cstring(filename) {
            Ok(c) => c,
            Err(e) => {
                return Err(e);
            },
        };
        match self.is_valid() {
            Err(e) => {
                return Err(e);
            },
            Ok(_) => {},
        }
        let cs = hvec_as_slice(&cstr);
        let k = slice_find_zero(cs);
        proof {
            lemma_query_name_cstr(filename.spec_bytes());
        }
        let qn = slice_subrange(cs, 0, k);
        match self.find_offset(qn) {
            Err(e) => Err(e),
            Ok((off, n)) => {
                proof {
                    use_type_invariant(self);
                    vstd::std_specs::vec::axiom_spec_len(&self.region);
                    lemma_find_rec_found_bytes(self@, 4, qn@);
                }
                let z = self.find_zero_from(off + 2, off + n);
                Ok(self.copy_range(z + 1, off + n))
            },
        }
    }

    /// Writes a record at the first free slot: the 2-byte total size,
    /// the null-terminated name, then the raw content bytes, and zeroes
    /// everything from the record's end to the region's end.  Content is
    /// raw bytes; for text use [`Storage::file_write_string`].  Fails
    /// without touching the region where the name cannot be encoded, the
    /// magic header is wrong, no free slot can be located, or the record
    /// would not fit.
    pub fn file_write_raw(&mut self, filename: &str, content: &[u8]) -> (r: Result<
        (),
        StorageError,
    >)
        requires
            content@.len() <= usize::MAX - 259,
        ensures
            r is Err ==> final(self)@ == old(self)@,
            ({
                let qb = filename.spec_bytes();
                let nb = qb.push(0u8);
                let total = 2 + nb.len() as int + content@.len() as int;
                &&& qb.len() >= NAME_BUFFER_CAPACITY ==> r == Err::<(), StorageError>(
                    StorageError::InvalidInput,
                )
                &&& qb.len() < NAME_BUFFER_CAPACITY && !valid_magic(old(self)@) ==> r == Err::<
                    (),
                    StorageError,
                >(StorageError::InvalidMagicNumber {
                    expected: STORAGE_MAGIC,
                    found: magic_word(old(self)@),
                })
                &&& qb.len() < NAME_BUFFER_CAPACITY && valid_magic(old(self)@) && parse(
                    old(self)@,
                    4,
                ) is None ==> r == Err::<(), StorageError>(StorageError::StorageFull)
                &&& qb.len() < NAME_BUFFER_CAPACITY && valid_magic(old(self)@) && parse(
                    old(self)@,
                    4,
                ) is Some ==> ({
                    let free = store_free(old(self)@);
                    let avail = old(self)@.len() - free;
                    if total <= avail && total <= 0xFFFF {
                        r is Ok && final(self)@ == store_write_bytes(
                            old(self)@,
                            free,
                            nb,
                            content@,
                        )
                    } else {
                        r == Err::<(), StorageError>(StorageError::StorageOverflow {
                            available: avail as usize,
                            needed: total as usize,
                        })
                    }
                })
            }),
    {
        let cstr = match to_cstring(filename) {
            Ok(c) => c,
            Err(e) => {
                return Err(e);
            },
        };
        match self.is_valid() {
            Err(e) => {
                return Err(e);
            },
            Ok(_) => {},
        }
        let free = match self.next_free_slot() {
            None => {
                return Err(StorageError::StorageFull);
            },
            Some(f) => f,
        };
        proof {
            use_type_invariant(&*self);
            vstd::std_specs::vec::axiom_spec_len(&self.region);
            lemma_parse_bounds(self@, 4);
        }
        let len = self.region.len();
        let avail = len - free;
        let cs = hvec_as_slice(&cstr);
        let nl = cs.len();
        let total = 2 + nl + content.len();
        if total > avail || total > 0xFFFF {
            return Err(StorageError::StorageOverflow { available: avail, needed: total });
        }
        let ghost s0 = self@;
        let ghost nb = filename.spec_bytes().push(0u8);
        self.set_word(free, total as u16);
        let mut i: usize = 0;
        while i < nl
            invariant
                0 <= i <= nl,
                nl == cs@.len(),
                free + total <= len <= usize::MAX,
                total == 2 + nl + content@.len(),
                4 <= free,
                len == self@.len(),
                self@[free as int] == ((total as int) % 256) as u8,
                self@[free as int + 1] == ((total as int) / 256) as u8,
                forall|j: int|
                    0 <= j < len && !(free <= j < free + 2 + i) ==> self@[j] == s0[j],
                forall|j: int| 0 <= j < i ==> self@[free + 2 + j] == cs@[j],
            decreases nl - i,
        {
            self.region[free + 2 + i] = cs[i];
            i = i + 1;
        }
        let mut c: usize = 0;
        while c < content.len()
            invariant
                0 <= c <= content@.len(),
                nl == cs@.len(),
                free + total <= len <= usize::MAX,
                total == 2 + nl + content@.len(),
                4 <= free,
                len == self@.len(),
                self@[free as int] == ((total as int) % 256) as u8,
                self@[free as int + 1] == ((total as int) / 256) as u8,
                forall|j: int|
                    0 <= j < len && !(free <= j < free + 2 + nl + c) ==> self@[j] == s0[j],
                forall|j: int| 0 <= j < nl ==> self@[free + 2 + j] == cs@[j],
                forall|j: int| 0 <= j < c ==> self@[free + 2 + nl + j] == content@[j],
            decreases content@.len() - c,
        {
            self.region[free + 2 + nl + c] = content[c];
            c = c + 1;
        }
        let mut p: usize = free + total;
        while p < len
            invariant
                free + total <= p <= len,
                nl == cs@.len(),
                free + total <= len <= usize::MAX,
                total == 2 + nl + content@.len(),
                4 <= free,
                len == self@.len(),
                self@[free as int] == ((total as int) % 256) as u8,
                self@[free as int + 1] == ((total as int) / 256) as u8,
                forall|j: int| 0 <= j < free ==> self@[j] == s0[j],
                forall|j: int| 0 <= j < nl ==> self@[free + 2 + j] == cs@[j],
                forall|j: int| 0 <= j < content@.len() ==> self@[free + 2 + nl + j] == content@[j],
                forall|j: int| free + total <= j < p ==> self@[j] == 0,
            decreases len - p,
        {
            self.region[p] = 0;
            p = p + 1;
        }
        proof {
            let sw = store_write_bytes(s0, free as int, nb, content@);
            assert(cs@ == nb);
            assert forall|k: int| 0 <= k < len implies self@[k] == sw[k] by {
                vstd::arithmetic::div_mod::lemma_fundamental_div_mod(total as int, 256);
                if k < free {
                } else if k < free + 2 {
                } else if k < free + 2 + nl {
                    assert(self@[free + 2 + (k - free - 2)] == cs@[k - free - 2]);
                } else if k < free + total {
                    assert(self@[free + 2 + nl + (k - free - 2 - nl)] == content@[k - free - 2
                        - nl]);
                } else {
                }
            }
            assert(self@ =~= sw);
        }
        Ok(())
    }

    /// Erases the first record under the name and compacts the store:
    /// every later record shifts down over the gap and the vacated tail
    /// is zeroed, so the used area stays contiguous.
    pub fn file_erase(&mut self, filename: &str) -> (r: Result<(), StorageError>)
        ensures
            r is Err ==> final(self)@ == old(self)@,
            ({
                let qb = filename.spec_bytes();
                &&& qb.len() >= NAME_BUFFER_CAPACITY ==> r == Err::<(), StorageError>(
                    StorageError::InvalidInput,
                )
                &&& qb.len() < NAME_BUFFER_CAPACITY && !valid_magic(old(self)@) ==> r == Err::<
                    (),
                    StorageError,
                >(StorageError::InvalidMagicNumber {
                    expected: STORAGE_MAGIC,
                    found: magic_word(old(self)@),
                })
                &&& qb.len() < NAME_BUFFER_CAPACITY && valid_magic(old(self)@) ==> match find_rec(
                    old(self)@,
                    4,
                    query_name(qb),
                ) {
                    FindOut::Corrupt => r == Err::<(), StorageError>(StorageError::InvalidStorage),
                    FindOut::Absent => r == Err::<(), StorageError>(StorageError::FileNotFound),
                    FindOut::Found(off, rec) => {
                        if parse(old(self)@, 4) is Some {
                            r is Ok && final(self)@ == store_erase_bytes(
                                old(self)@,
                                off,
                                rec_total(rec),
                                store_free(old(self)@),
                            )
                        } else {
                            r == Err::<(), StorageError>(StorageError::InvalidStorage)
                        }
                    },
                }
            }),
    {
        let cstr = match to_cstring(filename) {
            Ok(c) => c,
            Err(e) => {
                return Err(e);
            },
        };
        match self.is_valid() {
            Err(e) => {
                return Err(e);
            },
            Ok(_) => {},
        }
        let cs = hvec_as_slice(&cstr);
        let k = slice_find_zero(cs);
        proof {
            lemma_query_name_cstr(filename.spec_bytes());
        }
        let qn = slice_subrange(cs, 0, k);
        let (off, n) = match self.find_offset(qn) {
            Err(e) => {
                return Err(e);
            },
            Ok(p) => p,
        };
        let free = match self.next_free_slot() {
            None => {
                return Err(StorageError::InvalidStorage);
            },
            Some(f) => f,
        };
        proof {
            use_type_invariant(&*self);
            vstd::std_specs::vec::axiom_spec_len(&self.region);
            lemma_store_erase_parse(self@, qn@, 4);
            lemma_parse_bounds(self@, 4);
        }
        let len = self.region.len();
        let ghost s0 = self@;
        let mut i: usize = off;
        while i < free - n
            invariant
                off <= i <= free - n,
                off + n <= free <= len,
                4 <= off,
                len == self@.len(),
                len <= usize::MAX,
                forall|j: int| 0 <= j < off ==> self@[j] == s0[j],
                forall|j: int| off <= j < i ==> self@[j] == s0[j + n],
                forall|j: int| i <= j < len ==> self@[j] == s0[j],
            decreases free - n - i,
        {
            let b = self.region[i + n];
            self.region[i] = b;
            i = i + 1;
        }
        let mut p: usize = free - n;
        while p < free
            invariant
                free - n <= p <= free <= len,
                off + n <= free,
                4 <= off,
                len == self@.len(),
                forall|j: int| 0 <= j < off ==> self@[j] == s0[j],
                forall|j: int| off <= j < free - n ==> self@[j] == s0[j + n],
                forall|j: int| free - n <= j < p ==> self@[j] == 0,
                forall|j: int| free <= j < len ==> self@[j] == s0[j],
            decreases free - p,
        {
            self.region[p] = 0;
            p = p + 1;
        }
        proof {
            let se = store_erase_bytes(s0, off as int, n as int, free as int);
            assert forall|j: int| 0 <= j < len implies self@[j] == se[j] by {}
            assert(self@ =~= se);
        }
        Ok(())
    }

    /// Whether a record under the name is reachable: true exactly when a
    /// lookup would succeed.
    pub fn file_exists(&self, filename: &str) -> (r: bool)
        ensures
            r == ({
                let qb = filename.spec_bytes();
                &&& qb.len() < NAME_BUFFER_CAPACITY
                &&& valid_magic(self@)
                &&& find_rec(self@, 4, query_name(qb)) is Found
            }),
    {
        match self.file_read_raw(filename) {
            Ok(_) => true,
            Err(_) => false,
        }
    }

    /// Writes a text payload: the UTF-8 bytes with a null terminator are
    /// stored as the record's content, so that reading it back as text
    /// can check the terminator.
    pub fn file_write_string(&mut self, filename: &str, content: &str) -> (r: Result<
        (),
        StorageError,
    >)
        ensures
            r is Err ==> final(self)@ == old(self)@,
            ({
                let qb = filename.spec_bytes();
                let cb = content.spec_bytes();
                let nb = qb.push(0u8);
                let payload = cb.push(0u8);
                let total = 2 + nb.len() as int + payload.len() as int;
                &&& cb.len() >= NAME_BUFFER_CAPACITY ==> r == Err::<(), StorageError>(
                    StorageError::InvalidInput,
                )
                &&& cb.len() < NAME_BUFFER_CAPACITY && qb.len() >= NAME_BUFFER_CAPACITY ==> r
                    == Err::<(), StorageError>(StorageError::InvalidInput)
                &&& cb.len() < NAME_BUFFER_CAPACITY && qb.len() < NAME_BUFFER_CAPACITY
                    && !valid_magic(old(self)@) ==> r == Err::<(), StorageError>(
                    StorageError::InvalidMagicNumber {
                        expected: STORAGE_MAGIC,
                        found: magic_word(old(self)@),
                    },
                )
                &&& cb.len() < NAME_BUFFER_CAPACITY && qb.len() < NAME_BUFFER_CAPACITY
                    && valid_magic(old(self)@) && parse(old(self)@, 4) is None ==> r == Err::<
                    (),
                    StorageError,
                >(StorageError::StorageFull)
                &&& cb.len() < NAME_BUFFER_CAPACITY && qb.len() < NAME_BUFFER_CAPACITY
                    && valid_magic(old(self)@) && parse(old(self)@, 4) is Some ==> ({
                    let free = store_free(old(self)@);
                    let avail = old(self)@.len() - free;
                    if total <= avail && total <= 0xFFFF {
                        r is Ok && final(self)@ == store_write_bytes(
                            old(self)@,
                            free,
                            nb,
                            payload,
                        )
                    } else {
                        r == Err::<(), StorageError>(StorageError::StorageOverflow {
                            available: avail as usize,
                            needed: total as usize,
                        })
                    }
                })
            }),
    {
        let content_cstr = match to_cstring(content) {
            Ok(c) => c,
            Err(e) => {
                return Err(e);
            },
        };
        let payload = hvec_as_slice(&content_cstr);
        self.file_write_raw(filename, payload)
    }

    /// Reads a record as text: the stored content must end in a null
    /// terminator, and the bytes before it must be valid UTF-8.
    pub fn file_read_string(&self, filename: &str) -> (r: Result<String, StorageError>)
        ensures
            ({
                let qb = filename.spec_bytes();
                &&& qb.len() >= NAME_BUFFER_CAPACITY ==> r == Err::<String, StorageError>(
                    StorageError::InvalidInput,
                )
                &&& qb.len() < NAME_BUFFER_CAPACITY && !valid_magic(self@) ==> r == Err::<
                    String,
                    StorageError,
                >(StorageError::InvalidMagicNumber {
                    expected: STORAGE_MAGIC,
                    found: magic_word(self@),
                })
                &&& qb.len() < NAME_BUFFER_CAPACITY && valid_magic(self@) ==> match find_rec(
                    self@,
                    4,
                    query_name(qb),
                ) {
                    FindOut::Corrupt => r == Err::<String, StorageError>(
                        StorageError::InvalidStorage,
                    ),
                    FindOut::Absent => r == Err::<String, StorageError>(
                        StorageError::FileNotFound,
                    ),
                    FindOut::Found(_, rec) => {
                        if rec.content.len() == 0 || rec.content.last() != 0 {
                            r == Err::<String, StorageError>(StorageError::InvalidInput)
                        } else if !valid_utf8(rec.content.drop_last()) {
                            r == Err::<String, StorageError>(StorageError::InvalidInput)
                        } else {
                            r is Ok && r->Ok_0@ == decode_utf8(rec.content.drop_last())
                        }
                    },
                }
            }),
    {
        let v = match self.file_read_raw(filename) {
            Ok(v) => v,
            Err(e) => {
                return Err(e);
            },
        };
        let vl = v.len();
        if vl == 0 {
            return Err(StorageError::InvalidInput);
        }
        if v[vl - 1] != 0 {
            return Err(StorageError::InvalidInput);
        }
        let body = slice_subrange(v.as_slice(), 0, vl - 1);
        proof {
            assert(body@ =~= v@.drop_last());
        }
        match bytes_to_str(body) {
            None => Err(StorageError::InvalidInput),
            Some(st) => Ok(st.to_owned()),
        }
    }
}

/// Relies on core::str::from_utf8: it accepts exactly the valid UTF-8
/// byte sequences and decodes them, leaving the bytes as they are.
#[verifier::external_body]
fn bytes_to_str(v: &[u8]) -> (r: Option<&str>)
    ensures
        r is Some <==> valid_utf8(v@),
        r is Some ==> r->0@ == decode_utf8(v@),
{
    core::str::from_utf8(v).ok()
}

/// Position of the first zero byte in a slice, or its length if none.
fn slice_find_zero(s: &[u8]) -> (r: usize)
    ensures
        r as int == find_zero(s@, 0, s@.len() as int),
{
    let mut i: usize = 0;
    let hi = s.len();
    while i < hi
        invariant
            0 <= i <= hi,
            hi == s@.len(),
            find_zero(s@, 0, hi as int) == find_zero(s@, i as int, hi as int),
        decreases hi - i,
    {
        if *slice_index_get(s, i) == 0 {
            return i;
        }
        i = i + 1;
    }
    hi
}

} // verus!
