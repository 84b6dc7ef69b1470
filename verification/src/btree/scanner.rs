//! The B-tree scanner: discovers tables and indexes through the schema
//! catalog and collects table rowids, index keys, and index-referenced
//! rowids.
//!
//! Traversal is iterative with an explicit work stack, guarded by a step
//! budget of one step per possible page, so that a corrupt page graph with
//! a cycle cannot keep the walk alive forever. On a well-formed tree every
//! page is visited at most once and the budget is never exhausted.

use vstd::prelude::*;
use vstd::arithmetic::div_mod::lemma_mod_multiples_vanish;
use vstd::slice::slice_subrange;
use vstd::slice::slice_to_vec;

use crate::btree::cell::IndexKey;
use crate::btree::cell::as_signed64;
use crate::btree::cell::extract_index_key;
use crate::btree::cell::extract_index_rowid;
use crate::btree::cell::index_key_len;
use crate::btree::cell::index_rowid_value;
use crate::btree::cell::parse_record_header;
use crate::btree::cell::parse_varint_nonempty;
use crate::btree::cell::read_unsigned_be;
use crate::btree::cell::record_header_types;
use crate::btree::cell::int_column_value;
use crate::btree::cell::serial_type_size;
use crate::btree::cell::serial_type_size_spec;
use crate::btree::cell::sum_sizes;
use crate::btree::cell::lemma_sum_sizes_nonneg;
use crate::btree::cell::lemma_ube_bound;
use crate::btree::cell::ube;
use crate::btree::cell::varint_len;
use crate::btree::cell::varint_value;
use crate::btree::page::BTreePageHeader;
use crate::btree::page::BTreePageType;
use crate::btree::page::spec_parse_header;
use crate::bytes::be32;
use crate::bytes::read_be32;
use crate::error::WalValidatorError;
use crate::validator::page_cache::PageCache;

verus! {

/// Information about one B-tree found in the schema catalog.
#[derive(Debug, Clone)]
pub struct BTreeInfo {
    /// Root page number.
    pub root_page: u32,
    /// Table or index name, as raw catalog bytes (if known).
    pub name: Option<Vec<u8>>,
    /// For indexes: the table this index belongs to, as raw catalog bytes.
    pub tbl_name: Option<Vec<u8>>,
    /// The SQL text that created this object, as raw catalog bytes.
    pub sql: Option<Vec<u8>>,
    /// True if this is a table, false if index.
    pub is_table: bool,
    /// True if this is a unique index (only meaningful for indexes).
    pub is_unique: bool,
}

/// The mathematical shadow of [`BTreeInfo`]: byte vectors as sequences.
pub struct BTreeInfoV {
    /// Root page number.
    pub root_page: u32,
    /// Table or index name bytes.
    pub name: Option<Seq<u8>>,
    /// Owning table name bytes.
    pub tbl_name: Option<Seq<u8>>,
    /// Creating SQL bytes.
    pub sql: Option<Seq<u8>>,
    /// True if this is a table.
    pub is_table: bool,
    /// True if this is a unique index.
    pub is_unique: bool,
}

impl View for BTreeInfo {
    type V = BTreeInfoV;

    open spec fn view(&self) -> BTreeInfoV {
        BTreeInfoV {
            root_page: self.root_page,
            name: match self.name {
                Some(ref v) => Some(v@),
                None => None,
            },
            tbl_name: match self.tbl_name {
                Some(ref v) => Some(v@),
                None => None,
            },
            sql: match self.sql {
                Some(ref v) => Some(v@),
                None => None,
            },
            is_table: self.is_table,
            is_unique: self.is_unique,
        }
    }
}

/// Location of a rowid or key within a B-tree.
#[derive(Debug, Clone, Copy, PartialEq, Eq, Structural)]
pub struct RowidLocation {
    /// Page number where this rowid was found.
    pub page_number: u32,
    /// Cell index within the page.
    pub cell_index: u16,
    /// Frame index that last modified this page (`None` if from the base
    /// database).
    pub frame_index: Option<u64>,
}

/// The step budget for a traversal: one step per page the current state
/// can hold, and one for the root.
pub open spec fn spec_scan_fuel(cache: PageCache) -> nat {
    (cache.spec_effective_page_count() + 1) as nat
}

/// What one table-leaf cell contributes: `Err` when the rowid varint sits
/// past the end of the cell, `None` for a cell pointer outside the page,
/// and the rowid otherwise.
pub open spec fn table_leaf_cell(pg: Seq<u8>, ptr: u16) -> Result<
    Option<i64>,
    WalValidatorError,
> {
    if ptr >= pg.len() {
        Ok(None)
    } else {
        let cd = pg.skip(ptr as int);
        let n1 = varint_len(cd);
        if n1 >= cd.len() {
            Err(WalValidatorError::UnexpectedEof)
        } else {
            Ok(Some(as_signed64(varint_value(cd.skip(n1))) as i64))
        }
    }
}

/// The rowid entries of a table-leaf page from cell `i` on, in cell order.
pub open spec fn table_leaf_entries(
    pg: Seq<u8>,
    ptrs: Seq<u16>,
    p: u32,
    fo: Option<u64>,
    i: int,
) -> Result<Seq<(i64, RowidLocation)>, WalValidatorError>
    decreases ptrs.len() - i,
{
    if i < 0 || i >= ptrs.len() {
        Ok(Seq::empty())
    } else {
        match table_leaf_cell(pg, ptrs[i]) {
            Err(e) => Err(e),
            Ok(cell) => match table_leaf_entries(pg, ptrs, p, fo, i + 1) {
                Err(e) => Err(e),
                Ok(rest) => match cell {
                    None => Ok(rest),
                    Some(rowid) => Ok(
                        seq![
                            (
                                rowid,
                                RowidLocation {
                                    page_number: p,
                                    cell_index: i as u16,
                                    frame_index: fo,
                                },
                            ),
                        ] + rest,
                    ),
                },
            },
        }
    }
}

/// The child pages named by an interior page's cells from cell `i` on: the
/// first four bytes of each cell that fits, in cell order.
pub open spec fn interior_children(pg: Seq<u8>, ptrs: Seq<u16>, i: int) -> Seq<u32>
    decreases ptrs.len() - i,
{
    if i < 0 || i >= ptrs.len() {
        Seq::empty()
    } else {
        let rest = interior_children(pg, ptrs, i + 1);
        if ptrs[i] + 4 <= pg.len() {
            seq![be32(pg, ptrs[i] as int)] + rest
        } else {
            rest
        }
    }
}

/// What visiting one page does for the table-rowid walk: the children to
/// push (interior) and the entries found (leaf). Pages of other types
/// contribute nothing; header and cell-pointer failures abort the walk.
pub open spec fn table_scan_page(cache: PageCache, p: u32) -> Result<
    (Seq<u32>, Seq<(i64, RowidLocation)>),
    WalValidatorError,
> {
    let pg = cache.spec_get_page(p);
    match spec_parse_header(pg, p) {
        Err(e) => Err(e),
        Ok(h) => {
            if h.page_type == BTreePageType::TableLeaf {
                match h.spec_cell_pointers_res(pg, p) {
                    Err(e) => Err(e),
                    Ok(ptrs) => match table_leaf_entries(
                        pg,
                        ptrs,
                        p,
                        cache.spec_frame_index(p),
                        0,
                    ) {
                        Err(e) => Err(e),
                        Ok(entries) => Ok((Seq::empty(), entries)),
                    },
                }
            } else if h.page_type == BTreePageType::TableInterior {
                match h.spec_cell_pointers_res(pg, p) {
                    Err(e) => Err(e),
                    Ok(ptrs) => Ok(
                        (
                            interior_children(pg, ptrs, 0) + seq![h.right_child.unwrap()],
                            Seq::empty(),
                        ),
                    ),
                }
            } else {
                Ok((Seq::empty(), Seq::empty()))
            }
        },
    }
}

/// The depth-first table-rowid walk: pop the top of the stack, visit that
/// page, push its children, and append its entries, until the stack or the
/// step budget runs out.
pub open spec fn table_scan_steps(
    cache: PageCache,
    stack: Seq<u32>,
    out: Seq<(i64, RowidLocation)>,
    fuel: nat,
) -> Result<Seq<(i64, RowidLocation)>, WalValidatorError>
    decreases fuel,
{
    if stack.len() == 0 || fuel == 0 {
        Ok(out)
    } else {
        match table_scan_page(cache, stack.last()) {
            Err(e) => Err(e),
            Ok((children, entries)) => table_scan_steps(
                cache,
                stack.drop_last() + children,
                out + entries,
                (fuel - 1) as nat,
            ),
        }
    }
}

/// The rowids a table-rowid collection over the tree rooted at `root`
/// yields.
pub open spec fn spec_collect_table_rowids(cache: PageCache, root: u32) -> Result<
    Seq<(i64, RowidLocation)>,
    WalValidatorError,
> {
    table_scan_steps(cache, seq![root], Seq::empty(), spec_scan_fuel(cache))
}



/// Get the content size for a serial type (identical to the cell codec's
/// table; kept as the scanner's own entry point).
pub fn serial_type_content_size(serial_type: u64) -> (r: u64)
    ensures
        r as int == serial_type_size_spec(serial_type as int),
{
    serial_type_size(serial_type)
}

/// A byte with an ASCII lowercase letter folded to its uppercase form;
/// every other byte is unchanged.
pub open spec fn ascii_upper(b: u8) -> u8 {
    if 0x61 <= b <= 0x7A {
        (b - 0x20) as u8
    } else {
        b
    }
}

/// A byte sequence with each byte folded by `ascii_upper`.
pub open spec fn upper_seq(s: Seq<u8>) -> Seq<u8> {
    s.map_values(|b: u8| ascii_upper(b))
}

/// `needle` occurs as a contiguous run somewhere in `hay`.
pub open spec fn contains_seq(hay: Seq<u8>, needle: Seq<u8>) -> bool {
    exists|i: int|
        0 <= i && i + needle.len() <= hay.len() && #[trigger] hay.subrange(
            i,
            i + needle.len(),
        ) == needle
}

/// `s` begins with `prefix`.
pub open spec fn starts_with(s: Seq<u8>, prefix: Seq<u8>) -> bool {
    s.len() >= prefix.len() && s.subrange(0, prefix.len() as int) == prefix
}

/// Check whether the ASCII-uppercase folding of `hay` contains `needle`.
pub fn upper_contains(hay: &[u8], needle: &[u8]) -> (r: bool)
    ensures
        r == contains_seq(upper_seq(hay@), needle@),
{
    let nlen = needle.len();
    let hlen = hay.len();
    if nlen > hlen {
        proof {
            assert(!contains_seq(upper_seq(hay@), needle@));
        }
        return false;
    }
    let mut i: usize = 0;
    while i <= hlen - nlen
        invariant
            nlen == needle@.len(),
            hlen == hay@.len(),
            nlen <= hlen,
            i <= hlen - nlen + 1,
            forall|m: int|
                0 <= m < i ==> #[trigger] upper_seq(hay@).subrange(m, m + needle@.len())
                    != needle@,
        decreases hlen + 1 - nlen - i,
    {
        let mut j: usize = 0;
        let mut matched = true;
        while j < nlen
            invariant
                nlen == needle@.len(),
                hlen == hay@.len(),
                i + nlen <= hlen,
                j <= nlen,
                matched == (forall|k: int|
                    0 <= k < j ==> upper_seq(hay@)[i + k] == needle@[k]),
            decreases nlen - j,
        {
            let b = hay[i + j];
            let ub: u8 = if 0x61 <= b && b <= 0x7A {
                b - 0x20
            } else {
                b
            };
            proof {
                assert(ub == upper_seq(hay@)[i + j]);
            }
            if ub != needle[j] {
                matched = false;
                proof {
                    assert(upper_seq(hay@)[i + j as int] != needle@[j as int]);
                }
                j = nlen;
            } else {
                j = j + 1;
            }
        }
        if matched {
            proof {
                assert(upper_seq(hay@).subrange(i as int, i + needle@.len()) =~= needle@);
            }
            return true;
        }
        proof {
            if upper_seq(hay@).subrange(i as int, i + needle@.len()) == needle@ {
                assert(forall|k: int|
                    0 <= k < needle@.len() ==> upper_seq(hay@)[i + k] == needle@[k]);
            }
        }
        i = i + 1;
    }
    proof {
        assert(!contains_seq(upper_seq(hay@), needle@));
    }
    false
}


/// Compare two byte slices for exact equality.
pub fn bytes_equal(a: &[u8], b: &[u8]) -> (r: bool)
    ensures
        r == (a@ == b@),
{
    if a.len() != b.len() {
        return false;
    }
    let mut j: usize = 0;
    while j < a.len()
        invariant
            a@.len() == b@.len(),
            j <= a@.len(),
            forall|k: int| 0 <= k < j ==> a@[k] == b@[k],
        decreases a@.len() - j,
    {
        if a[j] != b[j] {
            return false;
        }
        j = j + 1;
    }
    proof {
        assert(a@ =~= b@);
    }
    true
}

/// Check whether `s` begins with `prefix`.
pub fn bytes_start_with(s: &[u8], prefix: &[u8]) -> (r: bool)
    ensures
        r == starts_with(s@, prefix@),
{
    if s.len() < prefix.len() {
        return false;
    }
    let mut j: usize = 0;
    while j < prefix.len()
        invariant
            prefix@.len() <= s@.len(),
            j <= prefix@.len(),
            forall|k: int| 0 <= k < j ==> s@[k] == prefix@[k],
        decreases prefix@.len() - j,
    {
        if s[j] != prefix[j] {
            proof {
                assert(s@.subrange(0, prefix@.len() as int)[j as int] != prefix@[j as int]);
            }
            return false;
        }
        j = j + 1;
    }
    proof {
        assert(s@.subrange(0, prefix@.len() as int) =~= prefix@);
    }
    true
}

/// The payload of an index cell at `ptr`: the bytes after the payload-size
/// varint, or `None` when the pointer is outside the page or the payload
/// spills past the end of the cell (overflow pages are not followed).
pub open spec fn index_cell_payload(pg: Seq<u8>, ptr: u16) -> Option<Seq<u8>> {
    if ptr >= pg.len() {
        None
    } else {
        let cd = pg.skip(ptr as int);
        let n1 = varint_len(cd);
        let psize = varint_value(cd);
        if n1 + psize > cd.len() {
            None
        } else {
            Some(cd.subrange(n1, n1 + psize))
        }
    }
}

/// The key one index-leaf cell contributes, or `None` when the cell is
/// skipped (bad pointer, overflow, or a malformed record).
pub open spec fn index_leaf_cell_key(pg: Seq<u8>, ptr: u16) -> Option<Seq<u8>> {
    match index_cell_payload(pg, ptr) {
        None => None,
        Some(payload) => {
            if payload.len() == 0 || varint_value(payload) > payload.len()
                || index_key_len(payload) > payload.len() {
                None
            } else {
                Some(payload.subrange(0, index_key_len(payload)))
            }
        },
    }
}

/// The referenced rowid one index-leaf cell contributes, or `None` when
/// the cell is skipped or its last column is not integral.
pub open spec fn index_leaf_cell_rowid(pg: Seq<u8>, ptr: u16) -> Option<i64> {
    match index_cell_payload(pg, ptr) {
        None => None,
        Some(payload) => {
            if payload.len() == 0 || varint_value(payload) > payload.len() {
                None
            } else {
                match index_rowid_value(payload) {
                    None => None,
                    Some(v) => Some(v as i64),
                }
            }
        },
    }
}

/// The key entries of an index-leaf page from cell `i` on, in cell order.
pub open spec fn index_leaf_key_entries(
    pg: Seq<u8>,
    ptrs: Seq<u16>,
    p: u32,
    fo: Option<u64>,
    i: int,
) -> Seq<(Seq<u8>, RowidLocation)>
    decreases ptrs.len() - i,
{
    if i < 0 || i >= ptrs.len() {
        Seq::empty()
    } else {
        let rest = index_leaf_key_entries(pg, ptrs, p, fo, i + 1);
        match index_leaf_cell_key(pg, ptrs[i]) {
            None => rest,
            Some(key) => seq![
                (
                    key,
                    RowidLocation { page_number: p, cell_index: i as u16, frame_index: fo },
                ),
            ] + rest,
        }
    }
}

/// The referenced rowids of an index-leaf page from cell `i` on.
pub open spec fn index_leaf_rowid_entries(pg: Seq<u8>, ptrs: Seq<u16>, i: int) -> Seq<i64>
    decreases ptrs.len() - i,
{
    if i < 0 || i >= ptrs.len() {
        Seq::empty()
    } else {
        let rest = index_leaf_rowid_entries(pg, ptrs, i + 1);
        match index_leaf_cell_rowid(pg, ptrs[i]) {
            None => rest,
            Some(rowid) => seq![rowid] + rest,
        }
    }
}

/// What visiting one page does for the index-key walk.
pub open spec fn index_key_scan_page(cache: PageCache, p: u32) -> Result<
    (Seq<u32>, Seq<(Seq<u8>, RowidLocation)>),
    WalValidatorError,
> {
    let pg = cache.spec_get_page(p);
    match spec_parse_header(pg, p) {
        Err(e) => Err(e),
        Ok(h) => {
            if h.page_type == BTreePageType::IndexLeaf {
                match h.spec_cell_pointers_res(pg, p) {
                    Err(e) => Err(e),
                    Ok(ptrs) => Ok(
                        (
                            Seq::empty(),
                            index_leaf_key_entries(
                                pg,
                                ptrs,
                                p,
                                cache.spec_frame_index(p),
                                0,
                            ),
                        ),
                    ),
                }
            } else if h.page_type == BTreePageType::IndexInterior {
                match h.spec_cell_pointers_res(pg, p) {
                    Err(e) => Err(e),
                    Ok(ptrs) => Ok(
                        (
                            interior_children(pg, ptrs, 0) + seq![h.right_child.unwrap()],
                            Seq::empty(),
                        ),
                    ),
                }
            } else {
                Ok((Seq::empty(), Seq::empty()))
            }
        },
    }
}

/// What visiting one page does for the index-rowid walk.
pub open spec fn index_rowid_scan_page(cache: PageCache, p: u32) -> Result<
    (Seq<u32>, Seq<i64>),
    WalValidatorError,
> {
    let pg = cache.spec_get_page(p);
    match spec_parse_header(pg, p) {
        Err(e) => Err(e),
        Ok(h) => {
            if h.page_type == BTreePageType::IndexLeaf {
                match h.spec_cell_pointers_res(pg, p) {
                    Err(e) => Err(e),
                    Ok(ptrs) => Ok((Seq::empty(), index_leaf_rowid_entries(pg, ptrs, 0))),
                }
            } else if h.page_type == BTreePageType::IndexInterior {
                match h.spec_cell_pointers_res(pg, p) {
                    Err(e) => Err(e),
                    Ok(ptrs) => Ok(
                        (
                            interior_children(pg, ptrs, 0) + seq![h.right_child.unwrap()],
                            Seq::empty(),
                        ),
                    ),
                }
            } else {
                Ok((Seq::empty(), Seq::empty()))
            }
        },
    }
}

/// The depth-first index-key walk.
pub open spec fn index_key_scan_steps(
    cache: PageCache,
    stack: Seq<u32>,
    out: Seq<(Seq<u8>, RowidLocation)>,
    fuel: nat,
) -> Result<Seq<(Seq<u8>, RowidLocation)>, WalValidatorError>
    decreases fuel,
{
    if stack.len() == 0 || fuel == 0 {
        Ok(out)
    } else {
        match index_key_scan_page(cache, stack.last()) {
            Err(e) => Err(e),
            Ok((children, entries)) => index_key_scan_steps(
                cache,
                stack.drop_last() + children,
                out + entries,
                (fuel - 1) as nat,
            ),
        }
    }
}

/// The depth-first index-rowid walk.
pub open spec fn index_rowid_scan_steps(
    cache: PageCache,
    stack: Seq<u32>,
    out: Seq<i64>,
    fuel: nat,
) -> Result<Seq<i64>, WalValidatorError>
    decreases fuel,
{
    if stack.len() == 0 || fuel == 0 {
        Ok(out)
    } else {
        match index_rowid_scan_page(cache, stack.last()) {
            Err(e) => Err(e),
            Ok((children, entries)) => index_rowid_scan_steps(
                cache,
                stack.drop_last() + children,
                out + entries,
                (fuel - 1) as nat,
            ),
        }
    }
}

/// The keys an index-key collection over the tree rooted at `root` yields.
pub open spec fn spec_collect_index_keys(cache: PageCache, root: u32) -> Result<
    Seq<(Seq<u8>, RowidLocation)>,
    WalValidatorError,
> {
    index_key_scan_steps(cache, seq![root], Seq::empty(), spec_scan_fuel(cache))
}

/// The rowids an index-rowid collection over the tree rooted at `root`
/// yields.
pub open spec fn spec_collect_index_rowids(cache: PageCache, root: u32) -> Result<
    Seq<i64>,
    WalValidatorError,
> {
    index_rowid_scan_steps(cache, seq![root], Seq::empty(), spec_scan_fuel(cache))
}


/// Push an interior page's child pointers and its right child onto the
/// work stack, in cell order with the right child last.
fn push_interior_children(
    stack: &mut Vec<u32>,
    page_data: &[u8],
    cell_pointers: &Vec<u16>,
    right_child: u32,
)
    ensures
        final(stack)@ == old(stack)@ + interior_children(page_data@, cell_pointers@, 0)
            + seq![right_child],
{
    let ghost pg = page_data@;
    let ghost ptrs = cell_pointers@;
    let ghost stack_before = stack@;
    proof {
        assert(stack@.skip(stack_before.len() as int) =~= Seq::<u32>::empty());
    }

    let mut ci: usize = 0;
    while ci < cell_pointers.len()
        invariant
            pg == page_data@,
            ptrs == cell_pointers@,
            ci <= ptrs.len(),
            stack@.len() >= stack_before.len(),
            stack@.subrange(0, stack_before.len() as int) == stack_before,
            interior_children(pg, ptrs, 0) == stack@.skip(stack_before.len() as int)
                + interior_children(pg, ptrs, ci as int),
        decreases ptrs.len() - ci,
    {
        let ghost added = stack@.skip(stack_before.len() as int);
        let cell_ptr = cell_pointers[ci];
        let cell_offset = cell_ptr as usize;
        if page_data.len() >= 4 && cell_offset <= page_data.len() - 4 {
            let left_child = read_be32(page_data, cell_offset);
            stack.push(left_child);
            proof {
                assert(stack@.subrange(0, stack_before.len() as int) =~= stack_before);
                assert(stack@.skip(stack_before.len() as int) =~= added + seq![
                    left_child,
                ]);
                assert((added + seq![left_child]) + interior_children(pg, ptrs, ci + 1)
                    =~= added + (seq![be32(pg, ptrs[ci as int] as int)]
                    + interior_children(pg, ptrs, ci + 1)));
            }
        }
        ci = ci + 1;
    }
    proof {
        assert(interior_children(pg, ptrs, ptrs.len() as int) =~= Seq::<u32>::empty());
        let added = stack@.skip(stack_before.len() as int);
        assert(added + Seq::<u32>::empty() =~= added);
    }
    stack.push(right_child);
    proof {
        let added = interior_children(pg, ptrs, 0);
        assert(stack@ =~= (stack_before + added).push(right_child));
        assert((stack_before + added).push(right_child) =~= (stack_before + added)
            + seq![right_child]);
    }
}


/// The catalog object-type keyword for tables, as bytes.
pub open spec fn table_keyword() -> Seq<u8> {
    seq![0x74u8, 0x61u8, 0x62u8, 0x6Cu8, 0x65u8]
}

/// The catalog object-type keyword for indexes, as bytes.
pub open spec fn index_keyword() -> Seq<u8> {
    seq![0x69u8, 0x6Eu8, 0x64u8, 0x65u8, 0x78u8]
}

/// The uppercase keyword whose presence in an index's SQL marks it unique.
pub open spec fn unique_keyword() -> Seq<u8> {
    seq![0x55u8, 0x4Eu8, 0x49u8, 0x51u8, 0x55u8, 0x45u8]
}

/// The name prefix of automatic indexes, which are always unique.
pub open spec fn autoindex_prefix() -> Seq<u8> {
    seq![
        0x73u8, 0x71u8, 0x6Cu8, 0x69u8, 0x74u8, 0x65u8, 0x5Fu8, 0x61u8, 0x75u8, 0x74u8,
        0x6Fu8, 0x69u8, 0x6Eu8, 0x64u8, 0x65u8, 0x78u8, 0x5Fu8,
    ]
}

/// The low 32 bits of a signed integer, as the engine's root-page field.
pub open spec fn u32_of_int(v: int) -> u32 {
    (v % 0x100000000) as u32
}

/// The text column `col` of a record: `None` unless the serial type is a
/// text type whose data lies within the payload.
pub open spec fn spec_text_column(payload: Seq<u8>, sts: Seq<int>, col: int) -> Option<
    Seq<u8>,
> {
    if col >= sts.len() {
        None
    } else {
        let st = sts[col];
        if st < 13 || st % 2 == 0 {
            None
        } else {
            let size = (st - 13) / 2;
            let off = varint_value(payload) + sum_sizes(sts.take(col));
            if off + size > payload.len() {
                None
            } else {
                Some(payload.subrange(off, off + size))
            }
        }
    }
}

/// The integer column `col` of a record, decoded with sign extension.
pub open spec fn spec_int_column(payload: Seq<u8>, sts: Seq<int>, col: int) -> Option<
    int,
> {
    if col >= sts.len() {
        None
    } else {
        int_column_value(payload, varint_value(payload) + sum_sizes(sts.take(col)), sts[col])
    }
}

/// Appending one serial type extends the size sum by that type's size.
pub proof fn lemma_sum_sizes_push(s: Seq<int>, x: int)
    ensures
        sum_sizes(s.push(x)) == sum_sizes(s) + serial_type_size_spec(x),
    decreases s.len(),
{
    if s.len() == 0 {
        assert(s.push(x)[0] == x);
        assert(s.push(x).drop_first() =~= Seq::<int>::empty());
        assert(sum_sizes(s.push(x)) == serial_type_size_spec(x) + sum_sizes(
            Seq::<int>::empty(),
        ));
    } else {
        assert(s.push(x)[0] == s[0]);
        assert(s.push(x).drop_first() =~= s.drop_first().push(x));
        lemma_sum_sizes_push(s.drop_first(), x);
        assert(sum_sizes(s.push(x)) == serial_type_size_spec(s[0]) + sum_sizes(
            s.drop_first().push(x),
        ));
    }
}

/// The byte offset of each column's data: the header length plus the sizes
/// of all earlier columns.
fn column_offsets(payload: &[u8], serial_types: &Vec<u64>, header_size: usize) -> (r:
    Vec<u128>)
    requires
        header_size as int == varint_value(payload@),
        serial_types@.map_values(|v: u64| v as int) == record_header_types(payload@),
    ensures
        r@.len() == serial_types@.len(),
        forall|k: int|
            0 <= k < r@.len() ==> #[trigger] r@[k] as int == varint_value(payload@)
                + sum_sizes(record_header_types(payload@).take(k)),
{
    let ghost sts = record_header_types(payload@);
    let mut offsets: Vec<u128> = Vec::new();
    let mut off: u128 = header_size as u128;
    let mut k: usize = 0;
    proof {
        assert(sts.take(0) =~= Seq::<int>::empty());
    }
    while k < serial_types.len()
        invariant
            sts == record_header_types(payload@),
            serial_types@.map_values(|v: u64| v as int) == sts,
            k <= serial_types@.len(),
            offsets@.len() == k,
            forall|j: int|
                0 <= j < k ==> #[trigger] offsets@[j] as int == varint_value(payload@)
                    + sum_sizes(sts.take(j)),
            off as int == varint_value(payload@) + sum_sizes(sts.take(k as int)),
            off <= varint_value(payload@) + k * 0x8000000000000000,
            varint_value(payload@) < 0x10000000000000000,
        decreases serial_types@.len() - k,
    {
        offsets.push(off);
        let size = serial_type_size(serial_types[k]);
        proof {
            assert(sts.take(k + 1) =~= sts.take(k as int).push(sts[k as int]));
            lemma_sum_sizes_push(sts.take(k as int), sts[k as int]);
        }
        off = off + size as u128;
        k = k + 1;
    }
    offsets
}

/// Read a text column from a record, as raw bytes.
pub fn read_text_column(
    payload: &[u8],
    serial_types: &Vec<u64>,
    offsets: &Vec<u128>,
    col: usize,
) -> (r: Option<Vec<u8>>)
    requires
        serial_types@.map_values(|v: u64| v as int) == record_header_types(payload@),
        offsets@.len() == serial_types@.len(),
        forall|k: int|
            0 <= k < offsets@.len() ==> #[trigger] offsets@[k] as int == varint_value(
                payload@,
            ) + sum_sizes(record_header_types(payload@).take(k)),
    ensures
        match r {
            Some(v) => spec_text_column(
                payload@,
                record_header_types(payload@),
                col as int,
            ) == Some(v@),
            None => spec_text_column(payload@, record_header_types(payload@), col as int)
                is None,
        },
{
    if col >= serial_types.len() {
        return None;
    }
    let st = serial_types[col];
    if st < 13 || st % 2 == 0 {
        return None;
    }
    let size = (st - 13) / 2;
    let off = offsets[col];
    if off > payload.len() as u128 || size as u128 > payload.len() as u128 - off {
        return None;
    }
    let start = off as usize;
    Some(slice_to_vec(slice_subrange(payload, start, start + size as usize)))
}

/// Read an integer column from a record, with sign extension.
pub fn read_int_column(
    payload: &[u8],
    serial_types: &Vec<u64>,
    offsets: &Vec<u128>,
    col: usize,
) -> (r: Option<i64>)
    requires
        serial_types@.map_values(|v: u64| v as int) == record_header_types(payload@),
        offsets@.len() == serial_types@.len(),
        forall|k: int|
            0 <= k < offsets@.len() ==> #[trigger] offsets@[k] as int == varint_value(
                payload@,
            ) + sum_sizes(record_header_types(payload@).take(k)),
    ensures
        match r {
            Some(v) => spec_int_column(
                payload@,
                record_header_types(payload@),
                col as int,
            ) == Some(v as int),
            None => spec_int_column(payload@, record_header_types(payload@), col as int)
                is None,
        },
{
    if col >= serial_types.len() {
        return None;
    }
    let st = serial_types[col];
    if st == 8 {
        return Some(0);
    }
    if st == 9 {
        return Some(1);
    }
    if !(st == 1 || st == 2 || st == 3 || st == 4 || st == 5 || st == 6) {
        return None;
    }
    let width = serial_type_size(st);
    let off = offsets[col];
    proof {
        lemma_sum_sizes_nonneg(record_header_types(payload@).take(col as int));
    }
    if off > payload.len() as u128 || (width as u128) > payload.len() as u128 - off {
        return None;
    }
    let v = read_unsigned_be(payload, off as usize, width as usize);
    proof {
        lemma_ube_bound(payload@, off as int, width as int);
    }
    let signed: i64 = if width == 1 {
        if v >= 0x80 {
            v as i64 - 0x100
        } else {
            v as i64
        }
    } else if width == 2 {
        if v >= 0x8000 {
            v as i64 - 0x10000
        } else {
            v as i64
        }
    } else if width == 3 {
        if v >= 0x800000 {
            v as i64 - 0x1000000
        } else {
            v as i64
        }
    } else if width == 4 {
        if v >= 0x80000000 {
            v as i64 - 0x100000000
        } else {
            v as i64
        }
    } else if width == 6 {
        if v >= 0x800000000000 {
            v as i64 - 0x1000000000000
        } else {
            v as i64
        }
    } else {
        if v >= 0x8000000000000000 {
            -((0xFFFFFFFFFFFFFFFFu64 - v) as i64) - 1
        } else {
            v as i64
        }
    };
    Some(signed)
}

/// What one schema-catalog cell describes: the table or index row it
/// holds, or `None` when the cell is malformed, names another object kind,
/// or carries a non-positive root page.
pub open spec fn master_cell_info(pg: Seq<u8>, ptr: int) -> Option<BTreeInfoV> {
    if ptr < 0 || ptr >= pg.len() {
        None
    } else {
        let cd = pg.skip(ptr);
        let n1 = varint_len(cd);
        let psize = varint_value(cd);
        if n1 >= cd.len() {
            None
        } else {
            let off = n1 + varint_len(cd.skip(n1));
            if off + psize > cd.len() {
                None
            } else {
                let payload = cd.subrange(off, off + psize);
                if payload.len() == 0 || varint_value(payload) > payload.len() {
                    None
                } else {
                    let sts = record_header_types(payload);
                    if sts.len() < 4 {
                        None
                    } else {
                        let type_col = spec_text_column(payload, sts, 0);
                        let name_col = spec_text_column(payload, sts, 1);
                        let tbl_col = spec_text_column(payload, sts, 2);
                        let root_col = spec_int_column(payload, sts, 3);
                        let sql_col = spec_text_column(payload, sts, 4);
                        if type_col is None || name_col is None || root_col is None {
                            None
                        } else {
                            let rp = u32_of_int(root_col.unwrap());
                            let is_tbl = type_col.unwrap() == table_keyword();
                            let is_idx = type_col.unwrap() == index_keyword();
                            if rp > 0 && (is_tbl || is_idx) {
                                Some(
                                    BTreeInfoV {
                                        root_page: rp,
                                        name: name_col,
                                        tbl_name: tbl_col,
                                        sql: sql_col,
                                        is_table: is_tbl,
                                        is_unique: if is_idx {
                                            starts_with(
                                                name_col.unwrap(),
                                                autoindex_prefix(),
                                            ) || (sql_col is Some && contains_seq(
                                                upper_seq(sql_col.unwrap()),
                                                unique_keyword(),
                                            ))
                                        } else {
                                            false
                                        },
                                    },
                                )
                            } else {
                                None
                            }
                        }
                    }
                }
            }
        }
    }
}


/// The catalog rows of a table-leaf page of the schema tree, from cell `i`
/// on, in cell order; malformed cells are skipped.
pub open spec fn master_leaf_entries(pg: Seq<u8>, ptrs: Seq<u16>, i: int) -> Seq<
    BTreeInfoV,
>
    decreases ptrs.len() - i,
{
    if i < 0 || i >= ptrs.len() {
        Seq::empty()
    } else {
        let rest = master_leaf_entries(pg, ptrs, i + 1);
        match master_cell_info(pg, ptrs[i] as int) {
            None => rest,
            Some(info) => seq![info] + rest,
        }
    }
}

/// What visiting one page does for the catalog walk.
pub open spec fn master_scan_page(cache: PageCache, p: u32) -> Result<
    (Seq<u32>, Seq<BTreeInfoV>),
    WalValidatorError,
> {
    let pg = cache.spec_get_page(p);
    match spec_parse_header(pg, p) {
        Err(e) => Err(e),
        Ok(h) => {
            if h.page_type == BTreePageType::TableLeaf {
                match h.spec_cell_pointers_res(pg, p) {
                    Err(e) => Err(e),
                    Ok(ptrs) => Ok((Seq::empty(), master_leaf_entries(pg, ptrs, 0))),
                }
            } else if h.page_type == BTreePageType::TableInterior {
                match h.spec_cell_pointers_res(pg, p) {
                    Err(e) => Err(e),
                    Ok(ptrs) => Ok(
                        (
                            interior_children(pg, ptrs, 0) + seq![h.right_child.unwrap()],
                            Seq::empty(),
                        ),
                    ),
                }
            } else {
                Ok((Seq::empty(), Seq::empty()))
            }
        },
    }
}

/// The depth-first catalog walk.
pub open spec fn master_scan_steps(
    cache: PageCache,
    stack: Seq<u32>,
    out: Seq<BTreeInfoV>,
    fuel: nat,
) -> Result<Seq<BTreeInfoV>, WalValidatorError>
    decreases fuel,
{
    if stack.len() == 0 || fuel == 0 {
        Ok(out)
    } else {
        match master_scan_page(cache, stack.last()) {
            Err(e) => Err(e),
            Ok((children, entries)) => master_scan_steps(
                cache,
                stack.drop_last() + children,
                out + entries,
                (fuel - 1) as nat,
            ),
        }
    }
}

/// The tables and indexes the catalog walk from `root` finds.
pub open spec fn spec_scan_master(cache: PageCache, root: u32) -> Result<
    Seq<BTreeInfoV>,
    WalValidatorError,
> {
    master_scan_steps(cache, seq![root], Seq::empty(), spec_scan_fuel(cache))
}

/// The tables and indexes discovered through the schema catalog on page 1.
pub open spec fn spec_discover_btrees(cache: PageCache) -> Result<
    Seq<BTreeInfoV>,
    WalValidatorError,
> {
    spec_scan_master(cache, 1)
}

/// Scanner for traversing B-trees and collecting rowids and keys.
pub struct BTreeScanner<'a> {
    /// The page cache the walk reads through.
    page_cache: &'a PageCache,
}

impl<'a> BTreeScanner<'a> {
    /// The cache this scanner reads through.
    pub closed spec fn spec_cache(&self) -> PageCache {
        *self.page_cache
    }

    /// Create a scanner over the given page cache.
    pub fn new(page_cache: &'a PageCache) -> (r: Self)
        ensures
            r.spec_cache() == *page_cache,
    {
        BTreeScanner { page_cache }
    }


    /// Discover all B-trees by reading the schema catalog rooted at page 1.
    pub fn discover_btrees(&self) -> (r: Result<Vec<BTreeInfo>, WalValidatorError>)
        requires
            self.spec_cache().wf(),
        ensures
            match r {
                Ok(v) => spec_discover_btrees(self.spec_cache()) == Ok::<
                    Seq<BTreeInfoV>,
                    WalValidatorError,
                >(v@.map_values(|b: BTreeInfo| b@)),
                Err(e) => spec_discover_btrees(self.spec_cache()) == Err::<
                    Seq<BTreeInfoV>,
                    WalValidatorError,
                >(e),
            },
    {
        let mut btrees: Vec<BTreeInfo> = Vec::new();
        proof {
            assert(btrees@.map_values(|b: BTreeInfo| b@) =~= Seq::<BTreeInfoV>::empty());
        }
        match self.scan_sqlite_master(1, &mut btrees) {
            Ok(_) => {
                proof {
                    let full = btrees@.map_values(|b: BTreeInfo| b@);
                    assert(full.skip(0) =~= full);
                }
                Ok(btrees)
            },
            Err(e) => Err(e),
        }
    }

    /// Walk the schema tree rooted at `root_page`, appending every table
    /// and index row found to `btrees`.
    fn scan_sqlite_master(&self, root_page: u32, btrees: &mut Vec<BTreeInfo>) -> (r:
        Result<(), WalValidatorError>)
        requires
            self.spec_cache().wf(),
        ensures
            final(btrees)@.len() >= old(btrees)@.len(),
            final(btrees)@.subrange(0, old(btrees)@.len() as int) == old(btrees)@,
            match r {
                Ok(_) => spec_scan_master(self.spec_cache(), root_page) == Ok::<
                    Seq<BTreeInfoV>,
                    WalValidatorError,
                >(
                    final(btrees)@.map_values(|b: BTreeInfo| b@).skip(
                        old(btrees)@.len() as int,
                    ),
                ),
                Err(e) => spec_scan_master(self.spec_cache(), root_page) == Err::<
                    Seq<BTreeInfoV>,
                    WalValidatorError,
                >(e),
            },
    {
        let ghost cache = *self.page_cache;
        let ghost base = btrees@.len() as int;
        let mut stack: Vec<u32> = Vec::new();
        stack.push(root_page);
        let mut fuel: u64 = self.page_cache.effective_page_count() as u64 + 1;
        proof {
            assert(stack@ =~= seq![root_page]);
            assert(btrees@.map_values(|b: BTreeInfo| b@).skip(base) =~= Seq::<
                BTreeInfoV,
            >::empty());
        }

        while stack.len() > 0 && fuel > 0
            invariant
                self.spec_cache() == cache,
                cache.wf(),
                fuel <= spec_scan_fuel(cache),
                base == old(btrees)@.len(),
                btrees@.len() >= base,
                btrees@.subrange(0, base) == old(btrees)@,
                master_scan_steps(
                    cache,
                    stack@,
                    btrees@.map_values(|b: BTreeInfo| b@).skip(base),
                    fuel as nat,
                ) == spec_scan_master(cache, root_page),
            decreases fuel,
        {
            let ghost stack_entry = stack@;
            let ghost fuel_entry = fuel as nat;
            fuel = fuel - 1;
            let page_num = match stack.pop() {
                Some(p) => p,
                None => {
                    proof {
                        assert(false);
                    }
                    return Err(WalValidatorError::UnexpectedEof);
                },
            };
            let ghost out0 = btrees@.map_values(|b: BTreeInfo| b@).skip(base);
            proof {
                assert(stack_entry =~= stack@.push(page_num));
                assert(stack_entry.last() == page_num);
                assert(stack_entry.drop_last() =~= stack@);
            }

            let page_data = self.page_cache.get_page(page_num);
            let ghost pg = cache.spec_get_page(page_num);
            let (header, _) = match BTreePageHeader::parse(page_data.as_slice(), page_num)
            {
                Ok(h) => h,
                Err(e) => {
                    proof {
                        assert(master_scan_page(cache, page_num) == Err::<
                            (Seq<u32>, Seq<BTreeInfoV>),
                            WalValidatorError,
                        >(e));
                        assert(master_scan_steps(cache, stack_entry, out0, fuel_entry)
                            == Err::<Seq<BTreeInfoV>, WalValidatorError>(e));
                    }
                    return Err(e);
                },
            };

            match header.page_type {
                BTreePageType::TableLeaf => {
                    let cell_pointers = match header.get_cell_pointers(
                        page_data.as_slice(),
                        page_num,
                    ) {
                        Ok(p) => p,
                        Err(e) => {
                            proof {
                                assert(master_scan_page(cache, page_num) == Err::<
                                    (Seq<u32>, Seq<BTreeInfoV>),
                                    WalValidatorError,
                                >(e));
                                assert(master_scan_steps(
                                    cache,
                                    stack_entry,
                                    out0,
                                    fuel_entry,
                                ) == Err::<Seq<BTreeInfoV>, WalValidatorError>(e));
                            }
                            return Err(e);
                        },
                    };
                    let ghost ptrs = cell_pointers@;
                    proof {
                        assert(btrees@.map_values(|b: BTreeInfo| b@).skip(base).skip(
                            out0.len() as int,
                        ) =~= Seq::<BTreeInfoV>::empty());
                        assert(Seq::<BTreeInfoV>::empty() + master_leaf_entries(
                            pg,
                            ptrs,
                            0,
                        ) =~= master_leaf_entries(pg, ptrs, 0));
                    }

                    let mut cell_idx: usize = 0;
                    while cell_idx < cell_pointers.len()
                        invariant
                            self.spec_cache() == cache,
                            cache.wf(),
                            pg == cache.spec_get_page(page_num),
                            page_data@ == pg,
                            cell_pointers@ == ptrs,
                            cell_idx <= ptrs.len(),
                            0 <= base,
                            base + out0.len() <= btrees@.len(),
                            btrees@.subrange(0, base) == old(btrees)@,
                            btrees@.map_values(|b: BTreeInfo| b@).skip(base).subrange(
                                0,
                                out0.len() as int,
                            ) == out0,
                            master_leaf_entries(pg, ptrs, 0) == btrees@.map_values(
                                |b: BTreeInfo| b@,
                            ).skip(base).skip(out0.len() as int) + master_leaf_entries(
                                pg,
                                ptrs,
                                cell_idx as int,
                            ),
                        decreases ptrs.len() - cell_idx,
                    {
                        let ghost accv = btrees@.map_values(|b: BTreeInfo| b@).skip(
                            base,
                        ).skip(out0.len() as int);
                        let ghost btv0 = btrees@.map_values(|b: BTreeInfo| b@);
                        let ghost braw0 = btrees@;
                        let cell_ptr = cell_pointers[cell_idx];
                        match self.parse_sqlite_master_cell(
                            page_data.as_slice(),
                            cell_ptr as usize,
                        ) {
                            Ok(Some(info)) => {
                                let ghost iv = info@;
                                btrees.push(info);
                                proof {
                                    let btv = btrees@.map_values(|b: BTreeInfo| b@);
                                    assert(btrees@ == braw0.push(info));
                                    assert(btv =~= btv0.push(iv));
                                    assert(btrees@.subrange(0, base) =~= braw0.subrange(
                                        0,
                                        base,
                                    ));
                                    assert(btv.skip(base).subrange(0, out0.len() as int)
                                        =~= btv0.skip(base).subrange(
                                        0,
                                        out0.len() as int,
                                    ));
                                    assert(btv.skip(base).skip(out0.len() as int)
                                        =~= accv + seq![iv]);
                                    assert((accv + seq![iv]) + master_leaf_entries(
                                        pg,
                                        ptrs,
                                        cell_idx + 1,
                                    ) =~= accv + (seq![iv] + master_leaf_entries(
                                        pg,
                                        ptrs,
                                        cell_idx + 1,
                                    )));
                                }
                            },
                            _ => {
                                proof {
                                    assert(master_cell_info(pg, ptrs[cell_idx as int] as int)
                                        is None);
                                }
                            },
                        }
                        cell_idx = cell_idx + 1;
                    }
                    proof {
                        assert(master_leaf_entries(pg, ptrs, ptrs.len() as int) =~= Seq::<
                            BTreeInfoV,
                        >::empty());
                        let accv = btrees@.map_values(|b: BTreeInfo| b@).skip(base).skip(
                            out0.len() as int,
                        );
                        assert(accv + Seq::<BTreeInfoV>::empty() =~= accv);
                        assert(master_scan_page(cache, page_num) == Ok::<
                            (Seq<u32>, Seq<BTreeInfoV>),
                            WalValidatorError,
                        >((Seq::empty(), accv)));
                        assert(stack@ =~= stack_entry.drop_last() + Seq::<u32>::empty());
                        assert(btrees@.map_values(|b: BTreeInfo| b@).skip(base) =~= out0
                            + accv);
                    }
                },
                BTreePageType::TableInterior => {
                    let cell_pointers = match header.get_cell_pointers(
                        page_data.as_slice(),
                        page_num,
                    ) {
                        Ok(p) => p,
                        Err(e) => {
                            proof {
                                assert(master_scan_page(cache, page_num) == Err::<
                                    (Seq<u32>, Seq<BTreeInfoV>),
                                    WalValidatorError,
                                >(e));
                                assert(master_scan_steps(
                                    cache,
                                    stack_entry,
                                    out0,
                                    fuel_entry,
                                ) == Err::<Seq<BTreeInfoV>, WalValidatorError>(e));
                            }
                            return Err(e);
                        },
                    };
                    let ghost ptrs = cell_pointers@;
                    let right_child = match header.right_child {
                        Some(rc) => rc,
                        None => {
                            proof {
                                assert(false);
                            }
                            return Err(WalValidatorError::UnexpectedEof);
                        },
                    };
                    let ghost stack_before = stack@;
                    push_interior_children(
                        &mut stack,
                        page_data.as_slice(),
                        &cell_pointers,
                        right_child,
                    );
                    proof {
                        let added = interior_children(pg, ptrs, 0);
                        assert(stack_before + added + seq![right_child] =~= stack_before
                            + (added + seq![right_child]));
                        assert(master_scan_page(cache, page_num) == Ok::<
                            (Seq<u32>, Seq<BTreeInfoV>),
                            WalValidatorError,
                        >((added + seq![right_child], Seq::empty())));
                        assert(btrees@.map_values(|b: BTreeInfo| b@).skip(base) =~= out0
                            + Seq::<BTreeInfoV>::empty());
                        assert(stack@ =~= stack_entry.drop_last() + (added + seq![
                            right_child,
                        ]));
                    }
                },
                _ => {
                    proof {
                        assert(master_scan_page(cache, page_num) == Ok::<
                            (Seq<u32>, Seq<BTreeInfoV>),
                            WalValidatorError,
                        >((Seq::empty(), Seq::empty())));
                        assert(stack@ =~= stack_entry.drop_last() + Seq::<u32>::empty());
                        assert(btrees@.map_values(|b: BTreeInfo| b@).skip(base) =~= out0
                            + Seq::<BTreeInfoV>::empty());
                    }
                },
            }
            proof {
                assert(master_scan_steps(cache, stack_entry, out0, fuel_entry)
                    == master_scan_steps(
                    cache,
                    stack@,
                    btrees@.map_values(|b: BTreeInfo| b@).skip(base),
                    fuel as nat,
                ));
            }
        }

        Ok(())
    }

    /// Collect all rowids from the table B-tree rooted at `root_page`,
    /// with the page and cell each was found at.
    pub fn collect_table_rowids(&self, root_page: u32) -> (r: Result<
        Vec<(i64, RowidLocation)>,
        WalValidatorError,
    >)
        requires
            self.spec_cache().wf(),
        ensures
            match r {
                Ok(v) => spec_collect_table_rowids(self.spec_cache(), root_page) == Ok::<
                    Seq<(i64, RowidLocation)>,
                    WalValidatorError,
                >(v@),
                Err(e) => spec_collect_table_rowids(self.spec_cache(), root_page)
                    == Err::<Seq<(i64, RowidLocation)>, WalValidatorError>(e),
            },
    {
        let ghost cache = *self.page_cache;
        let mut rowids: Vec<(i64, RowidLocation)> = Vec::new();
        let mut stack: Vec<u32> = Vec::new();
        stack.push(root_page);
        let mut fuel: u64 = self.page_cache.effective_page_count() as u64 + 1;
        proof {
            assert(stack@ =~= seq![root_page]);
            assert(rowids@ =~= Seq::<(i64, RowidLocation)>::empty());
        }

        while stack.len() > 0 && fuel > 0
            invariant
                self.spec_cache() == cache,
                cache.wf(),
                fuel <= spec_scan_fuel(cache),
                table_scan_steps(cache, stack@, rowids@, fuel as nat)
                    == spec_collect_table_rowids(cache, root_page),
            decreases fuel,
        {
            let ghost stack_entry = stack@;
            let ghost fuel_entry = fuel as nat;
            fuel = fuel - 1;
            let page_num = match stack.pop() {
                Some(p) => p,
                None => {
                    proof {
                        assert(false);
                    }
                    return Err(WalValidatorError::UnexpectedEof);
                },
            };
            let ghost out0 = rowids@;
            proof {
                assert(stack_entry =~= stack@.push(page_num));
                assert(stack_entry.last() == page_num);
                assert(stack_entry.drop_last() =~= stack@);
            }

            let frame_index = self.page_cache.get_frame_index(page_num);
            let page_data = self.page_cache.get_page(page_num);
            let ghost pg = cache.spec_get_page(page_num);
            let (header, _) = match BTreePageHeader::parse(page_data.as_slice(), page_num)
            {
                Ok(h) => h,
                Err(e) => {
                    proof {
                        assert(table_scan_page(cache, page_num) == Err::<
                            (Seq<u32>, Seq<(i64, RowidLocation)>),
                            WalValidatorError,
                        >(e));
                        assert(table_scan_steps(cache, stack_entry, out0, fuel_entry)
                            == Err::<Seq<(i64, RowidLocation)>, WalValidatorError>(e));
                    }
                    return Err(e);
                },
            };

            match header.page_type {
                BTreePageType::TableLeaf => {
                    let cell_pointers = match header.get_cell_pointers(
                        page_data.as_slice(),
                        page_num,
                    ) {
                        Ok(p) => p,
                        Err(e) => {
                            proof {
                                assert(table_scan_page(cache, page_num) == Err::<
                                    (Seq<u32>, Seq<(i64, RowidLocation)>),
                                    WalValidatorError,
                                >(e));
                                assert(table_scan_steps(
                                    cache,
                                    stack_entry,
                                    out0,
                                    fuel_entry,
                                ) == Err::<Seq<(i64, RowidLocation)>, WalValidatorError>(
                                    e,
                                ));
                            }
                            return Err(e);
                        },
                    };
                    let ghost ptrs = cell_pointers@;
                    let ghost fo = cache.spec_frame_index(page_num);
                    proof {
                        assert(frame_index == fo);
                        assert(rowids@.skip(out0.len() as int) =~= Seq::<
                            (i64, RowidLocation),
                        >::empty());
                        match table_leaf_entries(pg, ptrs, page_num, fo, 0) {
                            Ok(r0) => {
                                assert(Seq::<(i64, RowidLocation)>::empty() + r0 =~= r0);
                            },
                            Err(_) => {},
                        }
                    }

                    let mut cell_idx: usize = 0;
                    while cell_idx < cell_pointers.len()
                        invariant
                            self.spec_cache() == cache,
                            pg == cache.spec_get_page(page_num),
                            fo == cache.spec_frame_index(page_num),
                            frame_index == fo,
                            page_data@ == pg,
                            cell_pointers@ == ptrs,
                            spec_parse_header(pg, page_num) == Ok::<
                                BTreePageHeader,
                                WalValidatorError,
                            >(header),
                            header.page_type == BTreePageType::TableLeaf,
                            header.spec_cell_pointers_res(pg, page_num) == Ok::<
                                Seq<u16>,
                                WalValidatorError,
                            >(ptrs),
                            stack_entry.last() == page_num,
                            table_scan_steps(cache, stack_entry, out0, fuel_entry)
                                == spec_collect_table_rowids(cache, root_page),
                            fuel_entry > 0,
                            stack_entry.len() > 0,
                            cell_idx <= ptrs.len(),
                            ptrs.len() <= 0xFFFF,
                            rowids@.len() >= out0.len(),
                            rowids@.subrange(0, out0.len() as int) == out0,
                            match table_leaf_entries(
                                pg,
                                ptrs,
                                page_num,
                                fo,
                                cell_idx as int,
                            ) {
                                Ok(rest) => table_leaf_entries(pg, ptrs, page_num, fo, 0)
                                    == Ok::<Seq<(i64, RowidLocation)>, WalValidatorError>(
                                    rowids@.skip(out0.len() as int) + rest,
                                ),
                                Err(e) => table_leaf_entries(pg, ptrs, page_num, fo, 0)
                                    == Err::<
                                    Seq<(i64, RowidLocation)>,
                                    WalValidatorError,
                                >(e),
                            },
                        decreases ptrs.len() - cell_idx,
                    {
                        let ghost acc = rowids@.skip(out0.len() as int);
                        let cell_ptr = cell_pointers[cell_idx];
                        let cell_offset = cell_ptr as usize;
                        if cell_offset < page_data.len() {
                            let cell_data = slice_subrange(
                                page_data.as_slice(),
                                cell_offset,
                                page_data.len(),
                            );
                            proof {
                                assert(cell_data@ =~= pg.skip(cell_ptr as int));
                            }
                            // Payload-size varint, then the rowid varint.
                            let (_, payload_len) = parse_varint_nonempty(cell_data);
                            if payload_len >= cell_data.len() {
                                proof {
                                    assert(table_leaf_cell(pg, ptrs[cell_idx as int])
                                        == Err::<Option<i64>, WalValidatorError>(
                                        WalValidatorError::UnexpectedEof,
                                    ));
                                    assert(table_leaf_entries(
                                        pg,
                                        ptrs,
                                        page_num,
                                        fo,
                                        cell_idx as int,
                                    ) == Err::<
                                        Seq<(i64, RowidLocation)>,
                                        WalValidatorError,
                                    >(WalValidatorError::UnexpectedEof));
                                    assert(table_leaf_entries(pg, ptrs, page_num, fo, 0)
                                        == Err::<
                                        Seq<(i64, RowidLocation)>,
                                        WalValidatorError,
                                    >(WalValidatorError::UnexpectedEof));
                                    assert(table_scan_page(cache, page_num) == Err::<
                                        (Seq<u32>, Seq<(i64, RowidLocation)>),
                                        WalValidatorError,
                                    >(WalValidatorError::UnexpectedEof));
                                    assert(table_scan_steps(
                                        cache,
                                        stack_entry,
                                        out0,
                                        fuel_entry,
                                    ) == Err::<
                                        Seq<(i64, RowidLocation)>,
                                        WalValidatorError,
                                    >(WalValidatorError::UnexpectedEof));
                                }
                                return Err(WalValidatorError::UnexpectedEof);
                            }
                            let rowid_slice = slice_subrange(
                                cell_data,
                                payload_len,
                                cell_data.len(),
                            );
                            let (rowid_raw, _) = parse_varint_nonempty(rowid_slice);
                            let rowid: i64 = if rowid_raw >= 0x8000000000000000 {
                                -((0xFFFFFFFFFFFFFFFFu64 - rowid_raw) as i64) - 1
                            } else {
                                rowid_raw as i64
                            };
                            let entry = (
                                rowid,
                                RowidLocation {
                                    page_number: page_num,
                                    cell_index: cell_idx as u16,
                                    frame_index,
                                },
                            );
                            proof {
                                assert(rowid_slice@ =~= pg.skip(cell_ptr as int).skip(
                                    varint_len(pg.skip(cell_ptr as int)),
                                ));
                                assert(table_leaf_cell(pg, ptrs[cell_idx as int])
                                    == Ok::<Option<i64>, WalValidatorError>(Some(rowid)));
                            }
                            rowids.push(entry);
                            proof {
                                assert(rowids@.subrange(0, out0.len() as int) =~= out0);
                                assert(rowids@.skip(out0.len() as int) =~= acc + seq![
                                    entry,
                                ]);
                                match table_leaf_entries(
                                    pg,
                                    ptrs,
                                    page_num,
                                    fo,
                                    cell_idx + 1,
                                ) {
                                    Ok(rest1) => {
                                        assert((acc + seq![entry]) + rest1 =~= acc
                                            + (seq![entry] + rest1));
                                    },
                                    Err(_) => {},
                                }
                            }
                        } else {
                            proof {
                                assert(table_leaf_cell(pg, ptrs[cell_idx as int])
                                    == Ok::<Option<i64>, WalValidatorError>(None));
                            }
                        }
                        cell_idx = cell_idx + 1;
                    }
                    proof {
                        assert(table_leaf_entries(pg, ptrs, page_num, fo, ptrs.len() as int)
                            == Ok::<Seq<(i64, RowidLocation)>, WalValidatorError>(
                            Seq::empty(),
                        ));
                        let acc = rowids@.skip(out0.len() as int);
                        assert(acc + Seq::<(i64, RowidLocation)>::empty() =~= acc);
                        assert(table_scan_page(cache, page_num) == Ok::<
                            (Seq<u32>, Seq<(i64, RowidLocation)>),
                            WalValidatorError,
                        >((Seq::empty(), acc)));
                        assert(stack@ =~= stack_entry.drop_last() + Seq::<u32>::empty());
                        assert(rowids@ =~= out0 + acc);
                    }
                },
                BTreePageType::TableInterior => {
                    let cell_pointers = match header.get_cell_pointers(
                        page_data.as_slice(),
                        page_num,
                    ) {
                        Ok(p) => p,
                        Err(e) => {
                            proof {
                                assert(table_scan_page(cache, page_num) == Err::<
                                    (Seq<u32>, Seq<(i64, RowidLocation)>),
                                    WalValidatorError,
                                >(e));
                                assert(table_scan_steps(
                                    cache,
                                    stack_entry,
                                    out0,
                                    fuel_entry,
                                ) == Err::<Seq<(i64, RowidLocation)>, WalValidatorError>(
                                    e,
                                ));
                            }
                            return Err(e);
                        },
                    };
                    let ghost ptrs = cell_pointers@;
                    let right_child = match header.right_child {
                        Some(rc) => rc,
                        None => {
                            proof {
                                assert(false);
                            }
                            return Err(WalValidatorError::UnexpectedEof);
                        },
                    };
                    let ghost stack_before = stack@;
                    push_interior_children(
                        &mut stack,
                        page_data.as_slice(),
                        &cell_pointers,
                        right_child,
                    );
                    proof {
                        let added = interior_children(pg, ptrs, 0);
                        assert(stack_before + added + seq![right_child] =~= stack_before
                            + (added + seq![right_child]));
                        assert(table_scan_page(cache, page_num) == Ok::<
                            (Seq<u32>, Seq<(i64, RowidLocation)>),
                            WalValidatorError,
                        >((added + seq![right_child], Seq::empty())));
                        assert(rowids@ =~= out0 + Seq::<(i64, RowidLocation)>::empty());
                        assert(stack@ =~= stack_entry.drop_last() + (added + seq![
                            right_child,
                        ]));
                    }
                },
                _ => {
                    proof {
                        assert(table_scan_page(cache, page_num) == Ok::<
                            (Seq<u32>, Seq<(i64, RowidLocation)>),
                            WalValidatorError,
                        >((Seq::empty(), Seq::empty())));
                        assert(stack@ =~= stack_entry.drop_last() + Seq::<u32>::empty());
                        assert(rowids@ =~= out0 + Seq::<(i64, RowidLocation)>::empty());
                    }
                },
            }
            proof {
                assert(table_scan_steps(cache, stack_entry, out0, fuel_entry)
                    == table_scan_steps(cache, stack@, rowids@, fuel as nat));
            }
        }

        Ok(rowids)
    }

    /// Parse a single schema-catalog cell into table or index information.
    /// Rows whose object type is neither a table nor an index, or whose
    /// root page is not positive, yield `None`; so do malformed cells that
    /// are reported as errors, which catalog scanning skips.
    pub fn parse_sqlite_master_cell(&self, page_data: &[u8], cell_offset: usize) -> (r:
        Result<Option<BTreeInfo>, WalValidatorError>)
        ensures
            ({
                let m = master_cell_info(page_data@, cell_offset as int);
                match r {
                    Ok(Some(info)) => m == Some(info@),
                    Ok(None) => m is None,
                    Err(_) => m is None,
                }
            }),
    {
        if cell_offset >= page_data.len() {
            return Err(WalValidatorError::CellPointerOutOfBounds { page_num: 1 });
        }

        let cell_data = slice_subrange(page_data, cell_offset, page_data.len());
        let ghost cd = page_data@.skip(cell_offset as int);
        proof {
            assert(cell_data@ =~= cd);
        }

        // Payload size, then the rowid (only the catalog row's position).
        let (payload_size, n1) = parse_varint_nonempty(cell_data);
        if n1 >= cell_data.len() {
            return Err(WalValidatorError::UnexpectedEof);
        }
        let rowid_slice = slice_subrange(cell_data, n1, cell_data.len());
        proof {
            assert(rowid_slice@ =~= cd.skip(n1 as int));
        }
        let (_rowid, n2) = parse_varint_nonempty(rowid_slice);
        let offset = n1 + n2;

        if payload_size > (cell_data.len() - offset) as u64 {
            // Could be overflow; skip this cell.
            return Ok(None);
        }
        let payload = slice_subrange(cell_data, offset, offset + payload_size as usize);
        proof {
            assert(payload@ =~= cd.subrange(
                offset as int,
                offset + varint_value(cd),
            ));
        }

        let (serial_types, header_size) = match parse_record_header(payload) {
            Ok(p) => p,
            Err(e) => {
                return Err(e);
            },
        };
        let ghost sts = record_header_types(payload@);

        // The catalog schema is: type, name, tbl_name, rootpage, sql.
        if serial_types.len() < 4 {
            return Ok(None);
        }

        let offsets = column_offsets(payload, &serial_types, header_size);

        let type_col = read_text_column(payload, &serial_types, &offsets, 0);
        let name_col = read_text_column(payload, &serial_types, &offsets, 1);
        let tbl_name_col = read_text_column(payload, &serial_types, &offsets, 2);
        let rootpage = read_int_column(payload, &serial_types, &offsets, 3);
        let sql_col = read_text_column(payload, &serial_types, &offsets, 4);

        let (obj_type, name, root_val) = match (type_col, name_col, rootpage) {
            (Some(t), Some(n), Some(rp)) => (t, n, rp),
            _ => {
                return Ok(None);
            },
        };

        // The engine stores the root page as a 64-bit integer; only its low
        // 32 bits name a page.
        let root_page: u32 = if root_val >= 0 {
            (root_val as u64 % 0x100000000) as u32
        } else {
            let bits: u64 = 0xFFFFFFFFFFFFFFFFu64 - (-(root_val + 1)) as u64;
            proof {
                assert(bits as int == root_val + 0x10000000000000000);
                lemma_mod_multiples_vanish(0x100000000, root_val as int, 0x100000000);
            }
            (bits % 0x100000000) as u32
        };
        proof {
            assert(root_page == u32_of_int(root_val as int));
        }

        let table_kw: Vec<u8> = vec![0x74u8, 0x61u8, 0x62u8, 0x6Cu8, 0x65u8];
        let index_kw: Vec<u8> = vec![0x69u8, 0x6Eu8, 0x64u8, 0x65u8, 0x78u8];
        let is_table = bytes_equal(obj_type.as_slice(), table_kw.as_slice());
        let is_index = bytes_equal(obj_type.as_slice(), index_kw.as_slice());
        proof {
            assert(table_kw@ =~= table_keyword());
            assert(index_kw@ =~= index_keyword());
        }

        if root_page > 0 && (is_table || is_index) {
            // An automatic index (made for a primary key or unique
            // constraint) is always unique; an explicit one is unique when
            // its SQL says so.
            let is_unique = if is_index {
                let prefix: Vec<u8> = vec![
                    0x73u8, 0x71u8, 0x6Cu8, 0x69u8, 0x74u8, 0x65u8, 0x5Fu8, 0x61u8,
                    0x75u8, 0x74u8, 0x6Fu8, 0x69u8, 0x6Eu8, 0x64u8, 0x65u8, 0x78u8,
                    0x5Fu8,
                ];
                proof {
                    assert(prefix@ =~= autoindex_prefix());
                }
                if bytes_start_with(name.as_slice(), prefix.as_slice()) {
                    true
                } else if let Some(ref sql) = sql_col {
                    let unique_kw: Vec<u8> = vec![
                        0x55u8, 0x4Eu8, 0x49u8, 0x51u8, 0x55u8, 0x45u8,
                    ];
                    proof {
                        assert(unique_kw@ =~= unique_keyword());
                    }
                    upper_contains(sql.as_slice(), unique_kw.as_slice())
                } else {
                    false
                }
            } else {
                false
            };

            return Ok(
                Some(
                    BTreeInfo {
                        root_page,
                        name: Some(name),
                        tbl_name: tbl_name_col,
                        sql: sql_col,
                        is_table,
                        is_unique,
                    },
                ),
            );
        }

        Ok(None)
    }

    /// Collect all keys from the index B-tree rooted at `root_page`, with
    /// the page and cell each was found at. Cells whose payload spills
    /// into overflow pages are skipped.
    pub fn collect_index_keys(&self, root_page: u32) -> (r: Result<
        Vec<(IndexKey, RowidLocation)>,
        WalValidatorError,
    >)
        requires
            self.spec_cache().wf(),
        ensures
            match r {
                Ok(v) => spec_collect_index_keys(self.spec_cache(), root_page) == Ok::<
                    Seq<(Seq<u8>, RowidLocation)>,
                    WalValidatorError,
                >(v@.map_values(|e: (IndexKey, RowidLocation)| (e.0.raw@, e.1))),
                Err(e) => spec_collect_index_keys(self.spec_cache(), root_page) == Err::<
                    Seq<(Seq<u8>, RowidLocation)>,
                    WalValidatorError,
                >(e),
            },
    {
        let ghost cache = *self.page_cache;
        let mut keys: Vec<(IndexKey, RowidLocation)> = Vec::new();
        let mut stack: Vec<u32> = Vec::new();
        stack.push(root_page);
        let mut fuel: u64 = self.page_cache.effective_page_count() as u64 + 1;
        proof {
            assert(stack@ =~= seq![root_page]);
            assert(keys@.map_values(|e: (IndexKey, RowidLocation)| (e.0.raw@, e.1)) =~= Seq::<
                (Seq<u8>, RowidLocation),
            >::empty());
        }

        while stack.len() > 0 && fuel > 0
            invariant
                self.spec_cache() == cache,
                cache.wf(),
                fuel <= spec_scan_fuel(cache),
                index_key_scan_steps(
                    cache,
                    stack@,
                    keys@.map_values(|e: (IndexKey, RowidLocation)| (e.0.raw@, e.1)),
                    fuel as nat,
                ) == spec_collect_index_keys(cache, root_page),
            decreases fuel,
        {
            let ghost stack_entry = stack@;
            let ghost fuel_entry = fuel as nat;
            fuel = fuel - 1;
            let page_num = match stack.pop() {
                Some(p) => p,
                None => {
                    proof {
                        assert(false);
                    }
                    return Err(WalValidatorError::UnexpectedEof);
                },
            };
            let ghost out0 = keys@.map_values(|e: (IndexKey, RowidLocation)| (e.0.raw@, e.1));
            proof {
                assert(stack_entry =~= stack@.push(page_num));
                assert(stack_entry.last() == page_num);
                assert(stack_entry.drop_last() =~= stack@);
            }

            let frame_index = self.page_cache.get_frame_index(page_num);
            let page_data = self.page_cache.get_page(page_num);
            let ghost pg = cache.spec_get_page(page_num);
            let (header, _) = match BTreePageHeader::parse(page_data.as_slice(), page_num)
            {
                Ok(h) => h,
                Err(e) => {
                    proof {
                        assert(index_key_scan_page(cache, page_num) == Err::<
                            (Seq<u32>, Seq<(Seq<u8>, RowidLocation)>),
                            WalValidatorError,
                        >(e));
                        assert(index_key_scan_steps(cache, stack_entry, out0, fuel_entry)
                            == Err::<Seq<(Seq<u8>, RowidLocation)>, WalValidatorError>(
                            e,
                        ));
                    }
                    return Err(e);
                },
            };

            match header.page_type {
                BTreePageType::IndexLeaf => {
                    let cell_pointers = match header.get_cell_pointers(
                        page_data.as_slice(),
                        page_num,
                    ) {
                        Ok(p) => p,
                        Err(e) => {
                            proof {
                                assert(index_key_scan_page(cache, page_num) == Err::<
                                    (Seq<u32>, Seq<(Seq<u8>, RowidLocation)>),
                                    WalValidatorError,
                                >(e));
                                assert(index_key_scan_steps(
                                    cache,
                                    stack_entry,
                                    out0,
                                    fuel_entry,
                                ) == Err::<
                                    Seq<(Seq<u8>, RowidLocation)>,
                                    WalValidatorError,
                                >(e));
                            }
                            return Err(e);
                        },
                    };
                    let ghost ptrs = cell_pointers@;
                    let ghost fo = cache.spec_frame_index(page_num);
                    proof {
                        assert(frame_index == fo);
                        let keysv = keys@.map_values(
                            |e: (IndexKey, RowidLocation)| (e.0.raw@, e.1),
                        );
                        assert(keysv.skip(out0.len() as int) =~= Seq::<
                            (Seq<u8>, RowidLocation),
                        >::empty());
                        assert(Seq::<(Seq<u8>, RowidLocation)>::empty()
                            + index_leaf_key_entries(pg, ptrs, page_num, fo, 0)
                            =~= index_leaf_key_entries(pg, ptrs, page_num, fo, 0));
                    }

                    let mut cell_idx: usize = 0;
                    while cell_idx < cell_pointers.len()
                        invariant
                            pg == cache.spec_get_page(page_num),
                            fo == cache.spec_frame_index(page_num),
                            frame_index == fo,
                            page_data@ == pg,
                            cell_pointers@ == ptrs,
                            cell_idx <= ptrs.len(),
                            ptrs.len() <= 0xFFFF,
                            keys@.map_values(
                                |e: (IndexKey, RowidLocation)| (e.0.raw@, e.1),
                            ).len() >= out0.len(),
                            keys@.map_values(
                                |e: (IndexKey, RowidLocation)| (e.0.raw@, e.1),
                            ).subrange(0, out0.len() as int) == out0,
                            index_leaf_key_entries(pg, ptrs, page_num, fo, 0)
                                == keys@.map_values(
                                |e: (IndexKey, RowidLocation)| (e.0.raw@, e.1),
                            ).skip(out0.len() as int) + index_leaf_key_entries(
                                pg,
                                ptrs,
                                page_num,
                                fo,
                                cell_idx as int,
                            ),
                        decreases ptrs.len() - cell_idx,
                    {
                        let ghost keysv0 = keys@.map_values(
                            |e: (IndexKey, RowidLocation)| (e.0.raw@, e.1),
                        );
                        let ghost acc = keysv0.skip(out0.len() as int);
                        let cell_ptr = cell_pointers[cell_idx];
                        let cell_offset = cell_ptr as usize;
                        if cell_offset < page_data.len() {
                            let cell_data = slice_subrange(
                                page_data.as_slice(),
                                cell_offset,
                                page_data.len(),
                            );
                            proof {
                                assert(cell_data@ =~= pg.skip(cell_ptr as int));
                            }
                            let (payload_size, payload_len) = parse_varint_nonempty(
                                cell_data,
                            );
                            if payload_size <= (cell_data.len() - payload_len) as u64 {
                                let payload = slice_subrange(
                                    cell_data,
                                    payload_len,
                                    payload_len + payload_size as usize,
                                );
                                proof {
                                    assert(payload@ =~= pg.skip(cell_ptr as int).subrange(
                                        varint_len(pg.skip(cell_ptr as int)),
                                        varint_len(pg.skip(cell_ptr as int))
                                            + varint_value(pg.skip(cell_ptr as int)),
                                    ));
                                    assert(index_cell_payload(pg, ptrs[cell_idx as int])
                                        == Some(payload@));
                                }
                                if let Ok(key) = extract_index_key(payload) {
                                    let entry = (
                                        key,
                                        RowidLocation {
                                            page_number: page_num,
                                            cell_index: cell_idx as u16,
                                            frame_index,
                                        },
                                    );
                                    proof {
                                        assert(index_leaf_cell_key(
                                            pg,
                                            ptrs[cell_idx as int],
                                        ) == Some(entry.0.raw@));
                                    }
                                    keys.push(entry);
                                    proof {
                                        let keysv = keys@.map_values(
                                            |e: (IndexKey, RowidLocation)| (
                                                e.0.raw@,
                                                e.1,
                                            ),
                                        );
                                        assert(keysv =~= keysv0.push(
                                            (entry.0.raw@, entry.1),
                                        ));
                                        assert(keysv.subrange(0, out0.len() as int)
                                            =~= out0);
                                        assert(keysv.skip(out0.len() as int) =~= acc
                                            + seq![(entry.0.raw@, entry.1)]);
                                        assert((acc + seq![(entry.0.raw@, entry.1)])
                                            + index_leaf_key_entries(
                                            pg,
                                            ptrs,
                                            page_num,
                                            fo,
                                            cell_idx + 1,
                                        ) =~= acc + (seq![(entry.0.raw@, entry.1)]
                                            + index_leaf_key_entries(
                                            pg,
                                            ptrs,
                                            page_num,
                                            fo,
                                            cell_idx + 1,
                                        )));
                                    }
                                } else {
                                    proof {
                                        assert(index_leaf_cell_key(
                                            pg,
                                            ptrs[cell_idx as int],
                                        ) is None);
                                    }
                                }
                            } else {
                                proof {
                                    assert(index_cell_payload(pg, ptrs[cell_idx as int])
                                        is None);
                                }
                            }
                        } else {
                            proof {
                                assert(index_cell_payload(pg, ptrs[cell_idx as int])
                                    is None);
                            }
                        }
                        cell_idx = cell_idx + 1;
                    }
                    proof {
                        assert(index_leaf_key_entries(
                            pg,
                            ptrs,
                            page_num,
                            fo,
                            ptrs.len() as int,
                        ) =~= Seq::<(Seq<u8>, RowidLocation)>::empty());
                        let keysv = keys@.map_values(
                            |e: (IndexKey, RowidLocation)| (e.0.raw@, e.1),
                        );
                        let acc = keysv.skip(out0.len() as int);
                        assert(acc + Seq::<(Seq<u8>, RowidLocation)>::empty() =~= acc);
                        assert(index_key_scan_page(cache, page_num) == Ok::<
                            (Seq<u32>, Seq<(Seq<u8>, RowidLocation)>),
                            WalValidatorError,
                        >((Seq::empty(), acc)));
                        assert(stack@ =~= stack_entry.drop_last() + Seq::<u32>::empty());
                        assert(keysv =~= out0 + acc);
                    }
                },
                BTreePageType::IndexInterior => {
                    let cell_pointers = match header.get_cell_pointers(
                        page_data.as_slice(),
                        page_num,
                    ) {
                        Ok(p) => p,
                        Err(e) => {
                            proof {
                                assert(index_key_scan_page(cache, page_num) == Err::<
                                    (Seq<u32>, Seq<(Seq<u8>, RowidLocation)>),
                                    WalValidatorError,
                                >(e));
                                assert(index_key_scan_steps(
                                    cache,
                                    stack_entry,
                                    out0,
                                    fuel_entry,
                                ) == Err::<
                                    Seq<(Seq<u8>, RowidLocation)>,
                                    WalValidatorError,
                                >(e));
                            }
                            return Err(e);
                        },
                    };
                    let ghost ptrs = cell_pointers@;
                    let right_child = match header.right_child {
                        Some(rc) => rc,
                        None => {
                            proof {
                                assert(false);
                            }
                            return Err(WalValidatorError::UnexpectedEof);
                        },
                    };
                    let ghost stack_before = stack@;
                    push_interior_children(
                        &mut stack,
                        page_data.as_slice(),
                        &cell_pointers,
                        right_child,
                    );
                    proof {
                        let added = interior_children(pg, ptrs, 0);
                        assert(stack_before + added + seq![right_child] =~= stack_before
                            + (added + seq![right_child]));
                        assert(index_key_scan_page(cache, page_num) == Ok::<
                            (Seq<u32>, Seq<(Seq<u8>, RowidLocation)>),
                            WalValidatorError,
                        >((added + seq![right_child], Seq::empty())));
                        assert(keys@.map_values(
                            |e: (IndexKey, RowidLocation)| (e.0.raw@, e.1),
                        ) =~= out0 + Seq::<(Seq<u8>, RowidLocation)>::empty());
                        assert(stack@ =~= stack_entry.drop_last() + (added + seq![
                            right_child,
                        ]));
                    }
                },
                _ => {
                    proof {
                        assert(index_key_scan_page(cache, page_num) == Ok::<
                            (Seq<u32>, Seq<(Seq<u8>, RowidLocation)>),
                            WalValidatorError,
                        >((Seq::empty(), Seq::empty())));
                        assert(stack@ =~= stack_entry.drop_last() + Seq::<u32>::empty());
                        assert(keys@.map_values(
                            |e: (IndexKey, RowidLocation)| (e.0.raw@, e.1),
                        ) =~= out0 + Seq::<(Seq<u8>, RowidLocation)>::empty());
                    }
                },
            }
            proof {
                assert(index_key_scan_steps(cache, stack_entry, out0, fuel_entry)
                    == index_key_scan_steps(
                    cache,
                    stack@,
                    keys@.map_values(|e: (IndexKey, RowidLocation)| (e.0.raw@, e.1)),
                    fuel as nat,
                ));
            }
        }

        Ok(keys)
    }

    /// Collect the rowids referenced by the index B-tree rooted at
    /// `root_page`: the value of the last column of each index entry.
    pub fn collect_index_rowids(&self, root_page: u32) -> (r: Result<
        Vec<i64>,
        WalValidatorError,
    >)
        requires
            self.spec_cache().wf(),
        ensures
            match r {
                Ok(v) => spec_collect_index_rowids(self.spec_cache(), root_page) == Ok::<
                    Seq<i64>,
                    WalValidatorError,
                >(v@),
                Err(e) => spec_collect_index_rowids(self.spec_cache(), root_page)
                    == Err::<Seq<i64>, WalValidatorError>(e),
            },
    {
        let ghost cache = *self.page_cache;
        let mut rowids: Vec<i64> = Vec::new();
        let mut stack: Vec<u32> = Vec::new();
        stack.push(root_page);
        let mut fuel: u64 = self.page_cache.effective_page_count() as u64 + 1;
        proof {
            assert(stack@ =~= seq![root_page]);
            assert(rowids@ =~= Seq::<i64>::empty());
        }

        while stack.len() > 0 && fuel > 0
            invariant
                self.spec_cache() == cache,
                cache.wf(),
                fuel <= spec_scan_fuel(cache),
                index_rowid_scan_steps(cache, stack@, rowids@, fuel as nat)
                    == spec_collect_index_rowids(cache, root_page),
            decreases fuel,
        {
            let ghost stack_entry = stack@;
            let ghost fuel_entry = fuel as nat;
            fuel = fuel - 1;
            let page_num = match stack.pop() {
                Some(p) => p,
                None => {
                    proof {
                        assert(false);
                    }
                    return Err(WalValidatorError::UnexpectedEof);
                },
            };
            let ghost out0 = rowids@;
            proof {
                assert(stack_entry =~= stack@.push(page_num));
                assert(stack_entry.last() == page_num);
                assert(stack_entry.drop_last() =~= stack@);
            }

            let page_data = self.page_cache.get_page(page_num);
            let ghost pg = cache.spec_get_page(page_num);
            let (header, _) = match BTreePageHeader::parse(page_data.as_slice(), page_num)
            {
                Ok(h) => h,
                Err(e) => {
                    proof {
                        assert(index_rowid_scan_page(cache, page_num) == Err::<
                            (Seq<u32>, Seq<i64>),
                            WalValidatorError,
                        >(e));
                        assert(index_rowid_scan_steps(
                            cache,
                            stack_entry,
                            out0,
                            fuel_entry,
                        ) == Err::<Seq<i64>, WalValidatorError>(e));
                    }
                    return Err(e);
                },
            };

            match header.page_type {
                BTreePageType::IndexLeaf => {
                    let cell_pointers = match header.get_cell_pointers(
                        page_data.as_slice(),
                        page_num,
                    ) {
                        Ok(p) => p,
                        Err(e) => {
                            proof {
                                assert(index_rowid_scan_page(cache, page_num) == Err::<
                                    (Seq<u32>, Seq<i64>),
                                    WalValidatorError,
                                >(e));
                                assert(index_rowid_scan_steps(
                                    cache,
                                    stack_entry,
                                    out0,
                                    fuel_entry,
                                ) == Err::<Seq<i64>, WalValidatorError>(e));
                            }
                            return Err(e);
                        },
                    };
                    let ghost ptrs = cell_pointers@;
                    proof {
                        assert(rowids@.skip(out0.len() as int) =~= Seq::<i64>::empty());
                        assert(Seq::<i64>::empty() + index_leaf_rowid_entries(
                            pg,
                            ptrs,
                            0,
                        ) =~= index_leaf_rowid_entries(pg, ptrs, 0));
                    }

                    let mut cell_idx: usize = 0;
                    while cell_idx < cell_pointers.len()
                        invariant
                            pg == cache.spec_get_page(page_num),
                            page_data@ == pg,
                            cell_pointers@ == ptrs,
                            cell_idx <= ptrs.len(),
                            ptrs.len() <= 0xFFFF,
                            rowids@.len() >= out0.len(),
                            rowids@.subrange(0, out0.len() as int) == out0,
                            index_leaf_rowid_entries(pg, ptrs, 0) == rowids@.skip(
                                out0.len() as int,
                            ) + index_leaf_rowid_entries(pg, ptrs, cell_idx as int),
                        decreases ptrs.len() - cell_idx,
                    {
                        let ghost acc = rowids@.skip(out0.len() as int);
                        let cell_ptr = cell_pointers[cell_idx];
                        let cell_offset = cell_ptr as usize;
                        if cell_offset < page_data.len() {
                            let cell_data = slice_subrange(
                                page_data.as_slice(),
                                cell_offset,
                                page_data.len(),
                            );
                            proof {
                                assert(cell_data@ =~= pg.skip(cell_ptr as int));
                            }
                            let (payload_size, payload_len) = parse_varint_nonempty(
                                cell_data,
                            );
                            if payload_size <= (cell_data.len() - payload_len) as u64 {
                                let payload = slice_subrange(
                                    cell_data,
                                    payload_len,
                                    payload_len + payload_size as usize,
                                );
                                proof {
                                    assert(payload@ =~= pg.skip(cell_ptr as int).subrange(
                                        varint_len(pg.skip(cell_ptr as int)),
                                        varint_len(pg.skip(cell_ptr as int))
                                            + varint_value(pg.skip(cell_ptr as int)),
                                    ));
                                    assert(index_cell_payload(pg, ptrs[cell_idx as int])
                                        == Some(payload@));
                                }
                                if let Ok(rowid) = extract_index_rowid(payload) {
                                    proof {
                                        assert(index_leaf_cell_rowid(
                                            pg,
                                            ptrs[cell_idx as int],
                                        ) == Some(rowid));
                                    }
                                    rowids.push(rowid);
                                    proof {
                                        assert(rowids@.subrange(0, out0.len() as int)
                                            =~= out0);
                                        assert(rowids@.skip(out0.len() as int) =~= acc
                                            + seq![rowid]);
                                        assert((acc + seq![rowid])
                                            + index_leaf_rowid_entries(
                                            pg,
                                            ptrs,
                                            cell_idx + 1,
                                        ) =~= acc + (seq![rowid]
                                            + index_leaf_rowid_entries(
                                            pg,
                                            ptrs,
                                            cell_idx + 1,
                                        )));
                                    }
                                } else {
                                    proof {
                                        assert(index_leaf_cell_rowid(
                                            pg,
                                            ptrs[cell_idx as int],
                                        ) is None);
                                    }
                                }
                            } else {
                                proof {
                                    assert(index_cell_payload(pg, ptrs[cell_idx as int])
                                        is None);
                                }
                            }
                        } else {
                            proof {
                                assert(index_cell_payload(pg, ptrs[cell_idx as int])
                                    is None);
                            }
                        }
                        cell_idx = cell_idx + 1;
                    }
                    proof {
                        assert(index_leaf_rowid_entries(pg, ptrs, ptrs.len() as int)
                            =~= Seq::<i64>::empty());
                        let acc = rowids@.skip(out0.len() as int);
                        assert(acc + Seq::<i64>::empty() =~= acc);
                        assert(index_rowid_scan_page(cache, page_num) == Ok::<
                            (Seq<u32>, Seq<i64>),
                            WalValidatorError,
                        >((Seq::empty(), acc)));
                        assert(stack@ =~= stack_entry.drop_last() + Seq::<u32>::empty());
                        assert(rowids@ =~= out0 + acc);
                    }
                },
                BTreePageType::IndexInterior => {
                    let cell_pointers = match header.get_cell_pointers(
                        page_data.as_slice(),
                        page_num,
                    ) {
                        Ok(p) => p,
                        Err(e) => {
                            proof {
                                assert(index_rowid_scan_page(cache, page_num) == Err::<
                                    (Seq<u32>, Seq<i64>),
                                    WalValidatorError,
                                >(e));
                                assert(index_rowid_scan_steps(
                                    cache,
                                    stack_entry,
                                    out0,
                                    fuel_entry,
                                ) == Err::<Seq<i64>, WalValidatorError>(e));
                            }
                            return Err(e);
                        },
                    };
                    let ghost ptrs = cell_pointers@;
                    let right_child = match header.right_child {
                        Some(rc) => rc,
                        None => {
                            proof {
                                assert(false);
                            }
                            return Err(WalValidatorError::UnexpectedEof);
                        },
                    };
                    let ghost stack_before = stack@;
                    push_interior_children(
                        &mut stack,
                        page_data.as_slice(),
                        &cell_pointers,
                        right_child,
                    );
                    proof {
                        let added = interior_children(pg, ptrs, 0);
                        assert(stack_before + added + seq![right_child] =~= stack_before
                            + (added + seq![right_child]));
                        assert(index_rowid_scan_page(cache, page_num) == Ok::<
                            (Seq<u32>, Seq<i64>),
                            WalValidatorError,
                        >((added + seq![right_child], Seq::empty())));
                        assert(rowids@ =~= out0 + Seq::<i64>::empty());
                        assert(stack@ =~= stack_entry.drop_last() + (added + seq![
                            right_child,
                        ]));
                    }
                },
                _ => {
                    proof {
                        assert(index_rowid_scan_page(cache, page_num) == Ok::<
                            (Seq<u32>, Seq<i64>),
                            WalValidatorError,
                        >((Seq::empty(), Seq::empty())));
                        assert(stack@ =~= stack_entry.drop_last() + Seq::<u32>::empty());
                        assert(rowids@ =~= out0 + Seq::<i64>::empty());
                    }
                },
            }
            proof {
                assert(index_rowid_scan_steps(cache, stack_entry, out0, fuel_entry)
                    == index_rowid_scan_steps(cache, stack@, rowids@, fuel as nat));
            }
        }

        Ok(rowids)
    }
}

} // verus!
