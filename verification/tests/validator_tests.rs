//! End-to-end tests over synthesized database and log images.

use wal_validator::btree::cell::encode_varint;
use wal_validator::btree::cell::extract_index_key;
use wal_validator::btree::cell::extract_index_rowid;
use wal_validator::btree::cell::hex_encode;
use wal_validator::btree::cell::parse_record_header;
use wal_validator::btree::cell::parse_signed_varint;
use wal_validator::btree::cell::parse_varint;
use wal_validator::btree::cell::serial_type_size;
use wal_validator::btree::page::BTreePageHeader;
use wal_validator::btree::page::BTreePageType;
use wal_validator::btree::scanner::BTreeScanner;
use wal_validator::btree::scanner::serial_type_content_size;
use wal_validator::db::header::DbHeader;
use wal_validator::error::WalValidatorError;
use wal_validator::validate;
use wal_validator::validator::page_cache::PageCache;
use wal_validator::validators::DuplicateDetails;
use wal_validator::validators::ValidatorConfig;
use wal_validator::wal::frame::FrameHeader;
use wal_validator::wal::header::WalHeader;
use wal_validator::wal::iterator::CommitIterator;
use wal_validator::btree::scanner::BTreeInfo;
use wal_validator::validators::IndexIntegrityValidator;
use wal_validator::validators::ValidationContext;
use wal_validator::validators::index_integrity::check_index_integrity;

const PAGE_SIZE: usize = 512;

/// A record column for fixture records.
enum Col<'a> {
    Null,
    Int(i64),
    Text(&'a str),
}

/// Serialize a record (header of serial types, then column data).
fn record(cols: &[Col]) -> Vec<u8> {
    let mut types: Vec<u8> = Vec::new();
    let mut body: Vec<u8> = Vec::new();
    for c in cols {
        match c {
            Col::Null => types.extend_from_slice(&encode_varint(0)),
            Col::Int(v) => {
                // Use the smallest of the 1/2/4/8-byte widths that fits.
                let v = *v;
                if v == 0 {
                    types.extend_from_slice(&encode_varint(8));
                } else if v == 1 {
                    types.extend_from_slice(&encode_varint(9));
                } else if (-128..128).contains(&v) {
                    types.extend_from_slice(&encode_varint(1));
                    body.push(v as u8);
                } else if (-32768..32768).contains(&v) {
                    types.extend_from_slice(&encode_varint(2));
                    body.extend_from_slice(&(v as i16).to_be_bytes());
                } else if (-2147483648..2147483648).contains(&v) {
                    types.extend_from_slice(&encode_varint(4));
                    body.extend_from_slice(&(v as i32).to_be_bytes());
                } else {
                    types.extend_from_slice(&encode_varint(6));
                    body.extend_from_slice(&v.to_be_bytes());
                }
            }
            Col::Text(s) => {
                types.extend_from_slice(&encode_varint(13 + 2 * s.len() as u64));
                body.extend_from_slice(s.as_bytes());
            }
        }
    }
    // The header length varint covers itself; one byte is always enough
    // for these fixtures.
    let hlen = 1 + types.len();
    assert!(hlen < 0x80);
    let mut out = vec![hlen as u8];
    out.extend_from_slice(&types);
    out.extend_from_slice(&body);
    out
}

/// A table-leaf cell: payload length, rowid, record payload.
fn table_leaf_cell(rowid: u64, payload: &[u8]) -> Vec<u8> {
    let mut out = encode_varint(payload.len() as u64);
    out.extend_from_slice(&encode_varint(rowid));
    out.extend_from_slice(payload);
    out
}

/// An index-leaf cell: payload length, record payload.
fn index_leaf_cell(payload: &[u8]) -> Vec<u8> {
    let mut out = encode_varint(payload.len() as u64);
    out.extend_from_slice(payload);
    out
}

/// Lay out a B-tree leaf page: header, cell pointer array, cells packed at
/// the page's end. `header_at` is 100 on page 1 and 0 elsewhere.
fn leaf_page(type_byte: u8, cells: &[Vec<u8>], header_at: usize) -> Vec<u8> {
    let mut page = vec![0u8; PAGE_SIZE];
    let mut content_end = PAGE_SIZE;
    let mut pointers: Vec<u16> = Vec::new();
    for cell in cells {
        content_end -= cell.len();
        page[content_end..content_end + cell.len()].copy_from_slice(cell);
        pointers.push(content_end as u16);
    }
    page[header_at] = type_byte;
    // first freeblock: none
    page[header_at + 1..header_at + 3].copy_from_slice(&0u16.to_be_bytes());
    page[header_at + 3..header_at + 5].copy_from_slice(&(cells.len() as u16).to_be_bytes());
    page[header_at + 5..header_at + 7].copy_from_slice(&(content_end as u16).to_be_bytes());
    page[header_at + 7] = 0;
    let ptr_start = header_at + 8;
    for (i, p) in pointers.iter().enumerate() {
        page[ptr_start + 2 * i..ptr_start + 2 * i + 2].copy_from_slice(&p.to_be_bytes());
    }
    page
}

/// A catalog row: (type, name, tbl_name, rootpage, sql).
fn catalog_row(kind: &str, name: &str, tbl: &str, rootpage: i64, sql: Option<&str>) -> Vec<u8> {
    let sql_col = match sql {
        Some(s) => Col::Text(s),
        None => Col::Null,
    };
    record(&[
        Col::Text(kind),
        Col::Text(name),
        Col::Text(tbl),
        Col::Int(rootpage),
        sql_col,
    ])
}

/// Assemble a database image: page 1 carries the file header and the
/// catalog leaf; further pages follow as given.
fn build_db(catalog_cells: &[Vec<u8>], pages: &[Vec<u8>]) -> Vec<u8> {
    let mut page1 = leaf_page(0x0D, catalog_cells, 100);
    // File header over the first 100 bytes.
    page1[0..16].copy_from_slice(b"SQLite format 3\0");
    page1[16..18].copy_from_slice(&(PAGE_SIZE as u16).to_be_bytes());
    let page_count = 1 + pages.len() as u32;
    page1[28..32].copy_from_slice(&page_count.to_be_bytes());
    page1[40..44].copy_from_slice(&1u32.to_be_bytes());
    page1[56..60].copy_from_slice(&1u32.to_be_bytes());

    let mut db = page1;
    for p in pages {
        assert_eq!(p.len(), PAGE_SIZE);
        db.extend_from_slice(p);
    }
    db
}

const WAL_MAGIC_BE_BYTES: u32 = 0x377f0682;
const SALT1: u32 = 0x11111111;
const SALT2: u32 = 0x22222222;

fn wal_checksum_pair(header: &WalHeader, data: &[u8], init: (u32, u32)) -> (u32, u32) {
    header.checksum(data, init)
}

/// Assemble a log image with the given frames; a frame's `db_size` of zero
/// marks it as a non-commit frame.
fn build_wal(frames: &[(u32, Vec<u8>, u32)]) -> Vec<u8> {
    let mut header = vec![0u8; 32];
    header[0..4].copy_from_slice(&WAL_MAGIC_BE_BYTES.to_be_bytes());
    header[4..8].copy_from_slice(&3007000u32.to_be_bytes());
    header[8..12].copy_from_slice(&(PAGE_SIZE as u32).to_be_bytes());
    header[12..16].copy_from_slice(&0u32.to_be_bytes());
    header[16..20].copy_from_slice(&SALT1.to_be_bytes());
    header[20..24].copy_from_slice(&SALT2.to_be_bytes());

    let wal_header = WalHeader::parse(&header).expect("fixture log header parses");
    let seed = wal_checksum_pair(&wal_header, &header[0..24], (0, 0));
    header[24..28].copy_from_slice(&seed.0.to_be_bytes());
    header[28..32].copy_from_slice(&seed.1.to_be_bytes());

    let mut wal = header;
    let mut running = seed;
    for (page_num, data, db_size) in frames {
        assert_eq!(data.len(), PAGE_SIZE);
        let mut fh = vec![0u8; 24];
        fh[0..4].copy_from_slice(&page_num.to_be_bytes());
        fh[4..8].copy_from_slice(&db_size.to_be_bytes());
        fh[8..12].copy_from_slice(&SALT1.to_be_bytes());
        fh[12..16].copy_from_slice(&SALT2.to_be_bytes());
        let c1 = wal_checksum_pair(&wal_header, &fh[0..8], running);
        let c2 = wal_checksum_pair(&wal_header, data, c1);
        fh[16..20].copy_from_slice(&c2.0.to_be_bytes());
        fh[20..24].copy_from_slice(&c2.1.to_be_bytes());
        running = c2;
        wal.extend_from_slice(&fh);
        wal.extend_from_slice(data);
    }
    wal
}

/// A log with a header and no frames.
fn empty_wal() -> Vec<u8> {
    build_wal(&[])
}

/// A clean single-table database: table t rooted at page 2 with the given
/// rowids.
fn clean_db(rowids: &[u64]) -> Vec<u8> {
    let cells: Vec<Vec<u8>> = rowids
        .iter()
        .map(|r| table_leaf_cell(*r, &record(&[Col::Int(*r as i64), Col::Text("x")])))
        .collect();
    let page2 = leaf_page(0x0D, &cells, 0);
    let catalog = vec![table_leaf_cell(
        1,
        &catalog_row(
            "table",
            "t",
            "t",
            2,
            Some("CREATE TABLE t(id INTEGER PRIMARY KEY, name TEXT)"),
        ),
    )];
    build_db(&catalog, &[page2])
}

// ---- varint and record codec ----

#[test]
fn test_varint_simple() {
    assert_eq!(parse_varint(&[0x00]).unwrap(), (0, 1));
    assert_eq!(parse_varint(&[0x7F]).unwrap(), (127, 1));
    assert_eq!(parse_varint(&[0x81, 0x00]).unwrap(), (128, 2));
    assert_eq!(parse_varint(&[0x82, 0x24]).unwrap(), (292, 2));
    // Nine-byte form: the last byte contributes all eight bits.
    let all_ones = [0xFFu8; 9];
    assert_eq!(parse_varint(&all_ones).unwrap(), (u64::MAX, 9));
    assert_eq!(
        parse_varint(&[]).unwrap_err(),
        WalValidatorError::UnexpectedEof
    );
}

#[test]
fn test_varint_round_trip_values() {
    for &n in &[
        0u64,
        1,
        127,
        128,
        300,
        16383,
        16384,
        1 << 20,
        1 << 27,
        (1 << 28) - 1,
        1 << 35,
        1 << 42,
        1 << 49,
        (1 << 56) - 1,
        1 << 56,
        u64::MAX,
    ] {
        let enc = encode_varint(n);
        assert!(!enc.is_empty() && enc.len() <= 9);
        let (v, used) = parse_varint(&enc).unwrap();
        assert_eq!(v, n);
        assert_eq!(used, enc.len());
    }
}

#[test]
fn test_signed_varint() {
    let enc = encode_varint(u64::MAX);
    let (v, _) = parse_signed_varint(&enc).unwrap();
    assert_eq!(v, -1);
}

#[test]
fn test_serial_type_sizes() {
    assert_eq!(serial_type_size(0), 0);
    assert_eq!(serial_type_size(1), 1);
    assert_eq!(serial_type_size(2), 2);
    assert_eq!(serial_type_size(3), 3);
    assert_eq!(serial_type_size(4), 4);
    assert_eq!(serial_type_size(5), 6);
    assert_eq!(serial_type_size(6), 8);
    assert_eq!(serial_type_size(7), 8);
    assert_eq!(serial_type_size(8), 0);
    assert_eq!(serial_type_size(9), 0);
    assert_eq!(serial_type_size(12), 0); // empty blob
    assert_eq!(serial_type_size(13), 0); // empty text
    assert_eq!(serial_type_size(18), 3); // blob of 3
    assert_eq!(serial_type_size(19), 3); // text of 3
    assert_eq!(serial_type_content_size(19), 3);
}

#[test]
fn test_record_header_parsing() {
    // Record with columns (text of 5, int8): header is [3, 23, 1].
    let rec = record(&[Col::Text("hello"), Col::Int(7)]);
    let (types, hsize) = parse_record_header(&rec).unwrap();
    assert_eq!(hsize, 3);
    assert_eq!(types, vec![23, 1]);
}

#[test]
fn test_extract_index_key_and_rowid() {
    // Index record (v=7, rowid=2): key keeps the header and v's byte.
    let rec = record(&[Col::Int(7), Col::Int(2)]);
    let key = extract_index_key(&rec).unwrap();
    assert_eq!(key.raw, vec![3, 1, 1, 7]);
    assert_eq!(extract_index_rowid(&rec).unwrap(), 2);
}

#[test]
fn test_hex_encode_bytes() {
    assert_eq!(hex_encode(&[0x00, 0xAB, 0x1f]), b"00ab1f".to_vec());
}

// ---- page headers ----

#[test]
fn test_page_header_parse() {
    let page = leaf_page(0x0D, &[table_leaf_cell(1, &record(&[Col::Null]))], 0);
    let (h, hsize) = BTreePageHeader::parse(&page, 2).unwrap();
    assert_eq!(h.page_type, BTreePageType::TableLeaf);
    assert_eq!(h.cell_count, 1);
    assert_eq!(hsize, 8);
    let ptrs = h.get_cell_pointers(&page, 2).unwrap();
    assert_eq!(ptrs.len(), 1);
}

#[test]
fn test_page_header_bad_type() {
    let page = vec![0x42u8; PAGE_SIZE];
    match BTreePageHeader::parse(&page, 2) {
        Err(WalValidatorError::InvalidPageType(b, p)) => {
            assert_eq!(b, 0x42);
            assert_eq!(p, 2);
        }
        other => panic!("expected InvalidPageType, got {:?}", other),
    }
}

// ---- database header ----

#[test]
fn test_db_header_parsing() {
    let db = clean_db(&[1]);
    let header = DbHeader::parse(&db).unwrap();
    assert!(header.page_size >= 512);
    assert!(header.page_size <= 65536);
    assert!(header.page_size.is_power_of_two());
    assert_eq!(header.page_size as usize, PAGE_SIZE);
    assert_eq!(header.page_count, 2);
}

#[test]
fn test_db_header_page_size_one_means_65536() {
    let mut db = clean_db(&[1]);
    db[16..18].copy_from_slice(&1u16.to_be_bytes());
    let header = DbHeader::parse(&db).unwrap();
    assert_eq!(header.page_size, 65536);
}

#[test]
fn test_db_header_bad_magic() {
    let mut db = clean_db(&[1]);
    db[0] = b'X';
    assert_eq!(DbHeader::parse(&db).unwrap_err(), WalValidatorError::InvalidDbMagic);
}

#[test]
fn test_db_header_bad_page_size() {
    let mut db = clean_db(&[1]);
    db[16..18].copy_from_slice(&300u16.to_be_bytes());
    assert_eq!(
        DbHeader::parse(&db).unwrap_err(),
        WalValidatorError::InvalidPageSize(300)
    );
}

// ---- log header, frames, checksums ----

#[test]
fn test_wal_header_parsing() {
    let wal = empty_wal();
    let wal_header = WalHeader::parse(&wal).unwrap();
    assert!(wal_header.page_size >= 512);
    assert_eq!(wal_header.magic, 0x377f0682);
    assert!(wal_header.big_endian_checksums);
    assert_eq!(wal_header.salt1, SALT1);
    assert_eq!(wal_header.salt2, SALT2);
}

#[test]
fn test_wal_header_le_magic() {
    let mut wal = empty_wal();
    wal[0..4].copy_from_slice(&0x377f0683u32.to_be_bytes());
    let wal_header = WalHeader::parse(&wal).unwrap();
    assert!(!wal_header.big_endian_checksums);
}

#[test]
fn test_wal_header_bad_magic() {
    let mut wal = empty_wal();
    wal[0..4].copy_from_slice(&0xDEADBEEFu32.to_be_bytes());
    assert_eq!(
        WalHeader::parse(&wal).unwrap_err(),
        WalValidatorError::InvalidWalMagic(0xDEADBEEF)
    );
}

#[test]
fn test_checksum_deterministic() {
    let wal = empty_wal();
    let header = WalHeader::parse(&wal).unwrap();
    let data = vec![7u8; 64];
    let a = header.checksum(&data, (3, 4));
    let b = header.checksum(&data, (3, 4));
    assert_eq!(a, b);
    // A trailing partial chunk is ignored.
    let mut longer = data.clone();
    longer.extend_from_slice(&[1, 2, 3]);
    assert_eq!(header.checksum(&longer, (3, 4)), a);
}

#[test]
fn test_frame_header_parse() {
    let mut fh = vec![0u8; 24];
    fh[0..4].copy_from_slice(&9u32.to_be_bytes());
    fh[4..8].copy_from_slice(&0u32.to_be_bytes());
    let h = FrameHeader::parse(&fh).unwrap();
    assert_eq!(h.page_number, 9);
    assert!(!h.is_commit());
}

// ---- commit iterator ----

#[test]
fn test_zero_frame_wal_yields_no_commits() {
    let mut it = CommitIterator::new(empty_wal()).unwrap();
    assert!(it.next_commit().unwrap().is_none());
}

#[test]
fn test_commit_grouping_and_indices() {
    let pa = vec![1u8; PAGE_SIZE];
    let pb = vec![2u8; PAGE_SIZE];
    let pc = vec![3u8; PAGE_SIZE];
    // Two commits: (pa, pb-commit), (pc-commit).
    let wal = build_wal(&[(5, pa, 0), (6, pb, 2), (7, pc, 2)]);
    let mut it = CommitIterator::new(wal).unwrap();
    let c0 = it.next_commit().unwrap().unwrap();
    assert_eq!(c0.index, 0);
    assert_eq!(c0.frames.len(), 2);
    assert_eq!(c0.frames[0].header.page_number, 5);
    assert_eq!(c0.frames[0].frame_index, 0);
    assert_eq!(c0.frames[1].frame_index, 1);
    assert_eq!(c0.db_size, 2);
    let c1 = it.next_commit().unwrap().unwrap();
    assert_eq!(c1.index, 1);
    assert_eq!(c1.frames.len(), 1);
    assert!(it.next_commit().unwrap().is_none());
}

#[test]
fn test_trailing_incomplete_commit_is_dropped() {
    let pa = vec![1u8; PAGE_SIZE];
    let pb = vec![2u8; PAGE_SIZE];
    // One commit, then a non-commit frame with no commit after it.
    let wal = build_wal(&[(5, pa, 2), (6, pb, 0)]);
    let mut it = CommitIterator::new(wal).unwrap();
    assert!(it.next_commit().unwrap().is_some());
    assert!(it.next_commit().unwrap().is_none());
}

#[test]
fn test_salt_rotation_ends_log() {
    let pa = vec![1u8; PAGE_SIZE];
    let pb = vec![2u8; PAGE_SIZE];
    let mut wal = build_wal(&[(5, pa, 2), (6, pb, 2)]);
    // Corrupt the second frame's salt: the log ends after the first commit.
    let off = 32 + (24 + PAGE_SIZE) + 8;
    wal[off] ^= 0xFF;
    let mut it = CommitIterator::new(wal).unwrap();
    assert!(it.next_commit().unwrap().is_some());
    assert!(it.next_commit().unwrap().is_none());
}

#[test]
fn test_checksum_corruption_is_fatal() {
    let pa = vec![1u8; PAGE_SIZE];
    let pb = vec![2u8; PAGE_SIZE];
    let mut wal = build_wal(&[(5, pa, 2), (6, pb, 2)]);
    // Flip one byte of the second frame's page data.
    let off = 32 + (24 + PAGE_SIZE) + 24 + 10;
    wal[off] ^= 0x01;
    let mut it = CommitIterator::new(wal).unwrap();
    assert!(it.next_commit().unwrap().is_some());
    assert_eq!(
        it.next_commit().unwrap_err(),
        WalValidatorError::ChecksumMismatch { frame_index: 1 }
    );
}

// ---- page cache ----

#[test]
fn test_page_cache_overlay_wins() {
    let db = clean_db(&[1, 2, 3]);
    let new_page2 = vec![0xABu8; PAGE_SIZE];
    let wal = build_wal(&[(2, new_page2.clone(), 2)]);
    let mut cache = PageCache::new(db.clone(), PAGE_SIZE as u32, 2);
    assert_eq!(cache.get_page(2), db[PAGE_SIZE..2 * PAGE_SIZE].to_vec());
    assert_eq!(cache.get_frame_index(2), None);

    let mut it = CommitIterator::new(wal).unwrap();
    let commit = it.next_commit().unwrap().unwrap();
    cache.apply_commit(&commit);
    assert_eq!(cache.get_page(2), new_page2);
    assert_eq!(cache.get_frame_index(2), Some(0));
    // A page in neither the base nor the overlay reads as zeroes.
    assert_eq!(cache.get_page(9), vec![0u8; PAGE_SIZE]);
    assert_eq!(cache.effective_page_count(), 2);
    cache.reset();
    assert_eq!(cache.get_frame_index(2), None);
}

// ---- catalog discovery ----

#[test]
fn test_discover_btrees_catalog_round_trip() {
    let page2 = leaf_page(0x0D, &[], 0);
    let page3 = leaf_page(0x0A, &[], 0);
    let catalog = vec![
        table_leaf_cell(
            1,
            &catalog_row("table", "u", "u", 2, Some("CREATE TABLE u(id INTEGER PRIMARY KEY, v INT UNIQUE)")),
        ),
        table_leaf_cell(2, &catalog_row("index", "sqlite_autoindex_u_1", "u", 3, None)),
    ];
    let db = build_db(&catalog, &[page2, page3]);
    let cache = PageCache::new(db, PAGE_SIZE as u32, 3);
    let scanner = BTreeScanner::new(&cache);
    let btrees = scanner.discover_btrees().unwrap();
    assert_eq!(btrees.len(), 2);
    let t = &btrees[0];
    assert_eq!(t.name.as_deref(), Some(b"u".as_slice()));
    assert_eq!(t.root_page, 2);
    assert!(t.is_table);
    let i = &btrees[1];
    assert_eq!(i.name.as_deref(), Some(b"sqlite_autoindex_u_1".as_slice()));
    assert_eq!(i.root_page, 3);
    assert!(!i.is_table);
    assert!(i.is_unique, "autoindexes are unique");
}

#[test]
fn test_unique_detection_from_sql() {
    let page2 = leaf_page(0x0D, &[], 0);
    let page3 = leaf_page(0x0A, &[], 0);
    let page4 = leaf_page(0x0A, &[], 0);
    let catalog = vec![
        table_leaf_cell(1, &catalog_row("table", "t", "t", 2, Some("CREATE TABLE t(a)"))),
        table_leaf_cell(
            2,
            &catalog_row("index", "iu", "t", 3, Some("create unique index iu on t(a)")),
        ),
        table_leaf_cell(
            3,
            &catalog_row("index", "ip", "t", 4, Some("CREATE INDEX ip ON t(a)")),
        ),
    ];
    let db = build_db(&catalog, &[page2, page3, page4]);
    let cache = PageCache::new(db, PAGE_SIZE as u32, 4);
    let scanner = BTreeScanner::new(&cache);
    let btrees = scanner.discover_btrees().unwrap();
    assert_eq!(btrees.len(), 3);
    assert!(btrees[1].is_unique, "case-insensitive UNIQUE in SQL");
    assert!(!btrees[2].is_unique);
}

// ---- scenarios ----

#[test]
fn test_validate_no_duplicates() {
    // A clean database and a zero-frame log: no issues, no commits.
    let db = clean_db(&[1, 2, 3]);
    let wal = empty_wal();
    let config = ValidatorConfig::default();
    let (reports, commits) = validate(db, wal, &config).unwrap();
    assert!(reports.is_empty(), "expected no duplicates, found: {:?}", reports);
    assert_eq!(commits, 0);
}

#[test]
fn test_validate_clean_committed_state() {
    // Base rows {1,2,3}; one commit replaces the table page with {1,2,3,4}.
    let db = clean_db(&[1, 2, 3]);
    let cells: Vec<Vec<u8>> = [1u64, 2, 3, 4]
        .iter()
        .map(|r| table_leaf_cell(*r, &record(&[Col::Int(*r as i64), Col::Text("x")])))
        .collect();
    let new_page2 = leaf_page(0x0D, &cells, 0);
    let wal = build_wal(&[(2, new_page2, 2)]);

    let (issues, commits) = validate(db.clone(), wal.clone(), &ValidatorConfig::default()).unwrap();
    assert!(issues.is_empty());
    assert_eq!(commits, 1);

    // After replay the collected rowid set is {1,2,3,4}.
    let mut cache = PageCache::new(db, PAGE_SIZE as u32, 2);
    let mut it = CommitIterator::new(wal).unwrap();
    let commit = it.next_commit().unwrap().unwrap();
    cache.apply_commit(&commit);
    let scanner = BTreeScanner::new(&cache);
    let rowids: Vec<i64> = scanner
        .collect_table_rowids(2)
        .unwrap()
        .into_iter()
        .map(|(r, _)| r)
        .collect();
    let mut sorted = rowids.clone();
    sorted.sort();
    assert_eq!(sorted, vec![1, 2, 3, 4]);
}

#[test]
fn test_duplicate_rowid_detected() {
    // A table leaf holding rowids {5, 5, 7} as the table's root.
    let cells: Vec<Vec<u8>> = [5u64, 5, 7]
        .iter()
        .map(|r| table_leaf_cell(*r, &record(&[Col::Null])))
        .collect();
    let page2 = leaf_page(0x0D, &cells, 0);
    let catalog = vec![table_leaf_cell(
        1,
        &catalog_row("table", "t", "t", 2, Some("CREATE TABLE t(a)")),
    )];
    let db = build_db(&catalog, &[page2]);
    let (issues, commits) = validate(db, empty_wal(), &ValidatorConfig::default()).unwrap();
    assert_eq!(commits, 0);
    assert_eq!(issues.len(), 1);
    let issue = &issues[0];
    assert_eq!(issue.validator, "duplicate-rowid");
    assert_eq!(issue.message, b"Found 1 duplicate rowid(s)".to_vec());
    match issue.duplicate_details.as_ref().unwrap() {
        DuplicateDetails::Rowid(dups) => {
            assert_eq!(dups.len(), 1);
            assert_eq!(dups[0].key, 5);
            assert_eq!(dups[0].locations.len(), 2);
            assert_eq!(dups[0].locations[0].page_number, 2);
            assert_eq!(dups[0].locations[0].cell_index, 0);
            assert_eq!(dups[0].locations[1].cell_index, 1);
            assert!(dups[0].is_intra_page());
        }
        other => panic!("expected rowid duplicates, got {:?}", other),
    }
}

#[test]
fn test_duplicate_unique_index_key_detected() {
    // Two index entries with identical keys under a unique autoindex; the
    // same entries under a non-unique index produce nothing.
    let r1 = record(&[Col::Int(7), Col::Int(2)]);
    let r2 = record(&[Col::Int(7), Col::Int(3)]);
    let index_cells = vec![index_leaf_cell(&r1), index_leaf_cell(&r2)];
    let page2 = leaf_page(
        0x0D,
        &[
            table_leaf_cell(2, &record(&[Col::Int(7), Col::Text("a")])),
            table_leaf_cell(3, &record(&[Col::Int(7), Col::Text("b")])),
        ],
        0,
    );
    let page3 = leaf_page(0x0A, &index_cells, 0);

    let catalog_unique = vec![
        table_leaf_cell(
            1,
            &catalog_row("table", "u", "u", 2, Some("CREATE TABLE u(id INTEGER PRIMARY KEY, v INT UNIQUE)")),
        ),
        table_leaf_cell(2, &catalog_row("index", "sqlite_autoindex_u_1", "u", 3, None)),
    ];
    let db = build_db(&catalog_unique, &[page2.clone(), page3.clone()]);
    let (issues, _) = validate(db, empty_wal(), &ValidatorConfig::default()).unwrap();
    assert_eq!(issues.len(), 1);
    let issue = &issues[0];
    assert_eq!(issue.validator, "duplicate-index-key");
    assert_eq!(issue.message, b"Found 1 duplicate key(s)".to_vec());
    match issue.duplicate_details.as_ref().unwrap() {
        DuplicateDetails::IndexKey(dups) => {
            assert_eq!(dups.len(), 1);
            assert_eq!(dups[0].locations.len(), 2);
        }
        other => panic!("expected index-key duplicates, got {:?}", other),
    }

    let catalog_plain = vec![
        table_leaf_cell(1, &catalog_row("table", "u", "u", 2, Some("CREATE TABLE u(id INTEGER PRIMARY KEY, v INT)"))),
        table_leaf_cell(2, &catalog_row("index", "iv", "u", 3, Some("CREATE INDEX iv ON u(v)"))),
    ];
    let db = build_db(&catalog_plain, &[page2, page3]);
    let (issues, _) = validate(db, empty_wal(), &ValidatorConfig::default()).unwrap();
    assert!(issues.is_empty(), "duplicates are legal in non-unique indexes");
}

#[test]
fn test_index_integrity_dangling_entry() {
    // Table with rowid {2}; index references {2, 3}: one dangling entry.
    let page2 = leaf_page(
        0x0D,
        &[table_leaf_cell(2, &record(&[Col::Int(7), Col::Text("a")]))],
        0,
    );
    let r1 = record(&[Col::Int(7), Col::Int(2)]);
    let r2 = record(&[Col::Int(9), Col::Int(3)]);
    let page3 = leaf_page(0x0A, &[index_leaf_cell(&r1), index_leaf_cell(&r2)], 0);
    let catalog = vec![
        table_leaf_cell(1, &catalog_row("table", "u", "u", 2, Some("CREATE TABLE u(a)"))),
        table_leaf_cell(2, &catalog_row("index", "iv", "u", 3, Some("CREATE INDEX iv ON u(a)"))),
    ];
    let db = build_db(&catalog, &[page2, page3]);
    let cache = PageCache::new(db.clone(), PAGE_SIZE as u32, 3);
    let ctx = ValidationContext::new(cache, None, ValidatorConfig::default());
    let issues = check_index_integrity(&ctx).unwrap();
    assert_eq!(issues.len(), 1);
    assert_eq!(
        issues[0].message,
        b"Index has 1 dangling entry(ies) referencing non-existent rows: [3]".to_vec()
    );
    let details = issues[0].integrity_details.as_ref().unwrap();
    assert!(details.missing.is_empty());
    assert_eq!(details.dangling, vec![3]);

    // The same dangling entry surfaces through a whole run: the
    // cross-check is part of the default validator set.
    let (issues, commits) = validate(db, empty_wal(), &ValidatorConfig::default()).unwrap();
    assert_eq!(commits, 0);
    assert_eq!(issues.len(), 1);
    assert_eq!(issues[0].validator, "index-integrity");
    let details = issues[0].integrity_details.as_ref().unwrap();
    assert!(details.missing.is_empty());
    assert_eq!(details.dangling, vec![3]);
}

#[test]
fn test_index_integrity_skips_partial_and_expression() {
    let mk = |sql: &str| BTreeInfo {
        root_page: 3,
        name: Some(b"i".to_vec()),
        tbl_name: Some(b"t".to_vec()),
        sql: Some(sql.as_bytes().to_vec()),
        is_table: false,
        is_unique: false,
    };
    assert!(IndexIntegrityValidator::should_skip_index(&mk(
        "CREATE INDEX i ON t(a) WHERE a > 0"
    )));
    assert!(IndexIntegrityValidator::should_skip_index(&mk(
        "CREATE INDEX i ON t((a+1))"
    )));
    assert!(IndexIntegrityValidator::should_skip_index(&mk(
        "CREATE INDEX i ON t(lower(a))"
    )));
    assert!(!IndexIntegrityValidator::should_skip_index(&mk(
        "CREATE INDEX i ON t(a)"
    )));
}

#[test]
fn test_validate_page_size_mismatch() {
    let db = clean_db(&[1]);
    let mut wal = empty_wal();
    wal[8..12].copy_from_slice(&1024u32.to_be_bytes());
    // Recompute the header checksum for the altered page size.
    let header_fields = wal[0..24].to_vec();
    let tmp_header = WalHeader {
        magic: 0x377f0682,
        format_version: 3007000,
        page_size: 1024,
        checkpoint_seq: 0,
        salt1: SALT1,
        salt2: SALT2,
        checksum1: 0,
        checksum2: 0,
        big_endian_checksums: true,
    };
    let seed = tmp_header.checksum(&header_fields, (0, 0));
    wal[24..28].copy_from_slice(&seed.0.to_be_bytes());
    wal[28..32].copy_from_slice(&seed.1.to_be_bytes());
    assert_eq!(
        validate(db, wal, &ValidatorConfig::default()).unwrap_err(),
        WalValidatorError::PageSizeMismatch { db_size: 512, wal_size: 1024 }
    );
}

#[test]
fn test_validate_checksum_corruption_aborts() {
    let db = clean_db(&[1, 2, 3]);
    let cells: Vec<Vec<u8>> = [1u64, 2, 3]
        .iter()
        .map(|r| table_leaf_cell(*r, &record(&[Col::Int(*r as i64), Col::Text("x")])))
        .collect();
    let new_page2 = leaf_page(0x0D, &cells, 0);
    let mut wal = build_wal(&[(2, new_page2, 2)]);
    let off = 32 + 24 + 100;
    wal[off] ^= 0x10;
    assert_eq!(
        validate(db, wal, &ValidatorConfig::default()).unwrap_err(),
        WalValidatorError::ChecksumMismatch { frame_index: 0 }
    );
}

/// Lay out a table-interior page with the given (child, key) cells and
/// right child.
fn table_interior_page(children: &[(u32, u64)], right_child: u32) -> Vec<u8> {
    let mut page = vec![0u8; PAGE_SIZE];
    let mut content_end = PAGE_SIZE;
    let mut pointers: Vec<u16> = Vec::new();
    for (child, key) in children {
        let mut cell = child.to_be_bytes().to_vec();
        cell.extend_from_slice(&encode_varint(*key));
        content_end -= cell.len();
        page[content_end..content_end + cell.len()].copy_from_slice(&cell);
        pointers.push(content_end as u16);
    }
    page[0] = 0x05;
    page[1..3].copy_from_slice(&0u16.to_be_bytes());
    page[3..5].copy_from_slice(&(children.len() as u16).to_be_bytes());
    page[5..7].copy_from_slice(&(content_end as u16).to_be_bytes());
    page[7] = 0;
    page[8..12].copy_from_slice(&right_child.to_be_bytes());
    for (i, p) in pointers.iter().enumerate() {
        page[12 + 2 * i..12 + 2 * i + 2].copy_from_slice(&p.to_be_bytes());
    }
    page
}

#[test]
fn test_multi_page_tree_traversal() {
    // Table rooted at an interior page: left leaf {1,2}, right leaf {3,4}.
    let left = leaf_page(
        0x0D,
        &[
            table_leaf_cell(1, &record(&[Col::Null])),
            table_leaf_cell(2, &record(&[Col::Null])),
        ],
        0,
    );
    let right = leaf_page(
        0x0D,
        &[
            table_leaf_cell(3, &record(&[Col::Null])),
            table_leaf_cell(4, &record(&[Col::Null])),
        ],
        0,
    );
    let root = table_interior_page(&[(3, 2)], 4);
    let catalog = vec![table_leaf_cell(
        1,
        &catalog_row("table", "t", "t", 2, Some("CREATE TABLE t(a)")),
    )];
    let db = build_db(&catalog, &[root, left, right]);
    let cache = PageCache::new(db, PAGE_SIZE as u32, 4);
    let scanner = BTreeScanner::new(&cache);
    let mut rowids: Vec<i64> = scanner
        .collect_table_rowids(2)
        .unwrap()
        .into_iter()
        .map(|(r, _)| r)
        .collect();
    rowids.sort();
    assert_eq!(rowids, vec![1, 2, 3, 4]);
}

#[test]
fn test_validate_bad_wal_magic() {
    let db = clean_db(&[1]);
    let mut wal = empty_wal();
    wal[0..4].copy_from_slice(&0x12345678u32.to_be_bytes());
    assert_eq!(
        validate(db, wal, &ValidatorConfig::default()).unwrap_err(),
        WalValidatorError::InvalidWalMagic(0x12345678)
    );
}

#[test]
fn test_validate_truncated_wal_header() {
    let db = clean_db(&[1]);
    let wal = vec![0u8; 10];
    assert_eq!(
        validate(db, wal, &ValidatorConfig::default()).unwrap_err(),
        WalValidatorError::UnexpectedEof
    );
}

#[test]
fn test_validate_truncated_db_header() {
    let db = vec![0u8; 50];
    assert_eq!(
        validate(db, empty_wal(), &ValidatorConfig::default()).unwrap_err(),
        WalValidatorError::UnexpectedEof
    );
}

#[test]
fn test_effective_page_count_grows_with_log() {
    let db = clean_db(&[1]);
    let new_page = vec![0x0Du8; PAGE_SIZE];
    let wal = build_wal(&[(7, new_page, 7)]);
    let mut cache = PageCache::new(db, PAGE_SIZE as u32, 2);
    assert_eq!(cache.effective_page_count(), 2);
    let mut it = CommitIterator::new(wal).unwrap();
    let commit = it.next_commit().unwrap().unwrap();
    cache.apply_commit(&commit);
    assert_eq!(cache.effective_page_count(), 7);
}

#[test]
fn test_int_column_sign_extension() {
    // Index record with a 24-bit last column: header [3, 0, 3], NULL key,
    // then three data bytes. 0xFF0000 sign-extends to -65536.
    let rec = vec![3u8, 0, 3, 0xFF, 0x00, 0x00];
    assert_eq!(extract_index_rowid(&rec).unwrap(), -65536);

    // 48-bit last column: 0x800000000000 sign-extends to the most negative
    // 48-bit value.
    let rec6 = vec![3u8, 0, 5, 0x80, 0, 0, 0, 0, 0];
    assert_eq!(extract_index_rowid(&rec6).unwrap(), -(1i64 << 47));

    // The serial-type constants 8 and 9 decode to 0 and 1 with no data.
    assert_eq!(extract_index_rowid(&[3u8, 0, 8]).unwrap(), 0);
    assert_eq!(extract_index_rowid(&[3u8, 0, 9]).unwrap(), 1);

    // A non-integral last column (text) is rejected.
    assert_eq!(
        extract_index_rowid(&[3u8, 0, 19, b'a', b'b', b'c']).unwrap_err(),
        WalValidatorError::UnexpectedEof
    );
}

#[test]
fn test_record_header_truncated() {
    // The declared header length exceeds the payload: rejected.
    assert_eq!(
        parse_record_header(&[9u8, 1]).unwrap_err(),
        WalValidatorError::UnexpectedEof
    );
    assert_eq!(
        parse_record_header(&[]).unwrap_err(),
        WalValidatorError::UnexpectedEof
    );
}
