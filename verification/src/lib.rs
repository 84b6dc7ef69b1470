//! Offline structural validator for a single-file embedded relational
//! database that uses a write-ahead log.
//!
//! Given the bytes of a base database file and of its companion log, the
//! crate replays the log commit by commit on top of the base pages, walks
//! every B-tree reachable through the schema catalog, and reports
//! structural problems a correct engine would never produce: duplicate
//! rowids in table B-trees, duplicate keys in unique-index B-trees, and
//! divergence between a table's rowid set and the rowids referenced by its
//! indexes.
//!
//! All file reading, argument handling and report printing live outside
//! this crate; every function here computes over in-memory bytes.

pub mod bytes;
pub mod error;
pub mod text;

pub mod btree;
pub mod db;
pub mod validator;
pub mod validators;
pub mod wal;

use vstd::prelude::*;

use crate::db::header::DbHeader;
use crate::db::header::db_magic;
use crate::db::header::decoded_page_size;
use crate::db::header::valid_page_size;
use crate::error::WalValidatorError;
use crate::validator::page_cache::PageCache;
use crate::validator::page_cache::store_frames;
use crate::wal::frame::Frame;
use crate::validators::ValidationContext;
use crate::validators::ValidatorKind;
use crate::validators::duplicate_index_key::spec_index_key_validator;
use crate::validators::duplicate_rowid::spec_rowid_validator;
use crate::validators::index_integrity::spec_integrity_validator;
use crate::validators::issue::ValidationIssueV;
use crate::validators::ValidationIssue;
use crate::validators::ValidatorConfig;
use crate::validators::enabled_validators;
use crate::wal::header::wal_header_at;
use crate::wal::header::WAL_MAGIC_BE;
use crate::wal::header::WAL_MAGIC_LE;
use crate::wal::iterator::CommitIterator;
use crate::wal::header::WalHeader;
use crate::wal::iterator::clean_scan_end;
use crate::wal::iterator::scan_fails_at;
use crate::wal::iterator::spec_frame_data;
use crate::wal::iterator::spec_frame_header;
use crate::wal::iterator::count_commits;
use crate::wal::iterator::frame_valid;
use crate::wal::iterator::frame_avail;
use crate::wal::iterator::salt_match;
use crate::wal::iterator::checksum_match;

verus! {


/// The frames of an emitted commit witness their own validity, and each
/// carries exactly one page of payload.
proof fn lemma_commit_frames(
    wal: Seq<u8>,
    hdr: crate::wal::header::WalHeader,
    fi0: int,
    frames: Seq<crate::wal::frame::Frame>,
)
    requires
        forall|k: int|
            0 <= k < frames.len() ==> crate::wal::iterator::frame_matches(
                wal,
                hdr,
                fi0 + k,
                #[trigger] frames[k],
            ),
    ensures
        forall|m: int|
            fi0 <= m < fi0 + frames.len() ==> #[trigger] frame_valid(wal, hdr, m),
        forall|k: int|
            0 <= k < frames.len() ==> (#[trigger] frames[k]).page_data@.len()
                == hdr.page_size,
{
    assert forall|m: int|
        fi0 <= m < fi0 + frames.len() implies #[trigger] frame_valid(wal, hdr, m) by {
        assert(crate::wal::iterator::frame_matches(wal, hdr, m, frames[m - fi0]));
    }
    assert forall|k: int|
        0 <= k < frames.len() implies (#[trigger] frames[k]).page_data@.len()
        == hdr.page_size by {
        assert(crate::wal::iterator::frame_matches(wal, hdr, fi0 + k, frames[k]));
        assert(frames[k].page_data@ == crate::wal::iterator::spec_frame_data(
            wal,
            hdr.page_size,
            fi0 + k,
        ));
    }
}


/// Pull the next commit for replay, distilling the iterator's contract to
/// what the replay loop needs: the emitted frames are valid and one page
/// each, indices advance in step, and a clean end is marked as such.
#[verifier::spinoff_prover]
fn read_next_commit(it: &mut CommitIterator) -> (r: Result<
    Option<crate::wal::iterator::Commit>,
    WalValidatorError,
>)
    requires
        old(it).wf(),
        !old(it).spec_finished(),
    ensures
        final(it).wf(),
        final(it).spec_data() == old(it).spec_data(),
        final(it).spec_header() == old(it).spec_header(),
        final(it).spec_frame_index() >= old(it).spec_frame_index(),
        ({
            let data = old(it).spec_data();
            let hdr = old(it).spec_header();
            let fi0 = old(it).spec_frame_index();
            let fi1 = final(it).spec_frame_index();
            match r {
                Ok(Some(c)) => {
                    &&& !final(it).spec_finished()
                    &&& c.index as int == old(it).spec_commit_index()
                    &&& final(it).spec_commit_index() == old(it).spec_commit_index() + 1
                    &&& fi1 > fi0
                    &&& fi1 <= data.len()
                    &&& c.frames@.len() == fi1 - fi0
                    &&& forall|k: int|
                        0 <= k < c.frames@.len()
                            ==> crate::wal::iterator::frame_matches(
                            data,
                            hdr,
                            fi0 + k,
                            #[trigger] c.frames@[k],
                        )
                    &&& forall|k: int|
                        0 <= k < c.frames@.len() - 1
                            ==> (#[trigger] c.frames@[k]).header.db_size_after_commit
                            == 0
                    &&& c.frames@.last().header.db_size_after_commit != 0
                },
                Ok(None) => {
                    &&& final(it).spec_commit_index() == old(it).spec_commit_index()
                    &&& fi1 <= data.len()
                    &&& forall|m: int|
                        fi0 <= m < fi1 ==> #[trigger] frame_valid(data, hdr, m)
                    &&& (!frame_avail(data, hdr.page_size, fi1) || !salt_match(
                        data,
                        hdr,
                        fi1,
                    ))
                },
                Err(e) => {
                    &&& e == (WalValidatorError::ChecksumMismatch {
                        frame_index: fi1 as u64,
                    })
                    &&& forall|m: int|
                        fi0 <= m < fi1 ==> #[trigger] frame_valid(data, hdr, m)
                    &&& frame_avail(data, hdr.page_size, fi1)
                    &&& salt_match(data, hdr, fi1)
                    &&& !checksum_match(data, hdr, fi1)
                },
            }
        }),
{
    let ghost data = it.spec_data();
    let ghost hdr = it.spec_header();
    let ghost fi0 = it.spec_frame_index();
    let r = it.next_commit();
    proof {
        match r {
            Ok(Some(ref c)) => {
                let fi1 = it.spec_frame_index();
                assert(fi1 >= 1);
                assert(fi1 <= data.len()) by (nonlinear_arith)
                    requires
                        32 + fi1 * (24 + hdr.page_size) <= data.len(),
                ;
            },
            Ok(None) => {
                let fi1 = it.spec_frame_index();
                if fi1 > 0 {
                    assert(fi1 <= data.len()) by (nonlinear_arith)
                        requires
                            32 + fi1 * (24 + hdr.page_size) <= data.len(),
                    ;
                } else {
                    assert(fi1 <= data.len());
                }
                assert forall|m: int| fi0 <= m < fi1 implies #[trigger] frame_valid(
                    data,
                    hdr,
                    m,
                ) by {}
            },
            Err(_) => {
                let fi1 = it.spec_frame_index();
                assert forall|m: int| fi0 <= m < fi1 implies #[trigger] frame_valid(
                    data,
                    hdr,
                    m,
                ) by {}
            },
        }
    }
    r
}

/// A page cache freshly built over the database image `db`: empty overlay
/// and the image's own page size and count.
pub open spec fn fresh_cache(db: Seq<u8>, c: PageCache) -> bool {
    &&& c.wf()
    &&& c.spec_overlay() == Map::<u32, (Seq<u8>, u64)>::empty()
    &&& c.spec_page_size() as int == decoded_page_size(db)
    &&& c.spec_db_page_count() == crate::bytes::be32(db, 28)
    &&& c.spec_base().spec_data() == db
}

/// What one whole validation pass over a state reports: the duplicate-rowid
/// issues, then the duplicate-index-key issues, then the index-integrity
/// issues.
#[verifier::opaque]
pub open spec fn pass_issues(cache: PageCache, ci: Option<u64>) -> Result<
    Seq<ValidationIssueV>,
    WalValidatorError,
> {
    match spec_rowid_validator(cache, ci) {
        Err(e) => Err(e),
        Ok(a) => match spec_index_key_validator(cache, ci) {
            Err(e) => Err(e),
            Ok(b) => match spec_integrity_validator(cache, ci) {
                Err(e) => Err(e),
                Ok(c) => Ok(a + b + c),
            },
        },
    }
}

/// The overlay after storing the log's frames `lo` to `hi` (exclusive) in
/// order on top of `m`, straight from the log bytes.
pub open spec fn store_wal_range(
    m: Map<u32, (Seq<u8>, u64)>,
    wal: Seq<u8>,
    hdr: WalHeader,
    lo: int,
    hi: int,
) -> Map<u32, (Seq<u8>, u64)>
    decreases hi - lo,
{
    if lo >= hi {
        m
    } else {
        store_wal_range(
            m.insert(
                spec_frame_header(wal, hdr.page_size, lo).page_number,
                (spec_frame_data(wal, hdr.page_size, lo), lo as u64),
            ),
            wal,
            hdr,
            lo + 1,
            hi,
        )
    }
}

/// Storing a commit's frames is the same as storing the log range they
/// were read from.
proof fn lemma_store_frames_is_range(
    m: Map<u32, (Seq<u8>, u64)>,
    frames: Seq<Frame>,
    wal: Seq<u8>,
    hdr: WalHeader,
    lo: int,
)
    requires
        0 <= lo,
        forall|k: int|
            0 <= k < frames.len() ==> (#[trigger] frames[k]).header == spec_frame_header(
                wal,
                hdr.page_size,
                lo + k,
            ),
        forall|k: int|
            0 <= k < frames.len() ==> (#[trigger] frames[k]).page_data@
                == spec_frame_data(wal, hdr.page_size, lo + k),
        forall|k: int|
            0 <= k < frames.len() ==> (#[trigger] frames[k]).frame_index == lo + k,
    ensures
        store_frames(m, frames) == store_wal_range(m, wal, hdr, lo, lo + frames.len()),
    decreases frames.len(),
{
    if frames.len() > 0 {
        let m1 = m.insert(
            spec_frame_header(wal, hdr.page_size, lo).page_number,
            (spec_frame_data(wal, hdr.page_size, lo), lo as u64),
        );
        assert(crate::validator::page_cache::store_frame(m, frames[0]) == m1);
        let tail = frames.drop_first();
        assert(forall|k: int|
            0 <= k < tail.len() ==> #[trigger] tail[k] == frames[k + 1]);
        lemma_store_frames_is_range(m1, tail, wal, hdr, lo + 1);
    }
}

/// The shape of the `k`-th replayed state: a well-formed cache over the
/// same base image, whose overlay extends the previous state's overlay by
/// one commit's worth of valid frames, the last of them commit-marked.
pub open spec fn replay_link(
    db: Seq<u8>,
    wal: Seq<u8>,
    chain: Seq<PageCache>,
    ends: Seq<int>,
    k: int,
) -> bool {
    let hdr = wal_header_at(wal);
    &&& chain[k].wf()
    &&& chain[k].spec_page_size() == hdr.page_size
    &&& chain[k].spec_base().spec_data() == db
    &&& ends[k] < ends[k + 1]
    &&& forall|m: int| ends[k] <= m < ends[k + 1] ==> #[trigger] frame_valid(wal, hdr, m)
    &&& forall|m: int|
        ends[k] <= m < ends[k + 1] - 1 ==> #[trigger] spec_frame_header(
            wal,
            hdr.page_size,
            m,
        ).db_size_after_commit == 0
    &&& spec_frame_header(wal, hdr.page_size, ends[k + 1] - 1).db_size_after_commit != 0
    &&& chain[k].spec_overlay() == store_wal_range(
        if k == 0 {
            Map::<u32, (Seq<u8>, u64)>::empty()
        } else {
            chain[k - 1].spec_overlay()
        },
        wal,
        hdr,
        ends[k],
        ends[k + 1],
    )
}

/// A replay chain: one cache per commit, with contiguous frame ranges
/// starting at the front of the log.
pub open spec fn replay_chain(
    db: Seq<u8>,
    wal: Seq<u8>,
    chain: Seq<PageCache>,
    ends: Seq<int>,
) -> bool {
    &&& ends.len() == chain.len() + 1
    &&& ends[0] == 0
    &&& forall|k: int| 0 <= k < chain.len() ==> #[trigger] replay_link(db, wal, chain, ends, k)
}

/// Every state in the chain has a successful validation pass.
pub open spec fn chain_passes_ok(chain: Seq<PageCache>) -> bool {
    forall|k: int|
        0 <= k < chain.len() ==> pass_issues(#[trigger] chain[k], Some(k as u64)) is Ok
}

/// The concatenated issue lists of the passes over the chain, from
/// position `i` on.
pub open spec fn chain_issues(chain: Seq<PageCache>, i: int) -> Seq<ValidationIssueV>
    decreases chain.len() - i,
{
    if i < 0 || i >= chain.len() {
        Seq::empty()
    } else {
        (match pass_issues(chain[i], Some(i as u64)) {
            Ok(s) => s,
            Err(_) => Seq::empty(),
        }) + chain_issues(chain, i + 1)
    }
}

/// Appending one state to the chain appends its pass's issues.
proof fn lemma_chain_issues_snoc(chain: Seq<PageCache>, c: PageCache, i: int)
    requires
        0 <= i <= chain.len(),
    ensures
        chain_issues(chain.push(c), i) == chain_issues(chain, i) + (match pass_issues(
            c,
            Some(chain.len() as u64),
        ) {
            Ok(s) => s,
            Err(_) => Seq::empty(),
        }),
    decreases chain.len() - i,
{
    let pc = (match pass_issues(c, Some(chain.len() as u64)) {
        Ok(s) => s,
        Err(_) => Seq::<ValidationIssueV>::empty(),
    });
    if i == chain.len() {
        assert(chain.push(c)[i] == c);
        assert(chain_issues(chain.push(c), i + 1) =~= Seq::<ValidationIssueV>::empty());
        assert(pc + Seq::<ValidationIssueV>::empty() =~= pc);
        assert(chain_issues(chain, i) =~= Seq::<ValidationIssueV>::empty());
        assert(Seq::<ValidationIssueV>::empty() + pc =~= pc);
    } else {
        assert(chain.push(c)[i] == chain[i]);
        lemma_chain_issues_snoc(chain, c, i + 1);
        let head = (match pass_issues(chain[i], Some(i as u64)) {
            Ok(s) => s,
            Err(_) => Seq::<ValidationIssueV>::empty(),
        });
        assert((head + chain_issues(chain, i + 1)) + pc =~= head + (chain_issues(
            chain,
            i + 1,
        ) + pc));
    }
}

/// The driver's replay bookkeeping: the issues so far are the base pass
/// plus one pass per replayed commit, and the chain of replayed states
/// tracks the log exactly.
#[verifier::opaque]
pub open spec fn replay_state(
    db: Seq<u8>,
    wal: Seq<u8>,
    chain: Seq<PageCache>,
    ends: Seq<int>,
    overlay: Map<u32, (Seq<u8>, u64)>,
    allv: Seq<ValidationIssueV>,
    basev: Seq<ValidationIssueV>,
    total: int,
    fi: int,
) -> bool {
    &&& allv == basev + chain_issues(chain, 0)
    &&& chain.len() == total
    &&& ends.len() == chain.len() + 1
    &&& ends[0] == 0
    &&& ends.last() == fi
    &&& replay_chain(db, wal, chain, ends)
    &&& chain_passes_ok(chain)
    &&& overlay == (if chain.len() == 0 {
        Map::<u32, (Seq<u8>, u64)>::empty()
    } else {
        chain.last().spec_overlay()
    })
}

/// Extending a replay chain by one commit's worth of frames keeps it a
/// replay chain.
#[verifier::spinoff_prover]
proof fn lemma_extend_replay_chain(
    db: Seq<u8>,
    wal: Seq<u8>,
    chain: Seq<PageCache>,
    ends: Seq<int>,
    ck: PageCache,
    fi0: int,
    fi1: int,
    frames: Seq<Frame>,
)
    requires
        replay_chain(db, wal, chain, ends),
        ends.len() == chain.len() + 1,
        ends.last() == fi0,
        ck.wf(),
        ck.spec_page_size() == wal_header_at(wal).page_size,
        ck.spec_base().spec_data() == db,
        0 <= fi0 < fi1,
        frames.len() == fi1 - fi0,
        ck.spec_overlay() == store_frames(
            if chain.len() == 0 {
                Map::<u32, (Seq<u8>, u64)>::empty()
            } else {
                chain.last().spec_overlay()
            },
            frames,
        ),
        forall|k: int|
            0 <= k < frames.len() ==> crate::wal::iterator::frame_matches(
                wal,
                wal_header_at(wal),
                fi0 + k,
                #[trigger] frames[k],
            ),
        forall|k: int|
            0 <= k < frames.len() - 1
                ==> (#[trigger] frames[k]).header.db_size_after_commit == 0,
        frames.last().header.db_size_after_commit != 0,
    ensures
        replay_chain(db, wal, chain.push(ck), ends.push(fi1)),
{
    let hdr = wal_header_at(wal);
    let chain2 = chain.push(ck);
    let ends2 = ends.push(fi1);
    let prev = if chain.len() == 0 {
        Map::<u32, (Seq<u8>, u64)>::empty()
    } else {
        chain.last().spec_overlay()
    };
    assert forall|k: int| 0 <= k < frames.len() implies {
        &&& (#[trigger] frames[k]).header == spec_frame_header(wal, hdr.page_size, fi0 + k)
        &&& frames[k].page_data@ == spec_frame_data(wal, hdr.page_size, fi0 + k)
        &&& frames[k].frame_index == fi0 + k
        &&& frame_valid(wal, hdr, fi0 + k)
    } by {
        assert(crate::wal::iterator::frame_matches(wal, hdr, fi0 + k, frames[k]));
    }
    assert forall|m: int| fi0 <= m < fi1 implies #[trigger] frame_valid(wal, hdr, m) by {
        assert(crate::wal::iterator::frame_matches(wal, hdr, m, frames[m - fi0]));
    }
    lemma_store_frames_is_range(prev, frames, wal, hdr, fi0);
    assert(chain2.last() == ck);
    assert(ends2[0] == 0);
    assert(ends2.last() == fi1);

    assert forall|m: int|
        fi0 <= m < fi1 - 1 implies #[trigger] spec_frame_header(
        wal,
        hdr.page_size,
        m,
    ).db_size_after_commit == 0 by {
        assert(frames[m - fi0].header == spec_frame_header(wal, hdr.page_size, m));
    }
    assert(frames.last() == frames[fi1 - fi0 - 1]);
    assert(spec_frame_header(wal, hdr.page_size, fi1 - 1).db_size_after_commit != 0);

    assert forall|k: int| 0 <= k < chain2.len() implies #[trigger] replay_link(
        db,
        wal,
        chain2,
        ends2,
        k,
    ) by {
        if k < chain.len() {
            assert(replay_link(db, wal, chain, ends, k));
            assert(chain2[k] == chain[k]);
            assert(ends2[k] == ends[k]);
            assert(ends2[k + 1] == ends[k + 1]);
            if k > 0 {
                assert(chain2[k - 1] == chain[k - 1]);
            }
        } else {
            assert(chain2[k] == ck);
            assert(ends2[k] == ends.last());
            assert(ends2[k + 1] == fi1);
            if k > 0 {
                assert(chain2[k - 1] == chain.last());
            }
        }
    }
}

/// Extending the replay bookkeeping by one commit: the new state's pass
/// issues land at the end, and the chain still tracks the log.
#[verifier::spinoff_prover]
proof fn lemma_extend_chain(
    db: Seq<u8>,
    wal: Seq<u8>,
    chain: Seq<PageCache>,
    ends: Seq<int>,
    ck: PageCache,
    fi0: int,
    fi1: int,
    frames: Seq<Frame>,
    passv: Seq<ValidationIssueV>,
    allv_start: Seq<ValidationIssueV>,
    basev: Seq<ValidationIssueV>,
)
    requires
        replay_state(
            db,
            wal,
            chain,
            ends,
            if chain.len() == 0 {
                Map::<u32, (Seq<u8>, u64)>::empty()
            } else {
                chain.last().spec_overlay()
            },
            allv_start,
            basev,
            chain.len() as int,
            fi0,
        ),
        pass_issues(ck, Some(chain.len() as u64)) == Ok::<
            Seq<ValidationIssueV>,
            WalValidatorError,
        >(passv),
        ck.wf(),
        ck.spec_page_size() == wal_header_at(wal).page_size,
        ck.spec_base().spec_data() == db,
        0 <= fi0 < fi1,
        frames.len() == fi1 - fi0,
        ck.spec_overlay() == store_frames(
            if chain.len() == 0 {
                Map::<u32, (Seq<u8>, u64)>::empty()
            } else {
                chain.last().spec_overlay()
            },
            frames,
        ),
        forall|k: int|
            0 <= k < frames.len() ==> crate::wal::iterator::frame_matches(
                wal,
                wal_header_at(wal),
                fi0 + k,
                #[trigger] frames[k],
            ),
        forall|k: int|
            0 <= k < frames.len() - 1
                ==> (#[trigger] frames[k]).header.db_size_after_commit == 0,
        frames.last().header.db_size_after_commit != 0,
    ensures
        replay_state(
            db,
            wal,
            chain.push(ck),
            ends.push(fi1),
            ck.spec_overlay(),
            allv_start + passv,
            basev,
            chain.len() as int + 1,
            fi1,
        ),
{
    reveal(crate::replay_state);
    let chain2 = chain.push(ck);
    let ends2 = ends.push(fi1);
    lemma_extend_replay_chain(db, wal, chain, ends, ck, fi0, fi1, frames);
    assert(chain2.last() == ck);
    assert(ends2[0] == 0);
    assert(ends2.last() == fi1);

    assert forall|k: int| 0 <= k < chain2.len() implies pass_issues(
        #[trigger] chain2[k],
        Some(k as u64),
    ) is Ok by {
        if k < chain.len() {
            assert(pass_issues(chain[k], Some(k as u64)) is Ok);
            assert(chain2[k] == chain[k]);
        } else {
            assert(chain2[k] == ck);
        }
    }

    lemma_chain_issues_snoc(chain, ck, 0);
    assert((basev + chain_issues(chain, 0)) + passv =~= basev + (chain_issues(chain, 0)
        + passv));
}

/// A failing run's error, pinned: either the log's rolling checksum broke
/// at an exact frame after a valid prefix, or a validation pass failed on
/// the base state or on a replayed state.
pub open spec fn replay_failure(db: Seq<u8>, wal: Seq<u8>, e: WalValidatorError) -> bool {
    ||| exists|k: int|
        0 <= k && #[trigger] scan_fails_at(wal, wal_header_at(wal), k) && e == (
        WalValidatorError::ChecksumMismatch { frame_index: k as u64 })
    ||| exists|c: PageCache|
        #[trigger] fresh_cache(db, c) && pass_issues(c, None) == Err::<
            Seq<ValidationIssueV>,
            WalValidatorError,
        >(e)
    ||| exists|chain: Seq<PageCache>, ends: Seq<int>, c: PageCache, fi1: int|
        #[trigger] replay_chain(db, wal, chain.push(c), ends.push(fi1))
            && chain_passes_ok(chain) && pass_issues(c, Some(chain.len() as u64))
            == Err::<Seq<ValidationIssueV>, WalValidatorError>(e)
}

/// What [`validate`] guarantees of its result on given database and log
/// images: every rejection is pinned to the first malformed input or, for
/// a run that got under way, to a checksum break or a failed pass at an
/// exact state; a successful run counts exactly the commit frames of the
/// log's maximal valid prefix.
pub open spec fn validate_post(
    db: Seq<u8>,
    wal: Seq<u8>,
    r: Result<(Vec<ValidationIssue>, u64), WalValidatorError>,
) -> bool {
    match r {
        Ok((issues, total)) => {
            &&& db.len() >= 100
            &&& db.subrange(0, 16) == db_magic()
            &&& valid_page_size(decoded_page_size(db))
            &&& wal.len() >= 32
            &&& (crate::bytes::be32(wal, 0) == WAL_MAGIC_BE || crate::bytes::be32(wal, 0)
                == WAL_MAGIC_LE)
            &&& wal_header_at(wal).page_size as int == decoded_page_size(db)
            &&& exists|n: int|
                0 <= n && #[trigger] clean_scan_end(wal, wal_header_at(wal), n) && total
                    as int == count_commits(wal, wal_header_at(wal), n)
            &&& exists|c: PageCache, chain: Seq<PageCache>, ends: Seq<int>|
                {
                    &&& #[trigger] fresh_cache(db, c)
                    &&& #[trigger] replay_chain(db, wal, chain, ends)
                    &&& chain.len() == total
                    &&& chain_passes_ok(chain)
                    &&& match pass_issues(c, None) {
                        Ok(base) => issues@.map_values(|i: ValidationIssue| i@) == base
                            + chain_issues(chain, 0),
                        Err(_) => false,
                    }
                }
        },
        Err(e) => {
            if db.len() < 100 {
                e == WalValidatorError::UnexpectedEof
            } else if db.subrange(0, 16) != db_magic() {
                e == WalValidatorError::InvalidDbMagic
            } else if !valid_page_size(decoded_page_size(db)) {
                e == WalValidatorError::InvalidPageSize(decoded_page_size(db) as u32)
            } else if wal.len() < 32 {
                e == WalValidatorError::UnexpectedEof
            } else if crate::bytes::be32(wal, 0) != WAL_MAGIC_BE && crate::bytes::be32(
                wal,
                0,
            ) != WAL_MAGIC_LE {
                e == WalValidatorError::InvalidWalMagic(crate::bytes::be32(wal, 0))
            } else if wal_header_at(wal).page_size as int != decoded_page_size(db) {
                e == (WalValidatorError::PageSizeMismatch {
                    db_size: decoded_page_size(db) as u32,
                    wal_size: wal_header_at(wal).page_size,
                })
            } else {
                // A run that got under way can fail only as `replay_failure`
                // says: a checksum break at an exact frame, or a failed
                // pass on the base state or on a replayed state.
                replay_failure(db, wal, e)
            }
        },
    }
}

/// Run every validator once over the context's current state, appending
/// their issues. On success the appended block is exactly the state's
/// pass issues; on failure the pass fails with exactly that error.
#[verifier::spinoff_prover]
fn run_passes(
    ctx: &ValidationContext,
    validators: &Vec<ValidatorKind>,
    all_issues: &mut Vec<ValidationIssue>,
) -> (r: Result<(), WalValidatorError>)
    requires
        ctx.page_cache.wf(),
        validators@.len() == 3,
        validators@[0] is DuplicateRowid,
        validators@[1] is DuplicateIndexKey,
        validators@[2] is IndexIntegrity,
    ensures
        match r {
            Ok(_) => {
                &&& pass_issues(ctx.page_cache, ctx.commit_index) is Ok
                &&& final(all_issues)@.map_values(|i: ValidationIssue| i@) == old(all_issues)@.map_values(|i: ValidationIssue| i@) + pass_issues(
                    ctx.page_cache,
                    ctx.commit_index,
                ).unwrap()
            },
            Err(e) => pass_issues(ctx.page_cache, ctx.commit_index) == Err::<
                Seq<ValidationIssueV>,
                WalValidatorError,
            >(e),
        },
{
    proof {
        reveal(crate::pass_issues);
    }
    let ghost allv_start = all_issues@.map_values(|i: ValidationIssue| i@);
    let mut vj: usize = 0;
    let ghost mut passv = Seq::<ValidationIssueV>::empty();
    while vj < validators.len()
        invariant
            validators@.len() == 3,
            validators@[0] is DuplicateRowid,
            validators@[1] is DuplicateIndexKey,
            validators@[2] is IndexIntegrity,
            ctx.page_cache.wf(),
            vj <= validators@.len(),
            allv_start == old(all_issues)@.map_values(|i: ValidationIssue| i@),
            all_issues@.map_values(|i: ValidationIssue| i@) == allv_start + passv,
            vj == 0 ==> passv == Seq::<ValidationIssueV>::empty(),
            vj == 1 ==> spec_rowid_validator(ctx.page_cache, ctx.commit_index) == Ok::<
                Seq<ValidationIssueV>,
                WalValidatorError,
            >(passv),
            vj == 2 ==> (spec_rowid_validator(ctx.page_cache, ctx.commit_index)
                matches Ok(a) && spec_index_key_validator(
                ctx.page_cache,
                ctx.commit_index,
            ) matches Ok(b) && passv == a + b),
            vj == 3 ==> pass_issues(ctx.page_cache, ctx.commit_index) == Ok::<
                Seq<ValidationIssueV>,
                WalValidatorError,
            >(passv),
        decreases validators@.len() - vj,
    {
        let ghost allv0 = all_issues@.map_values(|i: ValidationIssue| i@);
        let mut issues = match validators[vj].run(ctx) {
            Ok(is) => is,
            Err(e) => {
                proof {
                    reveal(crate::pass_issues);
                }
                return Err(e);
            },
        };
        let ghost newv = issues@.map_values(|i: ValidationIssue| i@);
        all_issues.append(&mut issues);
        proof {
            reveal(crate::pass_issues);
            assert(all_issues@.map_values(|i: ValidationIssue| i@) =~= allv0 + newv);
            if vj == 0 {
                assert(Seq::<ValidationIssueV>::empty() + newv =~= newv);
                assert(allv0 + newv =~= allv_start + newv);
            } else {
                assert((allv_start + passv) + newv =~= allv_start + (passv + newv));
            }
            passv = passv + newv;
            if vj == 0 {
                assert(passv =~= newv);
            }
        }
        vj = vj + 1;
    }
    Ok(())
}

/// Every frame before the chain's last range end is valid: the ranges are
/// contiguous from the front of the log.
proof fn lemma_chain_valid(
    db: Seq<u8>,
    wal: Seq<u8>,
    chain: Seq<PageCache>,
    ends: Seq<int>,
    m: int,
)
    requires
        replay_chain(db, wal, chain, ends),
        0 <= m < ends.last(),
        ends.len() == chain.len() + 1,
    ensures
        frame_valid(wal, wal_header_at(wal), m),
    decreases chain.len(),
{
    if chain.len() > 0 {
        let lk = chain.len() - 1;
        assert(replay_link(db, wal, chain, ends, lk));
        if m >= ends[lk] {
            assert(frame_valid(wal, wal_header_at(wal), m));
        } else {
            let chain1 = chain.drop_last();
            let ends1 = ends.drop_last();
            assert(ends1.len() == chain1.len() + 1);
            assert(ends1[0] == ends[0]);
            assert forall|k: int| 0 <= k < chain1.len() implies #[trigger] replay_link(
                db,
                wal,
                chain1,
                ends1,
                k,
            ) by {
                assert(replay_link(db, wal, chain, ends, k));
                assert(chain1[k] == chain[k]);
                assert(ends1[k] == ends[k]);
                assert(ends1[k + 1] == ends[k + 1]);
                if k > 0 {
                    assert(chain1[k - 1] == chain[k - 1]);
                }
            }
            assert(ends1.last() == ends[lk]);
            lemma_chain_valid(db, wal, chain1, ends1, m);
        }
    }
}

/// One step of the replay loop: read the next commit, apply it, run the
/// passes, and extend the replay bookkeeping. Returns the updated chain
/// and range ends, and whether a commit was processed (`false` means the
/// log ended cleanly).
#[verifier::spinoff_prover]
#[verifier::rlimit(100)]
fn replay_step(
    commit_iter: &mut CommitIterator,
    ctx: &mut ValidationContext,
    validators: &Vec<ValidatorKind>,
    all_issues: &mut Vec<ValidationIssue>,
    total_commits: &mut u64,
    Ghost(db): Ghost<Seq<u8>>,
    Ghost(basev): Ghost<Seq<ValidationIssueV>>,
    Ghost(chain): Ghost<Seq<PageCache>>,
    Ghost(ends): Ghost<Seq<int>>,
) -> (r: Result<(bool, Ghost<(Seq<PageCache>, Seq<int>)>), WalValidatorError>)
    requires
        ({
            let wal = old(commit_iter).spec_data();
            let hdr = old(commit_iter).spec_header();
            &&& hdr == wal_header_at(wal)
            &&& old(ctx).page_cache.wf()
            &&& old(ctx).page_cache.spec_page_size() == hdr.page_size
            &&& old(ctx).page_cache.spec_base().spec_data() == db
            &&& validators@.len() == 3
            &&& validators@[0] is DuplicateRowid
            &&& validators@[1] is DuplicateIndexKey
            &&& validators@[2] is IndexIntegrity
            &&& old(commit_iter).wf()
            &&& !old(commit_iter).spec_finished()
            &&& *old(total_commits) as int == old(commit_iter).spec_commit_index()
            &&& replay_state(
                db,
                wal,
                chain,
                ends,
                old(ctx).page_cache.spec_overlay(),
                old(all_issues)@.map_values(|i: ValidationIssue| i@),
                basev,
                *old(total_commits) as int,
                old(commit_iter).spec_frame_index(),
            )
            &&& old(commit_iter).spec_frame_index() <= wal.len()
        }),
    ensures
        ({
            let wal = old(commit_iter).spec_data();
            let hdr = old(commit_iter).spec_header();
            &&& final(commit_iter).spec_data() == wal
            &&& final(commit_iter).spec_header() == hdr
            &&& final(commit_iter).wf()
            &&& final(ctx).page_cache.wf()
            &&& final(ctx).page_cache.spec_page_size() == hdr.page_size
            &&& final(ctx).page_cache.spec_base().spec_data() == db
            &&& final(commit_iter).spec_frame_index() >= old(commit_iter).spec_frame_index()
            &&& match r {
                Ok((more, g)) => {
                    let (chain2, ends2) = g@;
                    &&& replay_state(
                        db,
                        wal,
                        chain2,
                        ends2,
                        final(ctx).page_cache.spec_overlay(),
                        final(all_issues)@.map_values(|i: ValidationIssue| i@),
                        basev,
                        *final(total_commits) as int,
                        ends2.last(),
                    )
                    &&& final(commit_iter).spec_frame_index() <= wal.len()
                    &&& if more {
                        &&& !final(commit_iter).spec_finished()
                        &&& *final(total_commits) as int == final(commit_iter).spec_commit_index()
                        &&& final(commit_iter).spec_frame_index() > old(commit_iter).spec_frame_index()
                        &&& ends2.last() == final(commit_iter).spec_frame_index()
                    } else {
                        &&& clean_scan_end(wal, hdr, final(commit_iter).spec_frame_index())
                        &&& *final(total_commits) as int == count_commits(
                            wal,
                            hdr,
                            final(commit_iter).spec_frame_index(),
                        )
                    }
                },
                Err(e) => replay_failure(db, wal, e),
            }
        }),
{
    let ghost wal = commit_iter.spec_data();
    let ghost hdr = commit_iter.spec_header();
    let ghost fi0 = commit_iter.spec_frame_index();
    let commit = match read_next_commit(commit_iter) {
        Ok(Some(c)) => c,
        Ok(None) => {
            proof {
                reveal(crate::replay_state);
                let n = commit_iter.spec_frame_index();
                assert(ends.last() == fi0);
                assert forall|m: int| 0 <= m < n implies #[trigger] frame_valid(
                    wal,
                    hdr,
                    m,
                ) by {
                    if m < fi0 {
                        lemma_chain_valid(db, wal, chain, ends, m);
                    }
                }
                assert(clean_scan_end(wal, hdr, n));
                assert(replay_state(
                    db,
                    wal,
                    chain,
                    ends,
                    ctx.page_cache.spec_overlay(),
                    all_issues@.map_values(|i: ValidationIssue| i@),
                    basev,
                    *total_commits as int,
                    ends.last(),
                ));
            }
            return Ok((false, Ghost((chain, ends))));
        },
        Err(e) => {
            proof {
                reveal(crate::replay_state);
                let k = commit_iter.spec_frame_index();
                assert(ends.last() == fi0);
                assert forall|m: int| 0 <= m < k implies #[trigger] frame_valid(
                    wal,
                    hdr,
                    m,
                ) by {
                    if m < fi0 {
                        lemma_chain_valid(db, wal, chain, ends, m);
                    }
                }
                assert(scan_fails_at(wal, hdr, k));
                assert(replay_failure(db, wal, e));
            }
            return Err(e);
        },
    };
    proof {
        crate::wal::iterator::lemma_count_commits_bound(wal, hdr, fi0);
        lemma_commit_frames(wal, hdr, fi0, commit.frames@);
        reveal(crate::replay_state);
        assert(*total_commits < 0xFFFFFFFFFFFFFFFFu64);
    }
    *total_commits = *total_commits + 1;

    // Apply the commit to the page cache, then run every validator on the
    // new state.
    ctx.page_cache.apply_commit(&commit);
    ctx.commit_index = Some(commit.index);
    let ghost fi1 = commit_iter.spec_frame_index();

    let ghost allv_start = all_issues@.map_values(|i: ValidationIssue| i@);
    match run_passes(ctx, validators, all_issues) {
        Ok(_) => {},
        Err(e) => {
            proof {
                reveal(crate::replay_state);
                assert(commit.index as int == chain.len());
                lemma_extend_replay_chain(
                    db,
                    wal,
                    chain,
                    ends,
                    ctx.page_cache,
                    fi0,
                    fi1,
                    commit.frames@,
                );
                assert(pass_issues(ctx.page_cache, Some(chain.len() as u64)) == Err::<
                    Seq<ValidationIssueV>,
                    WalValidatorError,
                >(e));
                assert(replay_failure(db, wal, e));
            }
            return Err(e);
        },
    }
    let ghost passv = pass_issues(ctx.page_cache, ctx.commit_index).unwrap();

    // Record the replayed state in the ghost bookkeeping.
    proof {
        assert(commit.index as int == chain.len());
        lemma_extend_chain(
            db,
            wal,
            chain,
            ends,
            ctx.page_cache,
            fi0,
            fi1,
            commit.frames@,
            passv,
            allv_start,
            basev,
        );
    }
    let ghost chain2 = chain.push(ctx.page_cache);
    let ghost ends2 = ends.push(fi1);
    Ok((true, Ghost((chain2, ends2))))
}

/// Assemble the success half of `validate_post` from the replay
/// bookkeeping at the end of the log.
#[verifier::spinoff_prover]
proof fn lemma_finish(
    db: Seq<u8>,
    wal: Seq<u8>,
    c0: PageCache,
    basev: Seq<ValidationIssueV>,
    chain: Seq<PageCache>,
    ends: Seq<int>,
    issues: Vec<ValidationIssue>,
    total: u64,
    n: int,
)
    requires
        db.len() >= 100,
        db.subrange(0, 16) == db_magic(),
        valid_page_size(decoded_page_size(db)),
        wal.len() >= 32,
        (crate::bytes::be32(wal, 0) == WAL_MAGIC_BE || crate::bytes::be32(wal, 0)
            == WAL_MAGIC_LE),
        wal_header_at(wal).page_size as int == decoded_page_size(db),
        fresh_cache(db, c0),
        pass_issues(c0, None) == Ok::<Seq<ValidationIssueV>, WalValidatorError>(basev),
        replay_state(
            db,
            wal,
            chain,
            ends,
            if chain.len() == 0 {
                Map::<u32, (Seq<u8>, u64)>::empty()
            } else {
                chain.last().spec_overlay()
            },
            issues@.map_values(|i: ValidationIssue| i@),
            basev,
            total as int,
            ends.last(),
        ),
        0 <= n,
        clean_scan_end(wal, wal_header_at(wal), n),
        total as int == count_commits(wal, wal_header_at(wal), n),
    ensures
        validate_post(db, wal, Ok((issues, total))),
{
    reveal(crate::replay_state);
    assert(fresh_cache(db, c0));
    assert(replay_chain(db, wal, chain, ends));
}

/// Validate a database image against its log image.
///
/// Runs the default validators against the base state and after each log
/// commit, returning the issues found and the number of commits processed.
/// The rejection of malformed inputs, the number of commits, and the
/// base-state issue list are pinned by `validate_post`; each pass's issue
/// list is pinned by the contracts of `validators::ValidatorKind::run` and
/// the checking functions it dispatches to.
#[verifier::rlimit(100)]
pub fn validate(db_bytes: Vec<u8>, wal_bytes: Vec<u8>, config: &ValidatorConfig) -> (r:
    Result<(Vec<ValidationIssue>, u64), WalValidatorError>)
    ensures
        validate_post(db_bytes@, wal_bytes@, r),
{
    let ghost db = db_bytes@;
    let ghost wal = wal_bytes@;

    // Parse the database header.
    let db_header = match DbHeader::parse(db_bytes.as_slice()) {
        Ok(h) => h,
        Err(e) => {
            return Err(e);
        },
    };

    // Initialize the page cache over the base image.
    let page_cache = PageCache::new(db_bytes, db_header.page_size, db_header.page_count);

    // Get the enabled validators.
    let validators = enabled_validators(config);

    let mut all_issues: Vec<ValidationIssue> = Vec::new();
    let mut total_commits: u64 = 0;

    // Open the log before any pass runs, so that a malformed log is
    // rejected up front.
    let mut commit_iter = match CommitIterator::new(wal_bytes) {
        Ok(it) => it,
        Err(e) => {
            return Err(e);
        },
    };

    // The database and the log must agree on the page size.
    if commit_iter.wal_header().page_size != db_header.page_size {
        return Err(
            WalValidatorError::PageSizeMismatch {
                db_size: db_header.page_size,
                wal_size: commit_iter.wal_header().page_size,
            },
        );
    }

    let ghost hdr = wal_header_at(wal);

    let mut ctx = ValidationContext::new(page_cache, None, config.clone());
    let ghost c0 = ctx.page_cache;
    proof {
        assert(fresh_cache(db, c0));
    }

    // Check the base database state first.
    match run_passes(&ctx, &validators, &mut all_issues) {
        Ok(_) => {},
        Err(e) => {
            proof {
                assert(pass_issues(c0, None) == Err::<
                    Seq<ValidationIssueV>,
                    WalValidatorError,
                >(e));
                assert(replay_failure(db, wal, e));
            }
            return Err(e);
        },
    }
    let ghost basev = all_issues@.map_values(|i: ValidationIssue| i@);
    let ghost mut chain: Seq<PageCache> = Seq::empty();
    let ghost mut ends: Seq<int> = seq![0int];
    proof {
        reveal(crate::replay_state);
        assert(Seq::<ValidationIssueV>::empty() + pass_issues(c0, None).unwrap()
            =~= pass_issues(c0, None).unwrap());
        assert(pass_issues(c0, None) == Ok::<Seq<ValidationIssueV>, WalValidatorError>(
            basev,
        ));
        assert(basev + chain_issues(chain, 0) =~= basev);
        assert(ends.last() == 0);
    }

    let mut stop: Option<WalValidatorError> = None;
    loop
        invariant_except_break
            hdr == wal_header_at(wal),
            stop is None,
            fresh_cache(db, c0),
            pass_issues(c0, None) == Ok::<Seq<ValidationIssueV>, WalValidatorError>(
                basev,
            ),
            ctx.page_cache.wf(),
            ctx.page_cache.spec_page_size() == hdr.page_size,
            ctx.page_cache.spec_base().spec_data() == db,
            commit_iter.wf(),
            commit_iter.spec_data() == wal,
            commit_iter.spec_header() == hdr,
            validators@.len() == 3,
            validators@[0] is DuplicateRowid,
            validators@[1] is DuplicateIndexKey,
            validators@[2] is IndexIntegrity,
            !commit_iter.spec_finished(),
            total_commits as int == commit_iter.spec_commit_index(),
            replay_state(
                db,
                wal,
                chain,
                ends,
                ctx.page_cache.spec_overlay(),
                all_issues@.map_values(|i: ValidationIssue| i@),
                basev,
                total_commits as int,
                commit_iter.spec_frame_index(),
            ),
            commit_iter.spec_frame_index() <= wal.len(),
        ensures
            ({
                let n = commit_iter.spec_frame_index();
                match stop {
                    Some(e) => replay_failure(db, wal, e),
                    None => {
                        &&& commit_iter.wf()
                        &&& replay_state(
                            db,
                            wal,
                            chain,
                            ends,
                            ctx.page_cache.spec_overlay(),
                            all_issues@.map_values(|i: ValidationIssue| i@),
                            basev,
                            total_commits as int,
                            ends.last(),
                        )
                        &&& clean_scan_end(wal, hdr, n)
                        &&& total_commits as int == count_commits(wal, hdr, n)
                    },
                }
            }),
        decreases wal.len() - commit_iter.spec_frame_index(),
    {
        let step = match replay_step(
            &mut commit_iter,
            &mut ctx,
            &validators,
            &mut all_issues,
            &mut total_commits,
            Ghost(db),
            Ghost(basev),
            Ghost(chain),
            Ghost(ends),
        ) {
            Ok(s) => s,
            Err(e) => {
                stop = Some(e);
                break;
            },
        };
        proof {
            chain = step.1@.0;
            ends = step.1@.1;
        }
        if !step.0 {
            break;
        }
    }
    if let Some(e) = stop {
        return Err(e);
    }

    proof {
        reveal(crate::replay_state);
        lemma_finish(
            db,
            wal,
            c0,
            basev,
            chain,
            ends,
            all_issues,
            total_commits,
            commit_iter.spec_frame_index(),
        );
    }
    Ok((all_issues, total_commits))
}

/// Validate with the old flag-based interface: `check_indexes` becomes the
/// corresponding configuration field.
pub fn validate_legacy(db_bytes: Vec<u8>, wal_bytes: Vec<u8>, check_indexes: bool) -> (r:
    Result<(Vec<ValidationIssue>, u64), WalValidatorError>)
    ensures
        validate_post(db_bytes@, wal_bytes@, r),
{
    let config = ValidatorConfig { check_indexes };
    validate(db_bytes, wal_bytes, &config)
}

} // verus!
