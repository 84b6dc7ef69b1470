//! The commit iterator: groups log frames into commits, verifying the
//! rolling checksum chain and the salts as it goes.
//!
//! Truncation and salt rotation end the log cleanly; a checksum mismatch is
//! fatal, because nothing after the bad frame can be trusted.

use vstd::prelude::*;
use vstd::slice::slice_subrange;
use vstd::slice::slice_to_vec;

use crate::error::WalValidatorError;
use crate::wal::frame::Frame;
use crate::wal::frame::FrameHeader;
use crate::wal::frame::frame_header_at;
use crate::wal::header::WalHeader;
use crate::wal::header::wal_checksum;
use crate::wal::header::wal_header_at;

verus! {

/// A commit: one or more frames ending in a commit-marked frame.
#[derive(Debug)]
pub struct Commit {
    /// Commit index (0-indexed sequence number).
    pub index: u64,
    /// All frames in this commit, in log order.
    pub frames: Vec<Frame>,
    /// Database size in pages after this commit.
    pub db_size: u32,
}

/// The byte offset of frame `i` in a log with the given page size: the
/// 32-byte header plus `i` frames of 24 header bytes and one page each.
pub open spec fn frame_offset(page_size: u32, i: int) -> int {
    32 + i * (24 + page_size)
}

/// Frame `i` lies entirely within the log image.
pub open spec fn frame_avail(data: Seq<u8>, page_size: u32, i: int) -> bool {
    frame_offset(page_size, i) + 24 + page_size <= data.len()
}

/// The header of frame `i`.
pub open spec fn spec_frame_header(data: Seq<u8>, page_size: u32, i: int) -> FrameHeader {
    frame_header_at(data, frame_offset(page_size, i))
}

/// The page payload of frame `i`.
pub open spec fn spec_frame_data(data: Seq<u8>, page_size: u32, i: int) -> Seq<u8> {
    data.subrange(
        frame_offset(page_size, i) + 24,
        frame_offset(page_size, i) + 24 + page_size,
    )
}

/// Frame `i` carries the salts of the log header.
pub open spec fn salt_match(data: Seq<u8>, hdr: WalHeader, i: int) -> bool {
    &&& spec_frame_header(data, hdr.page_size, i).salt1 == hdr.salt1
    &&& spec_frame_header(data, hdr.page_size, i).salt2 == hdr.salt2
}

/// One step of the rolling checksum chain: absorb the first 8 header bytes
/// of frame `i`, then its whole page payload.
pub open spec fn chain_step(data: Seq<u8>, hdr: WalHeader, s: (u32, u32), i: int) -> (
    u32,
    u32,
) {
    let off = frame_offset(hdr.page_size, i);
    let c1 = wal_checksum(
        hdr.big_endian_checksums,
        s.0,
        s.1,
        data.subrange(off, off + 8),
    );
    wal_checksum(
        hdr.big_endian_checksums,
        c1.0,
        c1.1,
        spec_frame_data(data, hdr.page_size, i),
    )
}

/// The rolling checksum after the log header and the first `n` frames:
/// seeded with (0, 0) over bytes [0, 24) of the header, then one
/// `chain_step` per frame.
pub open spec fn chain_cs(data: Seq<u8>, hdr: WalHeader, n: int) -> (u32, u32)
    decreases n,
{
    if n <= 0 {
        wal_checksum(hdr.big_endian_checksums, 0, 0, data.subrange(0, 24))
    } else {
        chain_step(data, hdr, chain_cs(data, hdr, n - 1), n - 1)
    }
}

/// The checksum stored in frame `i`'s header equals the rolling checksum
/// up to and including frame `i`.
pub open spec fn checksum_match(data: Seq<u8>, hdr: WalHeader, i: int) -> bool {
    let c = chain_step(data, hdr, chain_cs(data, hdr, i), i);
    &&& spec_frame_header(data, hdr.page_size, i).checksum1 == c.0
    &&& spec_frame_header(data, hdr.page_size, i).checksum2 == c.1
}

/// Frame `i` is fully present, carries the right salts, and its checksum
/// continues the chain.
pub open spec fn frame_valid(data: Seq<u8>, hdr: WalHeader, i: int) -> bool {
    &&& frame_avail(data, hdr.page_size, i)
    &&& salt_match(data, hdr, i)
    &&& checksum_match(data, hdr, i)
}

/// The exec `Frame` handed out for index `i` reproduces the log bytes.
pub open spec fn frame_matches(data: Seq<u8>, hdr: WalHeader, i: int, f: Frame) -> bool {
    &&& f.header == spec_frame_header(data, hdr.page_size, i)
    &&& f.page_data@ == spec_frame_data(data, hdr.page_size, i)
    &&& f.frame_index == i
    &&& frame_valid(data, hdr, i)
}

/// The number of commit-marked frames among the first `n` frames.
pub open spec fn count_commits(data: Seq<u8>, hdr: WalHeader, n: int) -> int
    decreases n,
{
    if n <= 0 {
        0
    } else {
        count_commits(data, hdr, n - 1) + (
        if spec_frame_header(data, hdr.page_size, n - 1).db_size_after_commit != 0 {
            1int
        } else {
            0int
        })
    }
}

/// The log scan ends cleanly at frame `n`: every earlier frame is valid,
/// and frame `n` is truncated or salted for another log generation.
pub open spec fn clean_scan_end(data: Seq<u8>, hdr: WalHeader, n: int) -> bool {
    &&& forall|m: int| 0 <= m < n ==> #[trigger] frame_valid(data, hdr, m)
    &&& (!frame_avail(data, hdr.page_size, n) || !salt_match(data, hdr, n))
}

/// The log scan fails at frame `k`: every earlier frame is valid, frame
/// `k` is fully present with matching salts, and its stored checksum
/// breaks the rolling chain.
pub open spec fn scan_fails_at(data: Seq<u8>, hdr: WalHeader, k: int) -> bool {
    &&& forall|m: int| 0 <= m < k ==> #[trigger] frame_valid(data, hdr, m)
    &&& frame_avail(data, hdr.page_size, k)
    &&& salt_match(data, hdr, k)
    &&& !checksum_match(data, hdr, k)
}

/// The number of commit frames among the first `n` never exceeds `n`.
pub proof fn lemma_count_commits_bound(data: Seq<u8>, hdr: WalHeader, n: int)
    requires
        n >= 0,
    ensures
        0 <= count_commits(data, hdr, n) <= n,
    decreases n,
{
    if n > 0 {
        lemma_count_commits_bound(data, hdr, n - 1);
    }
}

/// Yields the commits of a log image in order, stopping cleanly at
/// truncation or salt rotation and fatally at a checksum mismatch.
pub struct CommitIterator {
    /// The whole log file image.
    data: Vec<u8>,
    /// The parsed log header.
    wal_header: WalHeader,
    /// Page size, copied out of the header.
    page_size: u32,
    /// Index of the next frame to read (0-based).
    current_frame_index: u64,
    /// Index of the next commit to emit (0-based).
    current_commit_index: u64,
    /// Rolling checksum, first word.
    current_s0: u32,
    /// Rolling checksum, second word.
    current_s1: u32,
    /// Set once the log has ended or failed; nothing more is emitted.
    finished: bool,
}

impl CommitIterator {
    /// The log image this iterator reads.
    pub closed spec fn spec_data(&self) -> Seq<u8> {
        self.data@
    }

    /// The parsed log header.
    pub closed spec fn spec_header(&self) -> WalHeader {
        self.wal_header
    }

    /// The index of the next frame to read.
    pub closed spec fn spec_frame_index(&self) -> int {
        self.current_frame_index as int
    }

    /// The index of the next commit to emit.
    pub closed spec fn spec_commit_index(&self) -> int {
        self.current_commit_index as int
    }

    /// Whether the iterator has ended.
    pub closed spec fn spec_finished(&self) -> bool {
        self.finished
    }

    /// Internal consistency: the cached page size and checksum pair track
    /// the header and the frames read so far, the commit counter counts the
    /// commit frames behind us, and the frame offset stays within bounds.
    pub open spec fn wf(&self) -> bool {
        &&& 0 <= self.spec_frame_index() <= 0xFFFFFFFFFFFFFFFF
        &&& 0 <= self.spec_commit_index() <= 0xFFFFFFFFFFFFFFFF
        &&& self.spec_header().page_size == self.spec_page_size()
        &&& self.spec_frame_index() == 0 || frame_offset(
            self.spec_page_size(),
            self.spec_frame_index(),
        ) <= self.spec_data().len()
        &&& self.spec_commit_index() == count_commits(
            self.spec_data(),
            self.spec_header(),
            self.spec_frame_index(),
        )
        &&& self.spec_cs() == chain_cs(
            self.spec_data(),
            self.spec_header(),
            self.spec_frame_index(),
        )
    }

    /// The page size the iterator reads frames with.
    pub closed spec fn spec_page_size(&self) -> u32 {
        self.page_size
    }

    /// The current rolling checksum pair.
    pub closed spec fn spec_cs(&self) -> (u32, u32) {
        (self.current_s0, self.current_s1)
    }

    /// Create a new commit iterator over a log image. Fails exactly when
    /// the 32-byte header is missing or carries an unknown magic.
    pub fn new(data: Vec<u8>) -> (r: Result<Self, WalValidatorError>)
        ensures
            match r {
                Ok(it) => {
                    &&& data@.len() >= 32
                    &&& (crate::bytes::be32(data@, 0) == crate::wal::header::WAL_MAGIC_BE
                        || crate::bytes::be32(data@, 0)
                        == crate::wal::header::WAL_MAGIC_LE)
                    &&& it.spec_data() == data@
                    &&& it.spec_header() == wal_header_at(data@)
                    &&& it.spec_frame_index() == 0
                    &&& it.spec_commit_index() == 0
                    &&& !it.spec_finished()
                    &&& it.wf()
                },
                Err(e) => {
                    if data@.len() < 32 {
                        e == WalValidatorError::UnexpectedEof
                    } else {
                        &&& crate::bytes::be32(data@, 0)
                            != crate::wal::header::WAL_MAGIC_BE
                        &&& crate::bytes::be32(data@, 0)
                            != crate::wal::header::WAL_MAGIC_LE
                        &&& e == WalValidatorError::InvalidWalMagic(
                            crate::bytes::be32(data@, 0),
                        )
                    }
                },
            },
    {
        let header_slice = if data.len() < 32 {
            return Err(WalValidatorError::UnexpectedEof);
        } else {
            slice_subrange(data.as_slice(), 0, 32)
        };
        let wal_header = match WalHeader::parse(header_slice) {
            Ok(h) => h,
            Err(e) => {
                return Err(e);
            },
        };
        proof {
            assert(wal_header == wal_header_at(data@)) by {
                assert(header_slice@ == data@.subrange(0, 32));
                assert(crate::bytes::be32(header_slice@, 0) == crate::bytes::be32(
                    data@,
                    0,
                ));
                assert(crate::bytes::be32(header_slice@, 4) == crate::bytes::be32(
                    data@,
                    4,
                ));
                assert(crate::bytes::be32(header_slice@, 8) == crate::bytes::be32(
                    data@,
                    8,
                ));
                assert(crate::bytes::be32(header_slice@, 12) == crate::bytes::be32(
                    data@,
                    12,
                ));
                assert(crate::bytes::be32(header_slice@, 16) == crate::bytes::be32(
                    data@,
                    16,
                ));
                assert(crate::bytes::be32(header_slice@, 20) == crate::bytes::be32(
                    data@,
                    20,
                ));
                assert(crate::bytes::be32(header_slice@, 24) == crate::bytes::be32(
                    data@,
                    24,
                ));
                assert(crate::bytes::be32(header_slice@, 28) == crate::bytes::be32(
                    data@,
                    28,
                ));
            };
        }

        // The initial rolling checksum covers bytes [0, 24) of the header.
        let seed_slice = slice_subrange(data.as_slice(), 0, 24);
        let initial = wal_header.checksum(seed_slice, (0, 0));
        proof {
            assert(seed_slice@ == data@.subrange(0, 24));
        }

        Ok(CommitIterator {
            page_size: wal_header.page_size,
            wal_header,
            data,
            current_frame_index: 0,
            current_commit_index: 0,
            current_s0: initial.0,
            current_s1: initial.1,
            finished: false,
        })
    }

    /// Get a reference to the log header.
    pub fn wal_header(&self) -> (r: &WalHeader)
        ensures
            r == self.spec_header(),
    {
        &self.wal_header
    }

    /// Read the next commit.
    ///
    /// `Ok(Some(c))` hands out the next run of frames ending in a
    /// commit-marked frame, all reproducing the log bytes and the checksum
    /// chain exactly. `Ok(None)` means the log ended cleanly: the frames
    /// from the current position up to the end position were valid
    /// non-commit frames, and the frame at the end position is truncated or
    /// salted for another generation. `Err` reports the first frame whose
    /// checksum fails.
    #[verifier::rlimit(80)]
    pub fn next_commit(&mut self) -> (r: Result<Option<Commit>, WalValidatorError>)
        requires
            old(self).wf(),
        ensures
            final(self).wf(),
            final(self).spec_data() == old(self).spec_data(),
            final(self).spec_header() == old(self).spec_header(),
            final(self).spec_frame_index() >= old(self).spec_frame_index(),
            old(self).spec_finished() ==> {
                &&& r matches Ok(None)
                &&& *final(self) == *old(self)
            },
            !old(self).spec_finished() ==> {
                let data = old(self).spec_data();
                let hdr = old(self).spec_header();
                let fi0 = old(self).spec_frame_index();
                let fi1 = final(self).spec_frame_index();
                match r {
                    Ok(Some(c)) => {
                        &&& !final(self).spec_finished()
                        &&& c.index as int == old(self).spec_commit_index()
                        &&& final(self).spec_commit_index() == old(
                            self,
                        ).spec_commit_index() + 1
                        &&& c.frames.len() >= 1
                        &&& fi1 == fi0 + c.frames.len()
                        &&& forall|k: int|
                            0 <= k < c.frames.len() ==> frame_matches(
                                data,
                                hdr,
                                fi0 + k,
                                #[trigger] c.frames@[k],
                            )
                        &&& forall|k: int|
                            0 <= k < c.frames.len() - 1
                                ==> (#[trigger] c.frames@[k]).header.db_size_after_commit
                                == 0
                        &&& c.frames@.last().header.db_size_after_commit != 0
                        &&& c.db_size == c.frames@.last().header.db_size_after_commit
                    },
                    Ok(None) => {
                        &&& final(self).spec_finished()
                        &&& final(self).spec_commit_index() == old(
                            self,
                        ).spec_commit_index()
                        &&& forall|m: int|
                            fi0 <= m < fi1 ==> #[trigger] frame_valid(data, hdr, m)
                                && spec_frame_header(
                                data,
                                hdr.page_size,
                                m,
                            ).db_size_after_commit == 0
                        &&& (!frame_avail(data, hdr.page_size, fi1) || !salt_match(
                            data,
                            hdr,
                            fi1,
                        ))
                    },
                    Err(e) => {
                        &&& final(self).spec_finished()
                        &&& e == (WalValidatorError::ChecksumMismatch {
                            frame_index: fi1 as u64,
                        })
                        &&& forall|m: int|
                            fi0 <= m < fi1 ==> #[trigger] frame_valid(data, hdr, m)
                                && spec_frame_header(
                                data,
                                hdr.page_size,
                                m,
                            ).db_size_after_commit == 0
                        &&& frame_avail(data, hdr.page_size, fi1)
                        &&& salt_match(data, hdr, fi1)
                        &&& !checksum_match(data, hdr, fi1)
                    },
                }
            },
    {
        if self.finished {
            return Ok(None);
        }

        let ghost data = self.data@;
        let ghost hdr = self.wal_header;
        let ghost fi0 = self.current_frame_index as int;

        let frame_size: u64 = 24 + self.page_size as u64;
        let mut pending: Vec<Frame> = Vec::new();

        loop
            invariant
                self.wf(),
                !self.finished,
                data == old(self).spec_data(),
                hdr == old(self).spec_header(),
                fi0 == old(self).spec_frame_index(),
                !old(self).spec_finished(),
                self.data@ == data,
                self.wal_header == hdr,
                frame_size == 24 + hdr.page_size,
                self.current_frame_index as int == fi0 + pending.len(),
                self.current_commit_index as int == old(self).spec_commit_index(),
                forall|k: int|
                    0 <= k < pending.len() ==> frame_matches(
                        data,
                        hdr,
                        fi0 + k,
                        #[trigger] pending@[k],
                    ),
                forall|k: int|
                    0 <= k < pending.len()
                        ==> (#[trigger] pending@[k]).header.db_size_after_commit == 0,
            decreases data.len() - frame_offset(hdr.page_size, fi0 + pending.len()),
        {
            let fi = self.current_frame_index;
            let dlen = self.data.len();
            let offset: u64 = if fi == 0 {
                32
            } else {
                proof {
                    assert(fi as int * frame_size as int == fi as int * (24
                        + hdr.page_size as int));
                    assert(32 + fi as int * frame_size as int <= dlen as int);
                }
                32 + fi * frame_size
            };

            // A frame that does not fit entirely ends the log cleanly.
            if offset > dlen as u64 || dlen as u64 - offset < frame_size {
            proof {
                assert forall|m: int| fi0 <= m < fi0 + pending.len() implies
                    frame_valid(data, hdr, m) && spec_frame_header(
                    data,
                    hdr.page_size,
                    m,
                ).db_size_after_commit == 0 by {
                    assert(frame_matches(data, hdr, m, pending@[m - fi0]));
                    assert(pending@[m - fi0].header.db_size_after_commit == 0);
                }
            }
                self.finished = true;
                return Ok(None);
            }

            let off = offset as usize;
            let header_slice = slice_subrange(self.data.as_slice(), off, off + 24);
            let frame_header = match FrameHeader::parse(header_slice) {
                Ok(h) => h,
                Err(e) => {
                    proof {
                        assert(false);
                    }
                    return Err(e);
                },
            };
            proof {
                assert(header_slice@ =~= data.subrange(
                    frame_offset(hdr.page_size, fi as int),
                    frame_offset(hdr.page_size, fi as int) + 24,
                ));
                assert(frame_header == spec_frame_header(data, hdr.page_size, fi as int))
                    by {
                    assert(crate::bytes::be32(header_slice@, 0) == crate::bytes::be32(
                        data,
                        frame_offset(hdr.page_size, fi as int),
                    ));
                    assert(crate::bytes::be32(header_slice@, 4) == crate::bytes::be32(
                        data,
                        frame_offset(hdr.page_size, fi as int) + 4,
                    ));
                    assert(crate::bytes::be32(header_slice@, 8) == crate::bytes::be32(
                        data,
                        frame_offset(hdr.page_size, fi as int) + 8,
                    ));
                    assert(crate::bytes::be32(header_slice@, 12) == crate::bytes::be32(
                        data,
                        frame_offset(hdr.page_size, fi as int) + 12,
                    ));
                    assert(crate::bytes::be32(header_slice@, 16) == crate::bytes::be32(
                        data,
                        frame_offset(hdr.page_size, fi as int) + 16,
                    ));
                    assert(crate::bytes::be32(header_slice@, 20) == crate::bytes::be32(
                        data,
                        frame_offset(hdr.page_size, fi as int) + 20,
                    ));
                };
            }

            // A salt from another log generation ends the log cleanly.
            if frame_header.salt1 != self.wal_header.salt1 || frame_header.salt2
                != self.wal_header.salt2 {
            proof {
                assert forall|m: int| fi0 <= m < fi0 + pending.len() implies
                    frame_valid(data, hdr, m) && spec_frame_header(
                    data,
                    hdr.page_size,
                    m,
                ).db_size_after_commit == 0 by {
                    assert(frame_matches(data, hdr, m, pending@[m - fi0]));
                    assert(pending@[m - fi0].header.db_size_after_commit == 0);
                }
            }
                self.finished = true;
                return Ok(None);
            }

            let page_data = slice_to_vec(
                slice_subrange(
                    self.data.as_slice(),
                    off + 24,
                    off + 24 + self.page_size as usize,
                ),
            );
            proof {
                assert(page_data@ =~= spec_frame_data(data, hdr.page_size, fi as int));
            }

            // The rolling checksum absorbs the first 8 header bytes, then
            // the page payload.
            let head8 = slice_subrange(self.data.as_slice(), off, off + 8);
            let c1 = self.wal_header.checksum(
                head8,
                (self.current_s0, self.current_s1),
            );
            let c2 = self.wal_header.checksum(page_data.as_slice(), c1);
            proof {
                assert(head8@ =~= data.subrange(
                    frame_offset(hdr.page_size, fi as int),
                    frame_offset(hdr.page_size, fi as int) + 8,
                ));
                assert(c2 == chain_step(
                    data,
                    hdr,
                    chain_cs(data, hdr, fi as int),
                    fi as int,
                ));
            }

            if c2.0 != frame_header.checksum1 || c2.1 != frame_header.checksum2 {
            proof {
                assert forall|m: int| fi0 <= m < fi0 + pending.len() implies
                    frame_valid(data, hdr, m) && spec_frame_header(
                    data,
                    hdr.page_size,
                    m,
                ).db_size_after_commit == 0 by {
                    assert(frame_matches(data, hdr, m, pending@[m - fi0]));
                    assert(pending@[m - fi0].header.db_size_after_commit == 0);
                }
            }
                self.finished = true;
                return Err(WalValidatorError::ChecksumMismatch { frame_index: fi });
            }

            self.current_s0 = c2.0;
            self.current_s1 = c2.1;
            proof {
                assert(frame_offset(hdr.page_size, fi + 1) == frame_offset(
                    hdr.page_size,
                    fi as int,
                ) + 24 + hdr.page_size) by (nonlinear_arith);
                assert(fi < 0xFFFFFFFFFFFFFFFFu64) by (nonlinear_arith)
                    requires
                        frame_size >= 24,
                        32 + fi * frame_size + frame_size <= dlen,
                        dlen <= 0xFFFFFFFFFFFFFFFFu64,
                ;
            }
            self.current_frame_index = fi + 1;

            let is_commit = frame_header.is_commit();
            let db_size = frame_header.db_size_after_commit;
            let frame = Frame { header: frame_header, page_data, frame_index: fi };
            proof {
                assert(frame_matches(data, hdr, fi as int, frame));
                assert(chain_cs(data, hdr, fi + 1) == chain_step(
                    data,
                    hdr,
                    chain_cs(data, hdr, fi as int),
                    fi as int,
                ));
                assert(count_commits(data, hdr, fi + 1) == count_commits(
                    data,
                    hdr,
                    fi as int,
                ) + (if frame_header.db_size_after_commit != 0 {
                    1int
                } else {
                    0int
                }));
            }
            pending.push(frame);

            if is_commit {
                proof {
                    lemma_count_commits_bound(data, hdr, self.current_frame_index as int);
                }
                let commit = Commit {
                    index: self.current_commit_index,
                    frames: pending,
                    db_size,
                };
                self.current_commit_index = self.current_commit_index + 1;
                return Ok(Some(commit));
            }
        }
    }
}

} // verus!
