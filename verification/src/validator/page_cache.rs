//! The page cache: base pages overlaid by the latest log frames.

use std::collections::HashMap;

use vstd::prelude::*;
use vstd::slice::slice_to_vec;

use crate::db::page::PageReader;
use crate::wal::frame::Frame;
use crate::wal::iterator::Commit;

verus! {

broadcast use vstd::std_specs::hash::group_hash_axioms;

/// The overlay after storing one frame on top of `m`: the frame's page
/// number now maps to its payload and frame index.
pub open spec fn store_frame(m: Map<u32, (Seq<u8>, u64)>, f: Frame) -> Map<
    u32,
    (Seq<u8>, u64),
> {
    m.insert(f.header.page_number, (f.page_data@, f.frame_index))
}

/// The overlay after storing `frames` in order on top of `m`: later frames
/// win on the same page number.
pub open spec fn store_frames(m: Map<u32, (Seq<u8>, u64)>, frames: Seq<Frame>) -> Map<
    u32,
    (Seq<u8>, u64),
>
    decreases frames.len(),
{
    if frames.len() == 0 {
        m
    } else {
        store_frames(store_frame(m, frames[0]), frames.drop_first())
    }
}


/// The index of the last frame in `frames` that writes page `p`, or -1.
pub open spec fn last_touch(frames: Seq<Frame>, p: u32) -> int
    decreases frames.len(),
{
    if frames.len() == 0 {
        -1
    } else {
        let rest = last_touch(frames.drop_first(), p);
        if rest >= 0 {
            rest + 1
        } else if frames[0].header.page_number == p {
            0
        } else {
            -1
        }
    }
}

/// The latest writer wins: after storing `frames` in order on top of `m`,
/// page `p` holds the payload and index of the last frame that wrote it,
/// and a page no frame wrote keeps its old binding.
pub proof fn lemma_latest_writer_wins(m: Map<u32, (Seq<u8>, u64)>, frames: Seq<Frame>, p: u32)
    ensures
        ({
            let m2 = store_frames(m, frames);
            let k = last_touch(frames, p);
            if k >= 0 {
                &&& k < frames.len()
                &&& frames[k].header.page_number == p
                &&& forall|j: int|
                    k < j < frames.len() ==> (#[trigger] frames[j]).header.page_number
                        != p
                &&& m2.contains_key(p)
                &&& m2[p] == (frames[k].page_data@, frames[k].frame_index)
            } else {
                &&& forall|j: int|
                    0 <= j < frames.len() ==> (#[trigger] frames[j]).header.page_number
                        != p
                &&& m2.contains_key(p) == m.contains_key(p)
                &&& (m.contains_key(p) ==> m2[p] == m[p])
            }
        }),
    decreases frames.len(),
{
    if frames.len() > 0 {
        let m1 = store_frame(m, frames[0]);
        let tail = frames.drop_first();
        lemma_latest_writer_wins(m1, tail, p);
        let rest = last_touch(tail, p);
        if rest >= 0 {
            assert(tail[rest] == frames[rest + 1]);
            assert(forall|j: int|
                rest + 1 < j < frames.len() ==> tail[j - 1] == #[trigger] frames[j]);
        } else {
            assert(forall|j: int|
                1 <= j < frames.len() ==> tail[j - 1] == #[trigger] frames[j]);
        }
    }
}

/// Tracks the current page state: a mapping from page number to the most
/// recent frame payload that touched it, with fallback to the base file,
/// and a zero page for pages in neither.
pub struct PageCache {
    /// Page size in bytes.
    page_size: u32,
    /// Total pages in the base database.
    db_page_count: u32,
    /// Log overlay: page number to (page data, index of the frame that last
    /// wrote it).
    overlay: HashMap<u32, (Vec<u8>, u64)>,
    /// The largest page number present in the overlay (0 when empty).
    max_overlay_page: u32,
    /// Page reader for the base database image.
    page_reader: PageReader,
}

impl PageCache {
    /// The overlay as a map from page number to (payload, frame index).
    pub closed spec fn spec_overlay(&self) -> Map<u32, (Seq<u8>, u64)> {
        self.overlay@.map_values(|v: (Vec<u8>, u64)| (v.0@, v.1))
    }

    /// The page size.
    pub closed spec fn spec_page_size(&self) -> u32 {
        self.page_size
    }

    /// The declared page count of the base database.
    pub closed spec fn spec_db_page_count(&self) -> u32 {
        self.db_page_count
    }

    /// The base database image.
    pub closed spec fn spec_base(&self) -> PageReader {
        self.page_reader
    }

    /// The largest page number the overlay holds, or 0 when it is empty.
    pub closed spec fn spec_max_overlay_page(&self) -> u32 {
        self.max_overlay_page
    }

    /// Internal consistency: every overlay payload is one page long, the
    /// tracked maximum bounds every overlay key and is itself present (or
    /// zero), and the base reader was built for the same page size.
    pub open spec fn wf(&self) -> bool {
        &&& forall|p: u32|
            self.spec_overlay().contains_key(p) ==> (#[trigger] self.spec_overlay()[p]).0.len()
                == self.spec_page_size()
        &&& forall|p: u32|
            #[trigger] self.spec_overlay().contains_key(p) ==> p
                <= self.spec_max_overlay_page()
        &&& (self.spec_max_overlay_page() == 0 || self.spec_overlay().contains_key(
            self.spec_max_overlay_page(),
        ))
        &&& self.spec_base().spec_page_size() == self.spec_page_size()
    }

    /// The page the cache serves for `page_num`: the overlay entry if one
    /// exists, else the base page, else a zero page.
    pub open spec fn spec_get_page(&self, page_num: u32) -> Seq<u8> {
        if self.spec_overlay().contains_key(page_num) {
            self.spec_overlay()[page_num].0
        } else if self.spec_base().page_in_file(page_num) {
            self.spec_base().spec_page(page_num)
        } else {
            Seq::new(self.spec_page_size() as nat, |i: int| 0u8)
        }
    }

    /// The frame index recorded for `page_num`, if the overlay holds it.
    pub open spec fn spec_frame_index(&self, page_num: u32) -> Option<u64> {
        if self.spec_overlay().contains_key(page_num) {
            Some(self.spec_overlay()[page_num].1)
        } else {
            None
        }
    }

    /// Create a new page cache over a base database image.
    pub fn new(db_data: Vec<u8>, page_size: u32, page_count: u32) -> (r: Self)
        ensures
            r.wf(),
            r.spec_overlay() == Map::<u32, (Seq<u8>, u64)>::empty(),
            r.spec_page_size() == page_size,
            r.spec_db_page_count() == page_count,
            r.spec_base().spec_data() == db_data@,
            r.spec_max_overlay_page() == 0,
    {
        let r = PageCache {
            page_size,
            db_page_count: page_count,
            overlay: HashMap::new(),
            max_overlay_page: 0,
            page_reader: PageReader::new(db_data, page_size, page_count),
        };
        proof {
            assert(r.spec_overlay() =~= Map::<u32, (Seq<u8>, u64)>::empty());
        }
        r
    }

    /// Get a page, checking the log overlay first, then the base image,
    /// substituting a zero page for a page in neither.
    pub fn get_page(&self, page_num: u32) -> (r: Vec<u8>)
        requires
            self.wf(),
        ensures
            r@ == self.spec_get_page(page_num),
            r@.len() == self.spec_page_size(),
    {
        if let Some(entry) = self.overlay.get(&page_num) {
            proof {
                assert(self.overlay@.contains_key(page_num));
                assert(self.spec_overlay().contains_key(page_num));
                assert(self.spec_overlay()[page_num] == (entry.0@, entry.1));
            }
            return slice_to_vec(entry.0.as_slice());
        }

        match self.page_reader.read_page(page_num) {
            Ok(page) => page,
            Err(_) => {
                // The page is in neither the base image nor the overlay: it
                // may appear later in the log, so serve zeroes.
                let mut page: Vec<u8> = Vec::new();
                let n = self.page_size as usize;
                let mut i: usize = 0;
                while i < n
                    invariant
                        i <= n,
                        page@.len() == i,
                        forall|k: int| 0 <= k < i ==> page@[k] == 0u8,
                    decreases n - i,
                {
                    page.push(0u8);
                    i = i + 1;
                }
                proof {
                    assert(page@ =~= Seq::new(self.spec_page_size() as nat, |i: int| 0u8));
                }
                page
            },
        }
    }

    /// Get the frame index that last modified a page (`None` if the page
    /// comes from the base image).
    pub fn get_frame_index(&self, page_num: u32) -> (r: Option<u64>)
        ensures
            r == self.spec_frame_index(page_num),
    {
        match self.overlay.get(&page_num) {
            Some(entry) => Some(entry.1),
            None => None,
        }
    }

    /// Apply a commit's frames to the overlay, in order: the last frame
    /// that touches a page wins.
    pub fn apply_commit(&mut self, commit: &Commit)
        requires
            old(self).wf(),
            forall|k: int|
                0 <= k < commit.frames@.len() ==> (#[trigger] commit.frames@[k]).page_data@.len()
                    == old(self).spec_page_size(),
        ensures
            final(self).wf(),
            final(self).spec_overlay() == store_frames(
                old(self).spec_overlay(),
                commit.frames@,
            ),
            final(self).spec_page_size() == old(self).spec_page_size(),
            final(self).spec_db_page_count() == old(self).spec_db_page_count(),
            final(self).spec_base() == old(self).spec_base(),
    {
        let ghost frames = commit.frames@;
        let ghost orig = self.spec_overlay();
        proof {
            assert(frames.skip(0) =~= frames);
        }
        let mut i: usize = 0;
        while i < commit.frames.len()
            invariant
                i <= frames.len(),
                commit.frames@ == frames,
                forall|k: int|
                    0 <= k < frames.len() ==> (#[trigger] frames[k]).page_data@.len()
                        == self.spec_page_size(),
                self.wf(),
                self.spec_page_size() == old(self).spec_page_size(),
                self.spec_db_page_count() == old(self).spec_db_page_count(),
                self.spec_base() == old(self).spec_base(),
                store_frames(orig, frames) == store_frames(
                    self.spec_overlay(),
                    frames.skip(i as int),
                ),
                orig == old(self).spec_overlay(),
            decreases frames.len() - i,
        {
            let frame = &commit.frames[i];
            let pn = frame.header.page_number;
            let ghost before = self.spec_overlay();
            let data = slice_to_vec(frame.page_data.as_slice());
            self.overlay.insert(pn, (data, frame.frame_index));
            if pn > self.max_overlay_page {
                self.max_overlay_page = pn;
            }
            proof {
                assert(self.spec_overlay() =~= store_frame(before, frames[i as int]));
                assert(frames.skip(i as int).drop_first() =~= frames.skip(i + 1));
                assert(store_frames(before, frames.skip(i as int)) == store_frames(
                    store_frame(before, frames[i as int]),
                    frames.skip(i + 1),
                ));
            }
            i = i + 1;
        }
        proof {
            assert(frames.skip(frames.len() as int) =~= Seq::<Frame>::empty());
        }
    }

    /// Reset the overlay (for re-validation).
    pub fn reset(&mut self)
        requires
            old(self).wf(),
        ensures
            final(self).wf(),
            final(self).spec_overlay() == Map::<u32, (Seq<u8>, u64)>::empty(),
            final(self).spec_page_size() == old(self).spec_page_size(),
            final(self).spec_db_page_count() == old(self).spec_db_page_count(),
            final(self).spec_base() == old(self).spec_base(),
    {
        self.overlay.clear();
        self.max_overlay_page = 0;
        proof {
            assert(self.spec_overlay() =~= Map::<u32, (Seq<u8>, u64)>::empty());
        }
    }

    /// Get the page size.
    pub fn page_size(&self) -> (r: u32)
        ensures
            r == self.spec_page_size(),
    {
        self.page_size
    }

    /// The effective page count as a function of the cache state.
    pub open spec fn spec_effective_page_count(&self) -> u32 {
        if self.spec_db_page_count() > self.spec_max_overlay_page() {
            self.spec_db_page_count()
        } else {
            self.spec_max_overlay_page()
        }
    }

    /// The current effective page count: the declared base page count, or
    /// the largest page number the log has touched, whichever is larger.
    pub fn effective_page_count(&self) -> (r: u32)
        requires
            self.wf(),
        ensures
            r == self.spec_effective_page_count(),
            r >= self.spec_db_page_count(),
            forall|p: u32| #[trigger] self.spec_overlay().contains_key(p) ==> r >= p,
            r == self.spec_db_page_count() || self.spec_overlay().contains_key(r),
    {
        if self.db_page_count > self.max_overlay_page {
            self.db_page_count
        } else {
            self.max_overlay_page
        }
    }
}

} // verus!
