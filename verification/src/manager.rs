use vstd::prelude::*;
use crate::model::CacheModel;
use crate::model::bumped;
use crate::geometry::lemma_page_inside;
use crate::geometry::lemma_whole_pages;
use crate::receipt::WriteResponse;

verus! {

/// The single writer's state: the page versions, the page size and the write
/// cursor.
pub struct WriteManger {
    pages: Vec<u64>,
    write_page_id: u64,
    write_offset: u64,
    page_size: usize,
}

impl View for WriteManger {
    type V = CacheModel;

    closed spec fn view(&self) -> CacheModel {
        CacheModel {
            versions: self.pages@,
            page_size: self.page_size as nat,
            page: self.write_page_id as nat,
            offset: self.write_offset as nat,
        }
    }
}

impl WriteManger {
    /// A writer over `capacity / page_size` pages, all at version zero, with
    /// the cursor at the start of page zero.
    pub fn new(page_size: usize, capacity: usize) -> (manager: WriteManger)
        requires
            page_size > 0,
            capacity % page_size == 0,
            capacity > page_size,
        ensures
            manager@ == CacheModel::fresh(page_size as nat, capacity as nat),
            manager@.wf(),
    {
        let page_num: usize = capacity / page_size;
        proof {
            lemma_whole_pages(page_size as nat, capacity as nat);
        }
        let mut pages: Vec<u64> = Vec::with_capacity(page_num);
        let mut i: usize = 0;
        while i < page_num
            invariant
                i <= page_num,
                pages@.len() == i,
                forall|k: int| 0 <= k < i ==> pages@[k] == 0u64,
            decreases page_num - i,
        {
            pages.push(0);
            i = i + 1;
        }
        let manager = WriteManger { pages, write_page_id: 0, write_offset: 0, page_size };
        proof {
            assert(manager@.versions =~= CacheModel::fresh(
                page_size as nat,
                capacity as nat,
            ).versions);
        }
        manager
    }

    /// The size of a page.
    pub fn page_size(&self) -> (size: usize)
        ensures
            size == self@.page_size,
    {
        self.page_size
    }

    /// The number of pages.
    pub fn page_count(&self) -> (count: usize)
        ensures
            count == self@.page_count(),
    {
        self.pages.len()
    }

    /// The version of page `page_id` as it is now.
    pub fn load(&self, page_id: u64) -> (version: u64)
        requires
            page_id < self@.page_count(),
        ensures
            version == self@.versions[page_id as int],
    {
        assert(page_id < self.pages.len());
        self.pages[page_id as usize]
    }

    /// Makes room for `value_size` bytes. If they do not fit in the cursor's
    /// page, the next page's version is bumped and the cursor moves to its
    /// start; the result is then the file offset of that page, to which the
    /// write handle has to be moved. Otherwise nothing changes.
    pub fn write_move(&mut self, value_size: u64) -> (seek: Option<u64>)
        requires
            old(self)@.wf(),
            value_size <= old(self)@.page_size,
        ensures
            final(self)@ == old(self)@.moved(value_size as nat),
            seek == old(self)@.seek_target(value_size as nat),
            final(self)@.wf(),
            final(self)@.offset + value_size <= final(self)@.page_size,
            seek matches Some(to) ==> to == final(self)@.cursor_location(),
    {
        if value_size > self.page_size as u64 - self.write_offset {
            let page_num: u64 = self.pages.len() as u64;
            let next_page_id: u64 = (self.write_page_id + 1) % page_num;
            proof {
                lemma_page_inside(self@, next_page_id as nat);
            }
            let version: u64 = self.pages[next_page_id as usize];
            self.pages[next_page_id as usize] = version.wrapping_add(1);
            self.write_page_id = next_page_id;
            self.write_offset = 0;
            assert(version.wrapping_add(1) == bumped(version));
            Some(next_page_id * (self.page_size as u64))
        } else {
            None
        }
    }

    /// Records that `data` was stored at the cursor: hands out its receipt,
    /// stamped with the page's version, and moves the cursor behind it.
    pub fn write_data(&mut self, data: &[u8]) -> (response: WriteResponse)
        requires
            old(self)@.wf(),
            old(self)@.offset + data@.len() <= old(self)@.page_size,
        ensures
            response == old(self)@.receipt_here(data@.len()),
            final(self)@ == old(self)@.appended(data@.len()),
            final(self)@.wf(),
            final(self)@.admits(response),
            final(self)@.current(response),
    {
        let data_len: u64 = data.len() as u64;
        assert(self.write_page_id < self.pages.len());
        let response = WriteResponse {
            page_id: self.write_page_id,
            page_offset: self.write_offset,
            version: self.pages[self.write_page_id as usize],
            length: data_len,
        };
        self.write_offset = self.write_offset + data_len;
        response
    }
}

} // verus!
