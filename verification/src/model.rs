use vstd::prelude::*;
use crate::receipt::WriteResponse;
use crate::value::Value;

verus! {

/// The version that a page gets when the cursor enters it: one more, wrapping
/// to zero past the largest counter.
pub open spec fn bumped(version: u64) -> u64 {
    if version == u64::MAX {
        0
    } else {
        (version + 1) as u64
    }
}

/// The cache as a mathematical value: one version per page, the page size and
/// the write cursor.
pub struct CacheModel {
    /// The version of each page, by page id.
    pub versions: Seq<u64>,
    /// The size of a page in bytes.
    pub page_size: nat,
    /// The page that the cursor is in.
    pub page: nat,
    /// The cursor's offset in that page.
    pub offset: nat,
}

impl CacheModel {
    /// At least two pages of at least one byte, the cursor inside a page, and
    /// the whole region addressable.
    pub open spec fn wf(self) -> bool {
        &&& self.page_size >= 1
        &&& self.versions.len() >= 2
        &&& self.versions.len() * self.page_size <= usize::MAX
        &&& self.page < self.versions.len()
        &&& self.offset <= self.page_size
    }

    /// The number of pages.
    pub open spec fn page_count(self) -> nat {
        self.versions.len()
    }

    /// A fresh cache over `capacity` bytes: every version zero, the cursor at
    /// the start of page zero.
    pub open spec fn fresh(page_size: nat, capacity: nat) -> CacheModel {
        CacheModel {
            versions: Seq::new(capacity / page_size, |i: int| 0u64),
            page_size,
            page: 0,
            offset: 0,
        }
    }

    /// Whether `len` more bytes no longer fit in the cursor's page.
    pub open spec fn must_advance(self, len: nat) -> bool {
        self.offset + len > self.page_size
    }

    /// The page after the cursor's, cyclically.
    pub open spec fn next_page(self) -> nat {
        (self.page + 1) % self.versions.len()
    }

    /// The cache after the cursor has entered the next page: that page's
    /// version is bumped and the cursor stands at its start.
    pub open spec fn advanced(self) -> CacheModel {
        CacheModel {
            versions: self.versions.update(
                self.next_page() as int,
                bumped(self.versions[self.next_page() as int]),
            ),
            page_size: self.page_size,
            page: self.next_page(),
            offset: 0,
        }
    }

    /// The cache made ready for `len` bytes: advanced if they do not fit.
    pub open spec fn moved(self, len: nat) -> CacheModel {
        if self.must_advance(len) {
            self.advanced()
        } else {
            self
        }
    }

    /// Where the write handle has to go before `len` bytes are written: the
    /// start of the next page if the cursor advances, nowhere otherwise.
    pub open spec fn seek_target(self, len: nat) -> Option<u64> {
        if self.must_advance(len) {
            Some((self.next_page() * self.page_size) as u64)
        } else {
            None
        }
    }

    /// The receipt for `len` bytes stored at the cursor.
    pub open spec fn receipt_here(self, len: nat) -> WriteResponse {
        WriteResponse {
            page_id: self.page as u64,
            page_offset: self.offset as u64,
            version: self.versions[self.page as int],
            length: len as u64,
        }
    }

    /// The cache after `len` bytes were stored at the cursor.
    pub open spec fn appended(self, len: nat) -> CacheModel {
        CacheModel { offset: self.offset + len, ..self }
    }

    /// The cache after one write of `len` bytes.
    pub open spec fn written(self, len: nat) -> CacheModel {
        self.moved(len).appended(len)
    }

    /// The receipt that one write of `len` bytes hands out.
    pub open spec fn issued(self, len: nat) -> WriteResponse {
        self.moved(len).receipt_here(len)
    }

    /// The cache after a run of writes, given by the bytes of each.
    pub open spec fn written_all(self, datas: Seq<Seq<u8>>) -> CacheModel
        decreases datas.len(),
    {
        if datas.len() == 0 {
            self
        } else {
            self.written_all(datas.drop_last()).written(datas.last().len())
        }
    }

    /// How many writes of a run open a new page.
    pub open spec fn advances(self, datas: Seq<Seq<u8>>) -> nat
        decreases datas.len(),
    {
        if datas.len() == 0 {
            0
        } else {
            let before = self.written_all(datas.drop_last());
            let step: nat = if before.must_advance(datas.last().len()) {
                1
            } else {
                0
            };
            self.advances(datas.drop_last()) + step
        }
    }

    /// Whether a receipt names a page of this cache and a range inside it.
    pub open spec fn admits(self, request: WriteResponse) -> bool {
        &&& request.length <= self.page_size
        &&& request.page_id < self.versions.len()
        &&& request.page_offset + request.length <= self.page_size
    }

    /// The byte offset in the backing file at which a receipt's value starts.
    pub open spec fn location(self, request: WriteResponse) -> nat {
        request.page_id as nat * self.page_size + request.page_offset as nat
    }

    /// The byte offset in the backing file at which the cursor stands.
    pub open spec fn cursor_location(self) -> nat {
        self.page * self.page_size + self.offset
    }

    /// Whether the receipt's page still has the version under which the
    /// receipt was issued.
    pub open spec fn current(self, request: WriteResponse) -> bool {
        self.versions[request.page_id as int] == request.version
    }

    /// Whether the receipt's page was reused since the receipt was issued.
    pub open spec fn stale(self, request: WriteResponse) -> bool {
        self.versions[request.page_id as int] > request.version
    }

    /// What redeeming a receipt yields, given the bytes found at its location:
    /// a miss if the page's version moved on or the bytes hold no value,
    /// otherwise the value that the bytes stand for.
    pub open spec fn redeemed<V: Value>(self, request: WriteResponse, bytes: Seq<u8>) -> Option<V> {
        if self.current(request) {
            V::decoding(bytes)
        } else {
            None
        }
    }

    /// Whether a receipt's range lies in a part of its page that the cursor
    /// has already passed.
    pub open spec fn covers(self, request: WriteResponse) -> bool {
        &&& self.admits(request)
        &&& request.page_id == self.page ==> request.page_offset + request.length <= self.offset
    }
}

/// The backing file as a mathematical value: its bytes and the position of
/// the write handle.
pub struct BackingFile {
    /// The bytes of the file, from its start.
    pub bytes: Seq<u8>,
    /// The position of the write handle.
    pub position: nat,
}

impl BackingFile {
    /// An empty file with the handle at its start.
    pub open spec fn empty() -> BackingFile {
        BackingFile { bytes: Seq::empty(), position: 0 }
    }

    /// The file after the handle moved to `to`.
    pub open spec fn seek(self, to: nat) -> BackingFile {
        BackingFile { position: to, ..self }
    }

    /// The file after `data` was written at the handle: the bytes in the range
    /// are replaced, the file grows as far as needed, a gap before the range
    /// reads as zeros, and the handle stands behind the range.
    pub open spec fn write_all(self, data: Seq<u8>) -> BackingFile {
        let end = self.position + data.len();
        let size = if end > self.bytes.len() {
            end
        } else {
            self.bytes.len()
        };
        BackingFile {
            bytes: Seq::new(
                size,
                |i: int|
                    if self.position <= i < end {
                        data[i - self.position]
                    } else if i < self.bytes.len() {
                        self.bytes[i]
                    } else {
                        0u8
                    },
            ),
            position: end,
        }
    }

    /// The file after one write step: the seek, if there is one, then the
    /// bytes.
    pub open spec fn performed(self, seek: Option<u64>, data: Seq<u8>) -> BackingFile {
        match seek {
            Some(to) => self.seek(to as nat).write_all(data),
            None => self.write_all(data),
        }
    }

    /// The file after the steps of a run of writes were carried out, the
    /// cache being `cache` before the first of them.
    pub open spec fn performed_all(self, cache: CacheModel, datas: Seq<Seq<u8>>) -> BackingFile
        decreases datas.len(),
    {
        if datas.len() == 0 {
            self
        } else {
            let before = cache.written_all(datas.drop_last());
            self.performed_all(cache, datas.drop_last()).performed(
                before.seek_target(datas.last().len()),
                datas.last(),
            )
        }
    }

    /// The `len` bytes from `at` on, if the file reaches that far.
    pub open spec fn read_exact(self, at: nat, len: nat) -> Option<Seq<u8>> {
        if at + len <= self.bytes.len() {
            Some(self.bytes.subrange(at as int, (at + len) as int))
        } else {
            None
        }
    }

    /// Whether the write handle stands where the cache's cursor points.
    pub open spec fn follows(self, cache: CacheModel) -> bool {
        self.position == cache.cursor_location()
    }
}

} // verus!
