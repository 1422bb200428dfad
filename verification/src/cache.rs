use vstd::prelude::*;
use crate::manager::WriteManger;
use crate::geometry::lemma_page_inside;
use crate::model::CacheModel;
use crate::receipt::WriteResponse;
use crate::receipt::WriteStep;
use crate::value::Value;

verus! {

/// Storing values against receipts and redeeming the receipts.
pub trait MockRequest<V: Value> {
    /// The cache as a mathematical value.
    spec fn state(&self) -> CacheModel;

    /// Redeems a receipt, given in `buffer` the bytes read from the backing
    /// file at the receipt's location. A miss if the page's version is no
    /// longer the receipt's, or if the bytes hold no value; otherwise the
    /// value that the bytes stand for.
    fn read(&self, request: &WriteResponse, buffer: &[u8]) -> (value: Option<V>)
        requires
            self.state().wf(),
            self.state().admits(*request),
        ensures
            value == self.state().redeemed::<V>(*request, buffer@),
    ;

    /// Stores a value: advances the cursor to the next page if the value does
    /// not fit in the current one, and hands out the receipt together with
    /// what has to be done to the backing file.
    fn write(&mut self, value: V) -> (step: WriteStep)
        requires
            old(self).state().wf(),
            value.encoding().len() <= old(self).state().page_size,
        ensures
            final(self).state() == old(self).state().written(value.encoding().len()),
            final(self).state().wf(),
            step.response == old(self).state().issued(value.encoding().len()),
            step.seek == old(self).state().seek_target(value.encoding().len()),
            step.data@ == value.encoding(),
            final(self).state().admits(step.response),
            final(self).state().current(step.response),
    ;
}

/// A FIFO cache of fixed-size pages. Pages are reused in cyclic order; a
/// page's version tells its receipts apart from those of its earlier uses.
pub struct FifoFileCache {
    manager: WriteManger,
}

impl View for FifoFileCache {
    type V = CacheModel;

    closed spec fn view(&self) -> CacheModel {
        self.manager@
    }
}

impl FifoFileCache {
    /// A cache of `capacity / page_size` pages, all at version zero, with the
    /// cursor at the start of page zero.
    pub fn new(page_size: usize, capacity: usize) -> (cache: FifoFileCache)
        requires
            page_size > 0,
            capacity % page_size == 0,
            capacity > page_size,
        ensures
            cache@ == CacheModel::fresh(page_size as nat, capacity as nat),
            cache@.wf(),
    {
        FifoFileCache { manager: WriteManger::new(page_size, capacity) }
    }

    /// The size of a page.
    pub fn page_size(&self) -> (size: usize)
        ensures
            size == self@.page_size,
    {
        self.manager.page_size()
    }

    /// The number of pages.
    pub fn page_count(&self) -> (count: usize)
        ensures
            count == self@.page_count(),
    {
        self.manager.page_count()
    }

    /// The version of page `page_id` as it is now.
    pub fn version(&self, page_id: u64) -> (version: u64)
        requires
            page_id < self@.page_count(),
        ensures
            version == self@.versions[page_id as int],
    {
        self.manager.load(page_id)
    }

    /// Whether a receipt names a page of this cache and a range inside it.
    pub fn admits(&self, request: &WriteResponse) -> (ok: bool)
        ensures
            ok == self@.admits(*request),
    {
        let page_size: u64 = self.manager.page_size() as u64;
        let page_num: u64 = self.manager.page_count() as u64;
        request.length <= page_size && request.page_id < page_num && request.page_offset
            <= page_size - request.length
    }

    /// The byte offset in the backing file at which a receipt's value starts.
    pub fn locate(&self, request: &WriteResponse) -> (offset: u64)
        requires
            self@.wf(),
            self@.admits(*request),
        ensures
            offset == self@.location(*request),
            offset + request.length <= self@.page_count() * self@.page_size,
    {
        proof {
            lemma_page_inside(self@, request.page_id as nat);
        }
        request.page_id * (self.manager.page_size() as u64) + request.page_offset
    }

    /// Whether the receipt's page still has the version under which the
    /// receipt was issued.
    pub fn is_current(&self, request: &WriteResponse) -> (ok: bool)
        requires
            request.page_id < self@.page_count(),
        ensures
            ok == self@.current(*request),
    {
        self.manager.load(request.page_id) == request.version
    }

    /// Stores `data` as one value: advances the cursor to the next page if
    /// the bytes do not fit in the current one, and hands out the receipt
    /// together with what has to be done to the backing file.
    pub fn write_bytes(&mut self, data: Vec<u8>) -> (step: WriteStep)
        requires
            old(self)@.wf(),
            data@.len() <= old(self)@.page_size,
        ensures
            final(self)@ == old(self)@.written(data@.len()),
            final(self)@.wf(),
            step.response == old(self)@.issued(data@.len()),
            step.seek == old(self)@.seek_target(data@.len()),
            step.data@ == data@,
            final(self)@.admits(step.response),
            final(self)@.current(step.response),
    {
        let length: u64 = data.len() as u64;
        let seek = self.manager.write_move(length);
        let response = self.manager.write_data(data.as_slice());
        WriteStep { seek, data, response }
    }

    /// Stores a value if its encoding fits in a page; otherwise leaves the
    /// cache as it is and hands out nothing.
    pub fn try_write<V: Value>(&mut self, value: V) -> (step: Option<WriteStep>)
        requires
            old(self)@.wf(),
        ensures
            final(self)@.wf(),
            (step is Some) == (value.encoding().len() <= old(self)@.page_size),
            step is None ==> final(self)@ == old(self)@,
            step matches Some(done) ==> ({
                &&& final(self)@ == old(self)@.written(value.encoding().len())
                &&& done.response == old(self)@.issued(value.encoding().len())
                &&& done.seek == old(self)@.seek_target(value.encoding().len())
                &&& done.data@ == value.encoding()
                &&& final(self)@.admits(done.response)
                &&& final(self)@.current(done.response)
            }),
    {
        let data = value.serialize();
        if data.len() > self.manager.page_size() {
            None
        } else {
            Some(self.write_bytes(data))
        }
    }
}

impl<V: Value> MockRequest<V> for FifoFileCache {
    open spec fn state(&self) -> CacheModel {
        self@
    }

    fn read(&self, request: &WriteResponse, buffer: &[u8]) -> (value: Option<V>) {
        if self.is_current(request) {
            V::deserialize(buffer)
        } else {
            None
        }
    }

    fn write(&mut self, value: V) -> (step: WriteStep) {
        let data = value.serialize();
        self.write_bytes(data)
    }
}

} // verus!
