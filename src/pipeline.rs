use vstd::prelude::*;
use crate::kmz::under;
use crate::listing::{records_view, Listing, ListingView};
use crate::record::{is_fetchable, RecordView};
use crate::select::is_archive_name;

verus! {

/// A record the pipeline downloads and unpacks: a selected archive name the
/// fetcher may take.
pub open spec fn is_wanted(r: RecordView) -> bool {
    is_archive_name(r.name) && is_fetchable(r)
}

/// The first wanted record at or after `pos`.
pub open spec fn next_wanted(records: Seq<RecordView>, pos: int) -> Option<int>
    decreases records.len() - pos,
{
    if pos < 0 || pos >= records.len() {
        None
    } else if is_wanted(records[pos]) {
        Some(pos)
    } else {
        next_wanted(records, pos + 1)
    }
}

/// One download to perform: the record's position, its URI, and the path to
/// store its body at.
pub struct FetchJob {
    pub index: usize,
    pub uri: String,
    pub path: String,
}

/// The per-record decisions of one run over a listing. The caller performs
/// each download and unpack it is handed, then reports how it went; a failure
/// is recorded and the run moves on to the next record.
pub struct Pipeline {
    listing: Listing,
    work_dir: String,
    position: usize,
    failed: Vec<usize>,
}

impl Pipeline {
    pub closed spec fn listing_view(&self) -> ListingView {
        self.listing@
    }

    pub open spec fn records(&self) -> Seq<RecordView> {
        self.listing_view().records
    }

    /// How many records have been considered.
    pub closed spec fn position(&self) -> int {
        self.position as int
    }

    /// The positions of the records whose download or unpack failed, in report order.
    pub closed spec fn failed(&self) -> Seq<usize> {
        self.failed@
    }

    pub closed spec fn work_dir(&self) -> Seq<char> {
        self.work_dir@
    }

    pub closed spec fn wf(&self) -> bool {
        self.position <= self.listing.records@.len()
    }

    /// A run over `listing` that stores downloads under `work_dir`.
    pub fn new(listing: Listing, work_dir: String) -> (r: Pipeline)
        ensures
            r.wf(),
            r.listing_view() == listing@,
            r.position() == 0,
            r.failed() == Seq::<usize>::empty(),
            r.work_dir() == work_dir@,
    {
        Pipeline { listing, work_dir, position: 0, failed: Vec::new() }
    }

    /// The next wanted record from the current position on, whatever became of
    /// the earlier ones; `None` when no record is left to fetch.
    pub fn next_fetch(&mut self) -> (r: Option<FetchJob>)
        requires
            old(self).wf(),
        ensures
            final(self).wf(),
            final(self).listing_view() == old(self).listing_view(),
            final(self).failed() == old(self).failed(),
            final(self).work_dir() == old(self).work_dir(),
            match r {
                Some(job) => next_wanted(old(self).records(), old(self).position()) == Some(job.index as int),
                None => next_wanted(old(self).records(), old(self).position()) is None,
            },
            match r {
                None => {
                    &&& final(self).position() == old(self).records().len()
                    &&& forall|j: int| old(self).position() <= j < old(self).records().len() ==> !is_wanted(
                        #[trigger] old(self).records()[j],
                    )
                },
                Some(job) => {
                    let i = job.index as int;
                    &&& old(self).position() <= i < old(self).records().len()
                    &&& final(self).position() == i + 1
                    &&& is_wanted(old(self).records()[i])
                    &&& forall|j: int| old(self).position() <= j < i ==> !is_wanted(#[trigger] old(self).records()[j])
                    &&& job.uri@ == old(self).records()[i].uri
                    &&& job.path@ == under(old(self).work_dir(), old(self).records()[i].name)
                },
            },
    {
        let ghost start = self.position as int;
        while self.position < self.listing.records.len()
            invariant
                start <= self.position <= self.listing.records@.len(),
                self.listing@ == old(self).listing@,
                self.failed@ == old(self).failed@,
                self.work_dir@ == old(self).work_dir@,
                start == old(self).position,
                forall|j: int| start <= j < self.position ==> !is_wanted(
                    #[trigger] records_view(self.listing.records@)[j],
                ),
                next_wanted(records_view(self.listing.records@), start) == next_wanted(
                    records_view(self.listing.records@),
                    self.position as int,
                ),
            decreases self.listing.records@.len() - self.position,
        {
            let i = self.position;
            let record = &self.listing.records[i];
            assert(records_view(self.listing.records@)[i as int] == record@);
            self.position = i + 1;
            if record.is_kmz() {
                match record.download(self.work_dir.as_str()) {
                    Some((uri, path)) => {
                        return Some(FetchJob { index: i, uri, path });
                    },
                    None => {},
                }
            }
        }
        None
    }

    /// Records how the download and unpack of the record at `index` went.
    pub fn report(&mut self, index: usize, completed: bool)
        ensures
            reported(*old(self), *final(self), index, completed),
    {
        if !completed {
            self.failed.push(index);
        }
    }

    /// The listing the run goes over.
    pub fn listing(&self) -> (r: &Listing)
        ensures
            r@ == self.listing_view(),
    {
        &self.listing
    }

    /// Ends the run: every record of the listing, fetched or not, and the
    /// positions of the failures.
    pub fn finish(self) -> (r: (Listing, Vec<usize>))
        ensures
            r.0@ == self.listing_view(),
            r.1@ == self.failed(),
    {
        (self.listing, self.failed)
    }
}

/// `after` is `before` once the outcome of the record at `index` is reported.
pub open spec fn reported(before: Pipeline, after: Pipeline, index: usize, completed: bool) -> bool {
    &&& after.wf() == before.wf()
    &&& after.listing_view() == before.listing_view()
    &&& after.position() == before.position()
    &&& after.work_dir() == before.work_dir()
    &&& after.failed() == if completed {
        before.failed()
    } else {
        before.failed().push(index)
    }
}

/// A failed download stops nothing: whether the record at `index` is reported
/// as done or as failed, the run goes on to the same next record and keeps
/// the same listing, so it ends with every record of it; only the failure is
/// recorded.
pub proof fn lemma_failure_stops_nothing(before: Pipeline, done: Pipeline, failed: Pipeline, index: usize)
    requires
        reported(before, done, index, true),
        reported(before, failed, index, false),
    ensures
        next_wanted(failed.records(), failed.position()) == next_wanted(done.records(), done.position()),
        failed.listing_view() == done.listing_view(),
        failed.listing_view() == before.listing_view(),
        failed.failed() == done.failed().push(index),
{
}

} // verus!
