//! Reconciliation: what is asked of each source, and what its answer does
//! to the state.
use crate::data::Data;
use crate::error::Error;
use crate::iso_file::{InPlaceIsoFile, IsoFile};
use crate::source::{IsoSourceEnum, Outcome};
use vstd::prelude::*;
use vstd::string::StringExecFns;

verus! {

/// How the reconciliation of one source ended.
#[derive(Debug)]
pub enum Settled {
    /// A new image was put in place.
    Installed(InPlaceIsoFile),
    /// Nothing newer was found.
    NoUpdate,
    /// The source could not be served.
    Failed(Error),
}

/// What one run did, source by source, in the order in which they settled.
#[derive(Debug)]
pub struct Report {
    /// The sources that got a new image.
    pub updated: Vec<String>,
    /// The sources that were current.
    pub unchanged: Vec<String>,
    /// The sources that failed, each with its error.
    pub failed: Vec<(String, Error)>,
}

/// What a poll for the source `source` begins with: a source with nothing
/// installed is fetched whole, another is asked for something newer than what
/// is installed.
pub open spec fn begin_spec(source: IsoSourceEnum, installed: Option<InPlaceIsoFile>, r: Outcome) -> bool {
    match installed {
        None => source.latest_spec(r) && r is Continue,
        Some(file) => r == source.updated_spec(file.iso_file),
    }
}

/// The file name under which the image of source `id` is kept.
pub open spec fn target_filename_spec(id: Seq<char>) -> Seq<char> {
    id + ".iso"@
}

/// The file name under which the image of source `id` is kept.
pub fn target_filename(id: &str) -> (name: String)
    ensures
        name@ == target_filename_spec(id@),
{
    String::from_str(id).concat(".iso")
}

impl Report {
    /// A report of a run in which nothing has settled yet.
    pub fn new() -> (r: Report)
        ensures
            r.updated@.len() == 0,
            r.unchanged@.len() == 0,
            r.failed@.len() == 0,
    {
        Report { updated: Vec::new(), unchanged: Vec::new(), failed: Vec::new() }
    }

    /// Whether every source was served: the run succeeded as a whole.
    pub fn succeeded(&self) -> (ok: bool)
        ensures
            ok == (self.failed@.len() == 0),
    {
        self.failed.len() == 0
    }
}

impl Data {
    /// Begins the reconciliation of the `i`-th source.
    pub fn begin(&self, i: usize) -> (r: Outcome)
        requires
            self.wf(),
            i < self.sources.keys@.len(),
        ensures
            begin_spec(
                self.sources.values@[i as int],
                if self.files@.contains_key(self.sources.keys@[i as int]@) {
                    Some(self.files@[self.sources.keys@[i as int]@])
                } else {
                    None
                },
                r,
            ),
    {
        let id = self.sources.key(i);
        let source = self.sources.value(i);
        match self.files.get(id.as_str()) {
            Some(file) => source.updated(&file.iso_file),
            None => source.latest(),
        }
    }

    /// Takes how the reconciliation of source `id` ended into the state and
    /// the report. Only a new image changes the state, and only the entry of
    /// `id` in the managed directory's table: a failure leaves what was
    /// installed as it is.
    pub fn settle(&mut self, id: String, result: Settled, report: &mut Report)
        requires
            old(self).wf(),
        ensures
            final(self).wf(),
            final(self).sources == old(self).sources,
            final(self).usb == old(self).usb,
            match result {
                Settled::Installed(file) => {
                    &&& final(self).files@ == old(self).files@.insert(id@, file)
                    &&& final(report).updated@ == old(report).updated@.push(id)
                    &&& final(report).unchanged@ == old(report).unchanged@
                    &&& final(report).failed@ == old(report).failed@
                },
                Settled::NoUpdate => {
                    &&& final(self).files == old(self).files
                    &&& final(report).updated@ == old(report).updated@
                    &&& final(report).unchanged@ == old(report).unchanged@.push(id)
                    &&& final(report).failed@ == old(report).failed@
                },
                Settled::Failed(e) => {
                    &&& final(self).files == old(self).files
                    &&& final(report).updated@ == old(report).updated@
                    &&& final(report).unchanged@ == old(report).unchanged@
                    &&& final(report).failed@ == old(report).failed@.push((id, e))
                },
            },
    {
        match result {
            Settled::Installed(file) => {
                self.files.insert(id.clone(), file);
                report.updated.push(id);
            },
            Settled::NoUpdate => {
                report.unchanged.push(id);
            },
            Settled::Failed(e) => {
                report.failed.push((id, e));
            },
        }
    }

    /// Whether the removable drive lacks the image that the managed directory
    /// holds for `id`, or holds one with another digest.
    pub fn needs_sync(&self, id: &str) -> (r: bool)
        requires
            self.wf(),
        ensures
            r == (self.files@.contains_key(id@) && (!self.usb@.contains_key(id@)
                || self.usb@[id@].iso_file.hash@ != self.files@[id@].iso_file.hash@)),
    {
        match self.files.get(id) {
            None => false,
            Some(file) => match self.usb.get(id) {
                None => true,
                Some(copy) => copy.iso_file.hash != file.iso_file.hash,
            },
        }
    }

    /// Records that the removable drive now holds `file` for `id`.
    pub fn synced(&mut self, id: String, file: InPlaceIsoFile)
        requires
            old(self).wf(),
        ensures
            final(self).wf(),
            final(self).sources == old(self).sources,
            final(self).files == old(self).files,
            final(self).usb@ == old(self).usb@.insert(id@, file),
    {
        self.usb.insert(id, file);
    }
}

/// The image that a finished poll found, once placed: `placed` says whether
/// the move into the managed directory succeeded.
pub fn settled(id: &str, found: Option<IsoFile>, placed: bool) -> (r: Settled)
    ensures
        match found {
            None => r is NoUpdate,
            Some(iso) => if placed {
                r matches Settled::Installed(file) && file.iso_file == iso && file.filename@
                    == target_filename_spec(id@)
            } else {
                r matches Settled::Failed(e) && e == Error::Placement
            },
        },
{
    match found {
        None => Settled::NoUpdate,
        Some(iso) => {
            if placed {
                Settled::Installed(InPlaceIsoFile::put(iso, target_filename(id)))
            } else {
                Settled::Failed(Error::Placement)
            }
        },
    }
}

} // verus!
