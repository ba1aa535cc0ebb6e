//! The persisted state: configured sources and what is installed of them.
use crate::iso_file::InPlaceIsoFile;
use crate::source::IsoSourceEnum;
use crate::table::Table;
use vstd::prelude::*;

verus! {

/// Three tables over one space of identifiers.
#[derive(Debug, Clone)]
pub struct Data {
    /// The configured sources.
    pub sources: Table<IsoSourceEnum>,
    /// The images in the managed directory.
    pub files: Table<InPlaceIsoFile>,
    /// The images on the removable drive.
    pub usb: Table<InPlaceIsoFile>,
}

impl Data {
    /// Every table is well formed.
    pub open spec fn wf(self) -> bool {
        self.sources.wf() && self.files.wf() && self.usb.wf()
    }

    /// The state of a fresh installation: no source, nothing installed.
    pub fn init() -> (d: Data)
        ensures
            d.wf(),
            d.sources@ == Map::<Seq<char>, IsoSourceEnum>::empty(),
            d.files@ == Map::<Seq<char>, InPlaceIsoFile>::empty(),
            d.usb@ == Map::<Seq<char>, InPlaceIsoFile>::empty(),
    {
        Data { sources: Table::new(), files: Table::new(), usb: Table::new() }
    }
}

} // verus!
