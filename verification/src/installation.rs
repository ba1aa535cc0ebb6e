//! Where an installation keeps its state.
use crate::data::Data;
use vstd::prelude::*;
use vstd::string::StringExecFns;

verus! {

/// The name of the state file inside the installation's directory.
pub const DATA_FILE: &'static str = "data.json";

/// A managed directory and the state that belongs to it.
#[derive(Debug, Clone)]
pub struct Installation {
    pub directory: String,
    pub data: Data,
}

/// `directory` with `DATA_FILE` below it: a `/` is put between the two unless
/// `directory` is empty or ends in one.
pub open spec fn data_path_spec(directory: Seq<char>) -> Seq<char> {
    if directory.len() == 0 || directory.last() == '/' {
        directory + DATA_FILE@
    } else {
        directory + seq!['/'] + DATA_FILE@
    }
}

impl Installation {
    /// The path of the state file of the installation in `directory`.
    pub fn data_path(directory: &str) -> (path: String)
        ensures
            path@ == data_path_spec(directory@),
    {
        let n = directory.unicode_len();
        let mut path = String::from_str(directory);
        if n > 0 && directory.get_char(n - 1) != '/' {
            path.push('/');
        }
        path.append(DATA_FILE);
        path
    }
}

} // verus!
