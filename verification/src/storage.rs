//! Where the application data lives: a data directory and the data file in it.
use vstd::prelude::*;

use crate::config::DATA_FILE_NAME;
use crate::outside::{path_join, spec_path_join};

verus! {

/// The application's storage, rooted at its data directory.
#[derive(Debug, Clone)]
pub struct Storage {
    pub data_dir: String,
}

impl Storage {
    /// Storage rooted at a data directory (found and created by the caller).
    pub fn with_data_dir(data_dir: String) -> (r: Self)
        ensures
            r.data_dir@ == data_dir@,
    {
        Storage { data_dir }
    }

    /// The data directory.
    pub fn data_dir(&self) -> (r: &str)
        ensures
            r@ == self.data_dir@,
    {
        self.data_dir.as_str()
    }

    /// The data file inside the data directory.
    pub fn data_file(&self) -> (r: String)
        ensures
            r@ == spec_path_join(self.data_dir@, DATA_FILE_NAME@),
    {
        path_join(self.data_dir.as_str(), DATA_FILE_NAME)
    }
}

} // verus!
