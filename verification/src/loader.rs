//! The loader: from the lists of records to the dataset.

use crate::check::check_loaded_json;
use crate::dataset::Dataset;
use crate::error::Error;
use crate::index::{index_failure, index_records, indexable};
use crate::laws::{law_indexed, law_referential_closure};
use crate::tables::{RecordLists, Tables, TablesView};
use vstd::prelude::*;

verus! {

/// Loads datasets, with or without the integrity check.
#[derive(Debug, Clone, Copy, PartialEq, Eq, Structural)]
pub struct DatasetLoader {
    /// Whether the integrity of the tables is checked before they are indexed.
    pub check: bool,
}

impl Default for DatasetLoader {
    /// The loader that checks.
    fn default() -> (loader: Self)
        ensures
            loader.check,
    {
        DatasetLoader { check: true }
    }
}

/// The error is one that loading meets. Where the loader checks and the
/// tables do not pass the check, it is a corruption that the tables have;
/// otherwise it is an error of indexing.
pub open spec fn load_failure(check: bool, tables: TablesView, e: Error) -> bool {
    if check && !tables.sound() {
        e matches Error::CorruptedDataset(c) && tables.breaks(c)
    } else {
        index_failure(tables, e)
    }
}

impl DatasetLoader {
    /// Makes the dataset of the records of the thirteen files. The lists
    /// become tables; if the loader checks, the tables must pass the integrity
    /// check; then the indexer derives the chains, the groups and the orders.
    /// A dataset that was loaded with the check is closed.
    pub fn load(&self, version: &str, dataset_dir: &str, lists: RecordLists) -> (r: core::result::Result<
        Dataset,
        Error,
    >)
        ensures
            r is Ok <==> (self.check ==> lists@.sound()) && indexable(lists@),
            r matches Ok(dataset) ==> dataset.indexes(lists@) && dataset.indexed() && (self.check
                ==> dataset.closed()) && dataset.version@ == version@ && dataset.dataset_dir@ == dataset_dir@,
            r matches Err(e) ==> load_failure(self.check, lists@, e),
    {
        let tables = Tables::from_lists(lists);
        if self.check {
            match check_loaded_json(&tables) {
                Ok(()) => {},
                Err(e) => {
                    return Err(e);
                },
            }
        }
        match index_records(version.to_owned(), dataset_dir.to_owned(), tables) {
            Ok(dataset) => {
                proof {
                    law_indexed(dataset, lists@);
                    if self.check {
                        law_referential_closure(dataset, lists@);
                    }
                }
                Ok(dataset)
            },
            Err(e) => {
                proof {
                    crate::index::lemma_failure_not_indexable(lists@, e);
                }
                Err(e)
            },
        }
    }
}

} // verus!
