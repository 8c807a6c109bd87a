//! The dataset: the thirteen tables with what the indexer derived from them.

use crate::chain::is_whole_chain;
use crate::error::Error;
use crate::group::is_group;
use crate::index::indexable;
use crate::loader::{load_failure, DatasetLoader};
use crate::order::{is_time_order, scene_times, times_of};
use crate::parsed::{InstanceInternal, SampleInternal, SceneInternal};
use crate::serializable::types::{
    Attribute, CalibratedSensor, Category, EgoPose, Instance, Log, MapRecord, Sample, SampleAnnotation,
    SampleData, Scene, Sensor, Visibility,
};
use crate::tables::{RecordLists, TablesView};
use crate::token::Token;
use std::collections::HashMap;
use vstd::prelude::*;
use vstd::string::StringExecFns;

verus! {

/// All the records of a dataset and the indices derived from them. Nothing
/// changes it once it is made.
#[derive(Debug, Clone)]
pub struct Dataset {
    pub version: String,
    pub dataset_dir: String,
    pub attribute_map: HashMap<u128, Attribute>,
    pub calibrated_sensor_map: HashMap<u128, CalibratedSensor>,
    pub category_map: HashMap<u128, Category>,
    pub ego_pose_map: HashMap<u128, EgoPose>,
    pub instance_map: HashMap<u128, InstanceInternal>,
    pub log_map: HashMap<u128, Log>,
    pub map_map: HashMap<u128, MapRecord>,
    pub scene_map: HashMap<u128, SceneInternal>,
    pub sample_map: HashMap<u128, SampleInternal>,
    pub sample_annotation_map: HashMap<u128, SampleAnnotation>,
    pub sample_data_map: HashMap<u128, SampleData>,
    pub sensor_map: HashMap<u128, Sensor>,
    pub visibility_map: HashMap<u32, Visibility>,
    pub sorted_ego_pose_tokens: Vec<Token>,
    pub sorted_sample_tokens: Vec<Token>,
    pub sorted_sample_data_tokens: Vec<Token>,
    pub sorted_scene_tokens: Vec<Token>,
}

/// A file name joined to a directory. A file name that begins with a
/// slash stands for itself. Otherwise it follows the directory, after a slash
/// unless the directory is empty or ends with one.
pub open spec fn joined(dir: Seq<char>, file: Seq<char>) -> Seq<char> {
    if file.len() > 0 && file[0] == '/' {
        file
    } else if dir.len() == 0 || dir.last() == '/' {
        dir + file
    } else {
        dir + seq!['/'] + file
    }
}

/// Joins a file name to a directory.
pub fn join_path(dir: &str, file: &str) -> (path: String)
    ensures
        path@ == joined(dir@, file@),
{
    let file_length = file.unicode_len();
    if file_length > 0 && file.get_char(0) == '/' {
        return file.to_owned();
    }
    let dir_length = dir.unicode_len();
    if dir_length == 0 || dir.get_char(dir_length - 1) == '/' {
        String::from_str(dir).concat(file)
    } else {
        proof {
            reveal_strlit("/");
            assert("/"@ =~= seq!['/']);
        }
        String::from_str(dir).concat("/").concat(file)
    }
}

/// The indexed instance is the raw instance with its chain of annotations.
pub open spec fn instance_indexed(
    indexed: InstanceInternal,
    raw: Instance,
    annotations: Map<u128, SampleAnnotation>,
) -> bool {
    &&& indexed.token == raw.token
    &&& indexed.category_token == raw.category_token
    &&& InstanceInternal::chain_spec(raw, annotations) == Ok::<Seq<Token>, Error>(
        indexed.annotation_tokens@,
    )
}

/// The indexed scene is the raw scene with its chain of samples.
pub open spec fn scene_indexed(
    indexed: SceneInternal,
    raw: Scene,
    samples: Map<u128, Sample>,
) -> bool {
    &&& indexed.token == raw.token
    &&& indexed.name == raw.name
    &&& indexed.description == raw.description
    &&& indexed.log_token == raw.log_token
    &&& SceneInternal::chain_spec(raw, samples) == Ok::<Seq<Token>, Error>(
        indexed.sample_tokens@,
    )
}

/// The indexed sample is the raw sample with the given groups of tokens.
pub open spec fn sample_joined(
    indexed: SampleInternal,
    raw: Sample,
    annotation_tokens: Seq<Token>,
    sample_data_tokens: Seq<Token>,
) -> bool {
    &&& indexed.token == raw.token
    &&& indexed.next == raw.next
    &&& indexed.prev == raw.prev
    &&& indexed.timestamp == raw.timestamp
    &&& indexed.scene_token == raw.scene_token
    &&& indexed.annotation_tokens@ == annotation_tokens
    &&& indexed.sample_data_tokens@ == sample_data_tokens
}

/// The indexed sample is the raw sample with the tokens of the annotations
/// and of the data that name it.
pub open spec fn sample_indexed(
    key: u128,
    indexed: SampleInternal,
    raw: Sample,
    annotations: Map<u128, SampleAnnotation>,
    data: Map<u128, SampleData>,
) -> bool {
    &&& sample_joined(indexed, raw, indexed.annotation_tokens@, indexed.sample_data_tokens@)
    &&& is_group(indexed.annotation_tokens@, annotations, key)
    &&& is_group(indexed.sample_data_tokens@, data, key)
}

impl Dataset {
    /// The dataset holds the tables unchanged, but for what the indexer
    /// adds: the chain of each instance and of each scene, the groups of each
    /// sample, and the four chronological orders.
    pub open spec fn indexes(&self, tables: TablesView) -> bool {
        &&& self.attribute_map@ == tables.attribute_map
        &&& self.calibrated_sensor_map@ == tables.calibrated_sensor_map
        &&& self.category_map@ == tables.category_map
        &&& self.ego_pose_map@ == tables.ego_pose_map
        &&& self.log_map@ == tables.log_map
        &&& self.map_map@ == tables.map_map
        &&& self.sample_annotation_map@ == tables.sample_annotation_map
        &&& self.sample_data_map@ == tables.sample_data_map
        &&& self.sensor_map@ == tables.sensor_map
        &&& self.visibility_map@ == tables.visibility_map
        &&& forall|k: u128| #[trigger]
            self.instance_map@.contains_key(k) <==> tables.instance_map.contains_key(k)
        &&& forall|k: u128| #[trigger]
            self.instance_map@.contains_key(k) ==> instance_indexed(
                self.instance_map@[k],
                tables.instance_map[k],
                tables.sample_annotation_map,
            )
        &&& forall|k: u128| #[trigger] self.scene_map@.contains_key(k) <==> tables.scene_map.contains_key(k)
        &&& forall|k: u128| #[trigger]
            self.scene_map@.contains_key(k) ==> scene_indexed(
                self.scene_map@[k],
                tables.scene_map[k],
                tables.sample_map,
            )
        &&& forall|k: u128| #[trigger] self.sample_map@.contains_key(k) <==> tables.sample_map.contains_key(k)
        &&& forall|k: u128| #[trigger]
            self.sample_map@.contains_key(k) ==> sample_indexed(
                k,
                self.sample_map@[k],
                tables.sample_map[k],
                tables.sample_annotation_map,
                tables.sample_data_map,
            )
        &&& self.orders_by_time()
    }

    /// The four chronological orders list the poses, the samples, the data
    /// and the scenes by their times.
    pub open spec fn orders_by_time(&self) -> bool {
        &&& is_time_order(self.sorted_ego_pose_tokens@, times_of(self.ego_pose_map@))
        &&& is_time_order(self.sorted_sample_tokens@, times_of(self.sample_map@))
        &&& is_time_order(self.sorted_sample_data_tokens@, times_of(self.sample_data_map@))
        &&& is_time_order(self.sorted_scene_tokens@, scene_times(self.scene_map@, self.sample_map@))
    }

    /// What the indexer derived fits the records: the tokens of each
    /// instance are a whole chain of annotations, from a first one that names
    /// none before it to a last one that names none after it; the tokens of
    /// each scene are such a chain of samples; the tokens of each sample are the annotations and the data
    /// that name it, and the orders are chronological.
    pub open spec fn indexed(&self) -> bool {
        &&& forall|k: u128| #[trigger]
            self.instance_map@.contains_key(k) ==> is_whole_chain(
                self.sample_annotation_map@,
                self.instance_map@[k].annotation_tokens@,
            )
        &&& forall|k: u128| #[trigger]
            self.scene_map@.contains_key(k) ==> is_whole_chain(
                self.sample_map@,
                self.scene_map@[k].sample_tokens@,
            )
        &&& forall|k: u128| #[trigger]
            self.sample_map@.contains_key(k) ==> is_group(
                self.sample_map@[k].annotation_tokens@,
                self.sample_annotation_map@,
                k,
            ) && is_group(self.sample_map@[k].sample_data_tokens@, self.sample_data_map@, k)
        &&& self.orders_by_time()
    }

    /// Every token that a record of the dataset holds names a record of the
    /// table it points into: no navigation from a record can fail.
    pub open spec fn closed(&self) -> bool {
        &&& forall|k: u128| #[trigger]
            self.calibrated_sensor_map@.contains_key(k) ==> self.sensor_map@.contains_key(
                self.calibrated_sensor_map@[k].sensor_token.0,
            )
        &&& forall|k: u128| #[trigger]
            self.instance_map@.contains_key(k) ==> self.category_map@.contains_key(
                self.instance_map@[k].category_token.0,
            ) && self.all_annotations(self.instance_map@[k].annotation_tokens@)
        &&& forall|k: u128| #[trigger]
            self.map_map@.contains_key(k) ==> self.all_logs(self.map_map@[k].log_tokens@)
        &&& forall|k: u128| #[trigger]
            self.scene_map@.contains_key(k) ==> self.log_map@.contains_key(self.scene_map@[k].log_token.0)
                && self.all_samples(self.scene_map@[k].sample_tokens@)
        &&& forall|k: u128| #[trigger]
            self.sample_map@.contains_key(k) ==> {
                let sample = self.sample_map@[k];
                &&& self.scene_map@.contains_key(sample.scene_token.0)
                &&& self.opt_sample(sample.prev)
                &&& self.opt_sample(sample.next)
                &&& self.all_annotations(sample.annotation_tokens@)
                &&& self.all_sample_data(sample.sample_data_tokens@)
            }
        &&& forall|k: u128| #[trigger]
            self.sample_annotation_map@.contains_key(k) ==> {
                let annotation = self.sample_annotation_map@[k];
                &&& self.sample_map@.contains_key(annotation.sample_token.0)
                &&& self.instance_map@.contains_key(annotation.instance_token.0)
                &&& self.all_attributes(annotation.attribute_tokens@)
                &&& (annotation.visibility_token matches Some(v) ==> self.visibility_map@.contains_key(v.0))
                &&& self.opt_annotation(annotation.prev)
                &&& self.opt_annotation(annotation.next)
            }
        &&& forall|k: u128| #[trigger]
            self.sample_data_map@.contains_key(k) ==> {
                let data = self.sample_data_map@[k];
                &&& self.sample_map@.contains_key(data.sample_token.0)
                &&& self.ego_pose_map@.contains_key(data.ego_pose_token.0)
                &&& self.calibrated_sensor_map@.contains_key(data.calibrated_sensor_token.0)
                &&& self.opt_sample_data(data.prev)
                &&& self.opt_sample_data(data.next)
            }
    }

    /// Each of the tokens names an attribute.
    pub open spec fn all_attributes(&self, tokens: Seq<Token>) -> bool {
        forall|i: int| 0 <= i < tokens.len() ==> self.attribute_map@.contains_key(#[trigger] tokens[i].0)
    }

    /// Each of the tokens names a log.
    pub open spec fn all_logs(&self, tokens: Seq<Token>) -> bool {
        forall|i: int| 0 <= i < tokens.len() ==> self.log_map@.contains_key(#[trigger] tokens[i].0)
    }

    /// Each of the tokens names a scene.
    pub open spec fn all_scenes(&self, tokens: Seq<Token>) -> bool {
        forall|i: int| 0 <= i < tokens.len() ==> self.scene_map@.contains_key(#[trigger] tokens[i].0)
    }

    /// Each of the tokens names a sample.
    pub open spec fn all_samples(&self, tokens: Seq<Token>) -> bool {
        forall|i: int| 0 <= i < tokens.len() ==> self.sample_map@.contains_key(#[trigger] tokens[i].0)
    }

    /// Each of the tokens names an annotation.
    pub open spec fn all_annotations(&self, tokens: Seq<Token>) -> bool {
        forall|i: int| 0 <= i < tokens.len() ==> self.sample_annotation_map@.contains_key(#[trigger] tokens[i].0)
    }

    /// Each of the tokens names a sample data record.
    pub open spec fn all_sample_data(&self, tokens: Seq<Token>) -> bool {
        forall|i: int| 0 <= i < tokens.len() ==> self.sample_data_map@.contains_key(#[trigger] tokens[i].0)
    }

    /// The token, if there is one, names a sample.
    pub open spec fn opt_sample(&self, token: Option<Token>) -> bool {
        token matches Some(t) ==> self.sample_map@.contains_key(t.0)
    }

    /// The token, if there is one, names an annotation.
    pub open spec fn opt_annotation(&self, token: Option<Token>) -> bool {
        token matches Some(t) ==> self.sample_annotation_map@.contains_key(t.0)
    }

    /// The token, if there is one, names a sample data record.
    pub open spec fn opt_sample_data(&self, token: Option<Token>) -> bool {
        token matches Some(t) ==> self.sample_data_map@.contains_key(t.0)
    }

    /// Makes the dataset of the records of the thirteen files, with the
    /// integrity check.
    pub fn load(version: &str, dataset_dir: &str, lists: RecordLists) -> (r: core::result::Result<Dataset, Error>)
        ensures
            r is Ok <==> lists@.sound() && indexable(lists@),
            r matches Ok(dataset) ==> dataset.indexes(lists@) && dataset.indexed() && dataset.closed()
                && dataset.version@ == version@ && dataset.dataset_dir@ == dataset_dir@,
            r matches Err(e) ==> load_failure(true, lists@, e),
    {
        DatasetLoader::default().load(version, dataset_dir, lists)
    }

    /// Gets the version of the dataset.
    pub fn version(&self) -> (version: &str)
        ensures
            version@ == self.version@,
    {
        self.version.as_str()
    }

    /// Gets the directory of the dataset.
    pub fn dir(&self) -> (dir: &str)
        ensures
            dir@ == self.dataset_dir@,
    {
        self.dataset_dir.as_str()
    }
}

} // verus!
