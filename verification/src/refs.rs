//! Handles: a record of a dataset together with the dataset it belongs to.
//!
//! A handle shares the dataset and remembers the token of one record. It
//! resolves the token when it is asked for the record, and makes the handle
//! of a related record from a token that its own record holds. The record of
//! a handle always exists; a related record exists when the dataset is
//! closed, which loading with the integrity check ensures.

use crate::dataset::{join_path, joined, Dataset};
use crate::parsed::{InstanceInternal, SampleInternal, SceneInternal};
use crate::serializable::types::{
    Attribute, CalibratedSensor, Category, EgoPose, Log, MapRecord, SampleAnnotation, SampleData, Sensor,
    Visibility,
};
use crate::table::{keys_of, table_keys};
use crate::token::{Token, VisibilityToken};
use std::collections::HashMap;
use std::sync::Arc;
use vstd::pervasive::unreached;
use vstd::prelude::*;

verus! {

broadcast use vstd::std_specs::hash::group_hash_axioms;

/// A handle of a whole dataset.
pub struct DatasetRef {
    owner: Arc<Dataset>,
}

/// A handle of an attribute.
pub struct AttributeRef {
    owner: Arc<Dataset>,
    key: u128,
}

/// A handle of a calibrated sensor.
pub struct CalibratedSensorRef {
    owner: Arc<Dataset>,
    key: u128,
}

/// A handle of a category.
pub struct CategoryRef {
    owner: Arc<Dataset>,
    key: u128,
}

/// A handle of an ego pose.
pub struct EgoPoseRef {
    owner: Arc<Dataset>,
    key: u128,
}

/// A handle of an instance.
pub struct InstanceRef {
    owner: Arc<Dataset>,
    key: u128,
}

/// A handle of a log.
pub struct LogRef {
    owner: Arc<Dataset>,
    key: u128,
}

/// A handle of a map.
pub struct MapRef {
    owner: Arc<Dataset>,
    key: u128,
}

/// A handle of a scene.
pub struct SceneRef {
    owner: Arc<Dataset>,
    key: u128,
}

/// A handle of a sample.
pub struct SampleRef {
    owner: Arc<Dataset>,
    key: u128,
}

/// A handle of a sample annotation.
pub struct SampleAnnotationRef {
    owner: Arc<Dataset>,
    key: u128,
}

/// A handle of a sample data record.
pub struct SampleDataRef {
    owner: Arc<Dataset>,
    key: u128,
}

/// A handle of a sensor.
pub struct SensorRef {
    owner: Arc<Dataset>,
    key: u128,
}

/// A handle of a visibility.
pub struct VisibilityRef {
    owner: Arc<Dataset>,
    key: u32,
}

impl Clone for DatasetRef {
    fn clone(&self) -> (copy: Self)
        ensures
            copy.arena() == self.arena(),
    {
        DatasetRef { owner: self.owner.clone() }
    }
}

impl Clone for AttributeRef {
    fn clone(&self) -> (copy: Self)
        ensures
            copy.arena() == self.arena(),
            copy.key() == self.key(),
    {
        proof {
            use_type_invariant(self);
        }
        AttributeRef { owner: self.owner.clone(), key: self.key }
    }
}

impl Clone for CalibratedSensorRef {
    fn clone(&self) -> (copy: Self)
        ensures
            copy.arena() == self.arena(),
            copy.key() == self.key(),
    {
        proof {
            use_type_invariant(self);
        }
        CalibratedSensorRef { owner: self.owner.clone(), key: self.key }
    }
}

impl Clone for CategoryRef {
    fn clone(&self) -> (copy: Self)
        ensures
            copy.arena() == self.arena(),
            copy.key() == self.key(),
    {
        proof {
            use_type_invariant(self);
        }
        CategoryRef { owner: self.owner.clone(), key: self.key }
    }
}

impl Clone for EgoPoseRef {
    fn clone(&self) -> (copy: Self)
        ensures
            copy.arena() == self.arena(),
            copy.key() == self.key(),
    {
        proof {
            use_type_invariant(self);
        }
        EgoPoseRef { owner: self.owner.clone(), key: self.key }
    }
}

impl Clone for InstanceRef {
    fn clone(&self) -> (copy: Self)
        ensures
            copy.arena() == self.arena(),
            copy.key() == self.key(),
    {
        proof {
            use_type_invariant(self);
        }
        InstanceRef { owner: self.owner.clone(), key: self.key }
    }
}

impl Clone for LogRef {
    fn clone(&self) -> (copy: Self)
        ensures
            copy.arena() == self.arena(),
            copy.key() == self.key(),
    {
        proof {
            use_type_invariant(self);
        }
        LogRef { owner: self.owner.clone(), key: self.key }
    }
}

impl Clone for MapRef {
    fn clone(&self) -> (copy: Self)
        ensures
            copy.arena() == self.arena(),
            copy.key() == self.key(),
    {
        proof {
            use_type_invariant(self);
        }
        MapRef { owner: self.owner.clone(), key: self.key }
    }
}

impl Clone for SceneRef {
    fn clone(&self) -> (copy: Self)
        ensures
            copy.arena() == self.arena(),
            copy.key() == self.key(),
    {
        proof {
            use_type_invariant(self);
        }
        SceneRef { owner: self.owner.clone(), key: self.key }
    }
}

impl Clone for SampleRef {
    fn clone(&self) -> (copy: Self)
        ensures
            copy.arena() == self.arena(),
            copy.key() == self.key(),
    {
        proof {
            use_type_invariant(self);
        }
        SampleRef { owner: self.owner.clone(), key: self.key }
    }
}

impl Clone for SampleAnnotationRef {
    fn clone(&self) -> (copy: Self)
        ensures
            copy.arena() == self.arena(),
            copy.key() == self.key(),
    {
        proof {
            use_type_invariant(self);
        }
        SampleAnnotationRef { owner: self.owner.clone(), key: self.key }
    }
}

impl Clone for SampleDataRef {
    fn clone(&self) -> (copy: Self)
        ensures
            copy.arena() == self.arena(),
            copy.key() == self.key(),
    {
        proof {
            use_type_invariant(self);
        }
        SampleDataRef { owner: self.owner.clone(), key: self.key }
    }
}

impl Clone for SensorRef {
    fn clone(&self) -> (copy: Self)
        ensures
            copy.arena() == self.arena(),
            copy.key() == self.key(),
    {
        proof {
            use_type_invariant(self);
        }
        SensorRef { owner: self.owner.clone(), key: self.key }
    }
}

impl Clone for VisibilityRef {
    fn clone(&self) -> (copy: Self)
        ensures
            copy.arena() == self.arena(),
            copy.key() == self.key(),
    {
        proof {
            use_type_invariant(self);
        }
        VisibilityRef { owner: self.owner.clone(), key: self.key }
    }
}

/// A handle of a record that a token of sixteen bytes names.
trait Handle: Sized {
    /// The records of the handle's kind.
    type Record;

    /// The table of the handle's kind in a dataset.
    spec fn table(dataset: Dataset) -> Map<u128, Self::Record>;

    spec fn handle_key(&self) -> u128;

    spec fn handle_arena(&self) -> Dataset;

    /// The handle of the record that the dataset holds under the key.
    fn make(owner: &Arc<Dataset>, key: u128) -> (handle: Self)
        requires
            Self::table(**owner).contains_key(key),
        ensures
            handle.handle_key() == key,
            handle.handle_arena() == **owner,
    ;
}

impl Handle for AttributeRef {
    type Record = Attribute;

    spec fn table(dataset: Dataset) -> Map<u128, Attribute> {
        dataset.attribute_map@
    }

    spec fn handle_key(&self) -> u128 {
        self.key()
    }

    spec fn handle_arena(&self) -> Dataset {
        self.arena()
    }

    fn make(owner: &Arc<Dataset>, key: u128) -> AttributeRef {
        AttributeRef { owner: owner.clone(), key }
    }
}

impl Handle for CalibratedSensorRef {
    type Record = CalibratedSensor;

    spec fn table(dataset: Dataset) -> Map<u128, CalibratedSensor> {
        dataset.calibrated_sensor_map@
    }

    spec fn handle_key(&self) -> u128 {
        self.key()
    }

    spec fn handle_arena(&self) -> Dataset {
        self.arena()
    }

    fn make(owner: &Arc<Dataset>, key: u128) -> CalibratedSensorRef {
        CalibratedSensorRef { owner: owner.clone(), key }
    }
}

impl Handle for CategoryRef {
    type Record = Category;

    spec fn table(dataset: Dataset) -> Map<u128, Category> {
        dataset.category_map@
    }

    spec fn handle_key(&self) -> u128 {
        self.key()
    }

    spec fn handle_arena(&self) -> Dataset {
        self.arena()
    }

    fn make(owner: &Arc<Dataset>, key: u128) -> CategoryRef {
        CategoryRef { owner: owner.clone(), key }
    }
}

impl Handle for EgoPoseRef {
    type Record = EgoPose;

    spec fn table(dataset: Dataset) -> Map<u128, EgoPose> {
        dataset.ego_pose_map@
    }

    spec fn handle_key(&self) -> u128 {
        self.key()
    }

    spec fn handle_arena(&self) -> Dataset {
        self.arena()
    }

    fn make(owner: &Arc<Dataset>, key: u128) -> EgoPoseRef {
        EgoPoseRef { owner: owner.clone(), key }
    }
}

impl Handle for InstanceRef {
    type Record = InstanceInternal;

    spec fn table(dataset: Dataset) -> Map<u128, InstanceInternal> {
        dataset.instance_map@
    }

    spec fn handle_key(&self) -> u128 {
        self.key()
    }

    spec fn handle_arena(&self) -> Dataset {
        self.arena()
    }

    fn make(owner: &Arc<Dataset>, key: u128) -> InstanceRef {
        InstanceRef { owner: owner.clone(), key }
    }
}

impl Handle for LogRef {
    type Record = Log;

    spec fn table(dataset: Dataset) -> Map<u128, Log> {
        dataset.log_map@
    }

    spec fn handle_key(&self) -> u128 {
        self.key()
    }

    spec fn handle_arena(&self) -> Dataset {
        self.arena()
    }

    fn make(owner: &Arc<Dataset>, key: u128) -> LogRef {
        LogRef { owner: owner.clone(), key }
    }
}

impl Handle for MapRef {
    type Record = MapRecord;

    spec fn table(dataset: Dataset) -> Map<u128, MapRecord> {
        dataset.map_map@
    }

    spec fn handle_key(&self) -> u128 {
        self.key()
    }

    spec fn handle_arena(&self) -> Dataset {
        self.arena()
    }

    fn make(owner: &Arc<Dataset>, key: u128) -> MapRef {
        MapRef { owner: owner.clone(), key }
    }
}

impl Handle for SceneRef {
    type Record = SceneInternal;

    spec fn table(dataset: Dataset) -> Map<u128, SceneInternal> {
        dataset.scene_map@
    }

    spec fn handle_key(&self) -> u128 {
        self.key()
    }

    spec fn handle_arena(&self) -> Dataset {
        self.arena()
    }

    fn make(owner: &Arc<Dataset>, key: u128) -> SceneRef {
        SceneRef { owner: owner.clone(), key }
    }
}

impl Handle for SampleRef {
    type Record = SampleInternal;

    spec fn table(dataset: Dataset) -> Map<u128, SampleInternal> {
        dataset.sample_map@
    }

    spec fn handle_key(&self) -> u128 {
        self.key()
    }

    spec fn handle_arena(&self) -> Dataset {
        self.arena()
    }

    fn make(owner: &Arc<Dataset>, key: u128) -> SampleRef {
        SampleRef { owner: owner.clone(), key }
    }
}

impl Handle for SampleAnnotationRef {
    type Record = SampleAnnotation;

    spec fn table(dataset: Dataset) -> Map<u128, SampleAnnotation> {
        dataset.sample_annotation_map@
    }

    spec fn handle_key(&self) -> u128 {
        self.key()
    }

    spec fn handle_arena(&self) -> Dataset {
        self.arena()
    }

    fn make(owner: &Arc<Dataset>, key: u128) -> SampleAnnotationRef {
        SampleAnnotationRef { owner: owner.clone(), key }
    }
}

impl Handle for SampleDataRef {
    type Record = SampleData;

    spec fn table(dataset: Dataset) -> Map<u128, SampleData> {
        dataset.sample_data_map@
    }

    spec fn handle_key(&self) -> u128 {
        self.key()
    }

    spec fn handle_arena(&self) -> Dataset {
        self.arena()
    }

    fn make(owner: &Arc<Dataset>, key: u128) -> SampleDataRef {
        SampleDataRef { owner: owner.clone(), key }
    }
}

impl Handle for SensorRef {
    type Record = Sensor;

    spec fn table(dataset: Dataset) -> Map<u128, Sensor> {
        dataset.sensor_map@
    }

    spec fn handle_key(&self) -> u128 {
        self.key()
    }

    spec fn handle_arena(&self) -> Dataset {
        self.arena()
    }

    fn make(owner: &Arc<Dataset>, key: u128) -> SensorRef {
        SensorRef { owner: owner.clone(), key }
    }
}

/// The handles of the records that the tokens name, in the order of the tokens.
fn handles_of<H: Handle>(owner: &Arc<Dataset>, tokens: &Vec<Token>) -> (handles: Vec<H>)
    requires
        forall|i: int| 0 <= i < tokens@.len() ==> H::table(**owner).contains_key(#[trigger] tokens@[i].0),
    ensures
        handles@.len() == tokens@.len(),
        forall|i: int|
            0 <= i < tokens@.len() ==> (#[trigger] handles@[i]).handle_key() == tokens@[i].0
                && handles@[i].handle_arena() == **owner,
{
    let mut handles: Vec<H> = Vec::new();
    let mut i: usize = 0;
    while i < tokens.len()
        invariant
            i <= tokens@.len(),
            forall|j: int| 0 <= j < tokens@.len() ==> H::table(**owner).contains_key(#[trigger] tokens@[j].0),
            handles@.len() == i,
            forall|j: int|
                0 <= j < i ==> (#[trigger] handles@[j]).handle_key() == tokens@[j].0 && handles@[j].handle_arena()
                    == **owner,
        decreases tokens@.len() - i,
    {
        let key = tokens[i].0;
        handles.push(H::make(owner, key));
        i += 1;
    }
    handles
}

/// The handles of all the records of a table, each once, in no particular order.
fn all_handles<H: Handle>(owner: &Arc<Dataset>, map: &HashMap<u128, H::Record>) -> (handles: Vec<H>)
    requires
        map@ == H::table(**owner),
    ensures
        forall|i: int|
            0 <= i < handles@.len() ==> map@.contains_key((#[trigger] handles@[i]).handle_key())
                && handles@[i].handle_arena() == **owner,
        forall|k: u128| #[trigger]
            map@.contains_key(k) ==> exists|i: int|
                0 <= i < handles@.len() && (#[trigger] handles@[i]).handle_key() == k,
        forall|i: int, j: int|
            0 <= i < j < handles@.len() ==> (#[trigger] handles@[i]).handle_key()
                != (#[trigger] handles@[j]).handle_key(),
{
    let keys = table_keys(map);
    let mut handles: Vec<H> = Vec::new();
    let mut i: usize = 0;
    while i < keys.len()
        invariant
            i <= keys@.len(),
            map@ == H::table(**owner),
            forall|k: u128| keys@.contains(k) <==> #[trigger] map@.contains_key(k),
            handles@.len() == i,
            forall|j: int|
                0 <= j < i ==> (#[trigger] handles@[j]).handle_key() == keys@[j] && handles@[j].handle_arena()
                    == **owner,
        decreases keys@.len() - i,
    {
        let key = keys[i];
        assert(keys@.contains(key));
        handles.push(H::make(owner, key));
        i += 1;
    }
    proof {
        assert forall|k: u128| #[trigger] map@.contains_key(k) implies exists|i: int|
            0 <= i < handles@.len() && (#[trigger] handles@[i]).handle_key() == k by {
            assert(keys@.contains(k));
            let i = choose|i: int| 0 <= i < keys@.len() && keys@[i] == k;
            assert(handles@[i].handle_key() == k);
        }
        assert forall|i: int| 0 <= i < handles@.len() implies map@.contains_key(
            (#[trigger] handles@[i]).handle_key(),
        ) && handles@[i].handle_arena() == **owner by {
            assert(keys@.contains(keys@[i]));
        }
    }
    handles
}

impl DatasetRef {
    /// The dataset that the handle shares.
    pub closed spec fn arena(&self) -> Dataset {
        *self.owner
    }

    /// Makes the handle of a dataset, which from then on is shared and never changed.
    pub fn new(dataset: Dataset) -> (handle: DatasetRef)
        ensures
            handle.arena() == dataset,
    {
        DatasetRef { owner: Arc::new(dataset) }
    }

    /// A handle of the same dataset.
    pub fn dataset(&self) -> (handle: DatasetRef)
        ensures
            handle.arena() == self.arena(),
    {
        DatasetRef { owner: self.owner.clone() }
    }

    /// The dataset itself.
    pub fn get(&self) -> (dataset: &Dataset)
        ensures
            *dataset == self.arena(),
    {
        &*self.owner
    }

    /// Looks an attribute up by its token.
    pub fn attribute(&self, token: Token) -> (found: Option<AttributeRef>)
        ensures
            found is Some <==> self.arena().attribute_map@.contains_key(token.0),
            found matches Some(handle) ==> handle.key() == token.0 && handle.arena() == self.arena(),
    {
        if self.owner.attribute_map.contains_key(&token.0) {
            Some(AttributeRef { owner: self.owner.clone(), key: token.0 })
        } else {
            None
        }
    }

    /// Looks a calibrated sensor up by its token.
    pub fn calibrated_sensor(&self, token: Token) -> (found: Option<CalibratedSensorRef>)
        ensures
            found is Some <==> self.arena().calibrated_sensor_map@.contains_key(token.0),
            found matches Some(handle) ==> handle.key() == token.0 && handle.arena() == self.arena(),
    {
        if self.owner.calibrated_sensor_map.contains_key(&token.0) {
            Some(CalibratedSensorRef { owner: self.owner.clone(), key: token.0 })
        } else {
            None
        }
    }

    /// Looks a category up by its token.
    pub fn category(&self, token: Token) -> (found: Option<CategoryRef>)
        ensures
            found is Some <==> self.arena().category_map@.contains_key(token.0),
            found matches Some(handle) ==> handle.key() == token.0 && handle.arena() == self.arena(),
    {
        if self.owner.category_map.contains_key(&token.0) {
            Some(CategoryRef { owner: self.owner.clone(), key: token.0 })
        } else {
            None
        }
    }

    /// Looks an ego pose up by its token.
    pub fn ego_pose(&self, token: Token) -> (found: Option<EgoPoseRef>)
        ensures
            found is Some <==> self.arena().ego_pose_map@.contains_key(token.0),
            found matches Some(handle) ==> handle.key() == token.0 && handle.arena() == self.arena(),
    {
        if self.owner.ego_pose_map.contains_key(&token.0) {
            Some(EgoPoseRef { owner: self.owner.clone(), key: token.0 })
        } else {
            None
        }
    }

    /// Looks an instance up by its token.
    pub fn instance(&self, token: Token) -> (found: Option<InstanceRef>)
        ensures
            found is Some <==> self.arena().instance_map@.contains_key(token.0),
            found matches Some(handle) ==> handle.key() == token.0 && handle.arena() == self.arena(),
    {
        if self.owner.instance_map.contains_key(&token.0) {
            Some(InstanceRef { owner: self.owner.clone(), key: token.0 })
        } else {
            None
        }
    }

    /// Looks a log up by its token.
    pub fn log(&self, token: Token) -> (found: Option<LogRef>)
        ensures
            found is Some <==> self.arena().log_map@.contains_key(token.0),
            found matches Some(handle) ==> handle.key() == token.0 && handle.arena() == self.arena(),
    {
        if self.owner.log_map.contains_key(&token.0) {
            Some(LogRef { owner: self.owner.clone(), key: token.0 })
        } else {
            None
        }
    }

    /// Looks a map up by its token.
    pub fn map(&self, token: Token) -> (found: Option<MapRef>)
        ensures
            found is Some <==> self.arena().map_map@.contains_key(token.0),
            found matches Some(handle) ==> handle.key() == token.0 && handle.arena() == self.arena(),
    {
        if self.owner.map_map.contains_key(&token.0) {
            Some(MapRef { owner: self.owner.clone(), key: token.0 })
        } else {
            None
        }
    }

    /// Looks a scene up by its token.
    pub fn scene(&self, token: Token) -> (found: Option<SceneRef>)
        ensures
            found is Some <==> self.arena().scene_map@.contains_key(token.0),
            found matches Some(handle) ==> handle.key() == token.0 && handle.arena() == self.arena(),
    {
        if self.owner.scene_map.contains_key(&token.0) {
            Some(SceneRef { owner: self.owner.clone(), key: token.0 })
        } else {
            None
        }
    }

    /// Looks a sample up by its token.
    pub fn sample(&self, token: Token) -> (found: Option<SampleRef>)
        ensures
            found is Some <==> self.arena().sample_map@.contains_key(token.0),
            found matches Some(handle) ==> handle.key() == token.0 && handle.arena() == self.arena(),
    {
        if self.owner.sample_map.contains_key(&token.0) {
            Some(SampleRef { owner: self.owner.clone(), key: token.0 })
        } else {
            None
        }
    }

    /// Looks a sample annotation up by its token.
    pub fn sample_annotation(&self, token: Token) -> (found: Option<SampleAnnotationRef>)
        ensures
            found is Some <==> self.arena().sample_annotation_map@.contains_key(token.0),
            found matches Some(handle) ==> handle.key() == token.0 && handle.arena() == self.arena(),
    {
        if self.owner.sample_annotation_map.contains_key(&token.0) {
            Some(SampleAnnotationRef { owner: self.owner.clone(), key: token.0 })
        } else {
            None
        }
    }

    /// Looks a sample data record up by its token.
    pub fn sample_data(&self, token: Token) -> (found: Option<SampleDataRef>)
        ensures
            found is Some <==> self.arena().sample_data_map@.contains_key(token.0),
            found matches Some(handle) ==> handle.key() == token.0 && handle.arena() == self.arena(),
    {
        if self.owner.sample_data_map.contains_key(&token.0) {
            Some(SampleDataRef { owner: self.owner.clone(), key: token.0 })
        } else {
            None
        }
    }

    /// Looks a sensor up by its token.
    pub fn sensor(&self, token: Token) -> (found: Option<SensorRef>)
        ensures
            found is Some <==> self.arena().sensor_map@.contains_key(token.0),
            found matches Some(handle) ==> handle.key() == token.0 && handle.arena() == self.arena(),
    {
        if self.owner.sensor_map.contains_key(&token.0) {
            Some(SensorRef { owner: self.owner.clone(), key: token.0 })
        } else {
            None
        }
    }

    /// Looks a visibility up by its token.
    pub fn visibility(&self, token: VisibilityToken) -> (found: Option<VisibilityRef>)
        ensures
            found is Some <==> self.arena().visibility_map@.contains_key(token.0),
            found matches Some(handle) ==> handle.key() == token.0 && handle.arena() == self.arena(),
    {
        if self.owner.visibility_map.contains_key(&token.0) {
            Some(VisibilityRef { owner: self.owner.clone(), key: token.0 })
        } else {
            None
        }
    }

    /// The handles of all the records of the table, each once, in no particular order.
    pub fn attribute_iter(&self) -> (handles: Vec<AttributeRef>)
        ensures
            forall|i: int|
                0 <= i < handles@.len() ==> self.arena().attribute_map@.contains_key((#[trigger] handles@[i]).key())
                    && handles@[i].arena() == self.arena(),
            forall|k: u128| #[trigger]
                self.arena().attribute_map@.contains_key(k) ==> exists|i: int|
                    0 <= i < handles@.len() && (#[trigger] handles@[i]).key() == k,
            forall|i: int, j: int|
                0 <= i < j < handles@.len() ==> (#[trigger] handles@[i]).key() != (#[trigger] handles@[j]).key(),
    {
        all_handles::<AttributeRef>(&self.owner, &self.owner.attribute_map)
    }

    /// The handles of all the records of the table, each once, in no particular order.
    pub fn calibrated_sensor_iter(&self) -> (handles: Vec<CalibratedSensorRef>)
        ensures
            forall|i: int|
                0 <= i < handles@.len() ==> self.arena().calibrated_sensor_map@.contains_key((#[trigger] handles@[i]).key())
                    && handles@[i].arena() == self.arena(),
            forall|k: u128| #[trigger]
                self.arena().calibrated_sensor_map@.contains_key(k) ==> exists|i: int|
                    0 <= i < handles@.len() && (#[trigger] handles@[i]).key() == k,
            forall|i: int, j: int|
                0 <= i < j < handles@.len() ==> (#[trigger] handles@[i]).key() != (#[trigger] handles@[j]).key(),
    {
        all_handles::<CalibratedSensorRef>(&self.owner, &self.owner.calibrated_sensor_map)
    }

    /// The handles of all the records of the table, each once, in no particular order.
    pub fn category_iter(&self) -> (handles: Vec<CategoryRef>)
        ensures
            forall|i: int|
                0 <= i < handles@.len() ==> self.arena().category_map@.contains_key((#[trigger] handles@[i]).key())
                    && handles@[i].arena() == self.arena(),
            forall|k: u128| #[trigger]
                self.arena().category_map@.contains_key(k) ==> exists|i: int|
                    0 <= i < handles@.len() && (#[trigger] handles@[i]).key() == k,
            forall|i: int, j: int|
                0 <= i < j < handles@.len() ==> (#[trigger] handles@[i]).key() != (#[trigger] handles@[j]).key(),
    {
        all_handles::<CategoryRef>(&self.owner, &self.owner.category_map)
    }

    /// The handles of all the records of the table, each once, in no particular order.
    pub fn ego_pose_iter(&self) -> (handles: Vec<EgoPoseRef>)
        ensures
            forall|i: int|
                0 <= i < handles@.len() ==> self.arena().ego_pose_map@.contains_key((#[trigger] handles@[i]).key())
                    && handles@[i].arena() == self.arena(),
            forall|k: u128| #[trigger]
                self.arena().ego_pose_map@.contains_key(k) ==> exists|i: int|
                    0 <= i < handles@.len() && (#[trigger] handles@[i]).key() == k,
            forall|i: int, j: int|
                0 <= i < j < handles@.len() ==> (#[trigger] handles@[i]).key() != (#[trigger] handles@[j]).key(),
    {
        all_handles::<EgoPoseRef>(&self.owner, &self.owner.ego_pose_map)
    }

    /// The handles of all the records of the table, each once, in no particular order.
    pub fn instance_iter(&self) -> (handles: Vec<InstanceRef>)
        ensures
            forall|i: int|
                0 <= i < handles@.len() ==> self.arena().instance_map@.contains_key((#[trigger] handles@[i]).key())
                    && handles@[i].arena() == self.arena(),
            forall|k: u128| #[trigger]
                self.arena().instance_map@.contains_key(k) ==> exists|i: int|
                    0 <= i < handles@.len() && (#[trigger] handles@[i]).key() == k,
            forall|i: int, j: int|
                0 <= i < j < handles@.len() ==> (#[trigger] handles@[i]).key() != (#[trigger] handles@[j]).key(),
    {
        all_handles::<InstanceRef>(&self.owner, &self.owner.instance_map)
    }

    /// The handles of all the records of the table, each once, in no particular order.
    pub fn log_iter(&self) -> (handles: Vec<LogRef>)
        ensures
            forall|i: int|
                0 <= i < handles@.len() ==> self.arena().log_map@.contains_key((#[trigger] handles@[i]).key())
                    && handles@[i].arena() == self.arena(),
            forall|k: u128| #[trigger]
                self.arena().log_map@.contains_key(k) ==> exists|i: int|
                    0 <= i < handles@.len() && (#[trigger] handles@[i]).key() == k,
            forall|i: int, j: int|
                0 <= i < j < handles@.len() ==> (#[trigger] handles@[i]).key() != (#[trigger] handles@[j]).key(),
    {
        all_handles::<LogRef>(&self.owner, &self.owner.log_map)
    }

    /// The handles of all the records of the table, each once, in no particular order.
    pub fn map_iter(&self) -> (handles: Vec<MapRef>)
        ensures
            forall|i: int|
                0 <= i < handles@.len() ==> self.arena().map_map@.contains_key((#[trigger] handles@[i]).key())
                    && handles@[i].arena() == self.arena(),
            forall|k: u128| #[trigger]
                self.arena().map_map@.contains_key(k) ==> exists|i: int|
                    0 <= i < handles@.len() && (#[trigger] handles@[i]).key() == k,
            forall|i: int, j: int|
                0 <= i < j < handles@.len() ==> (#[trigger] handles@[i]).key() != (#[trigger] handles@[j]).key(),
    {
        all_handles::<MapRef>(&self.owner, &self.owner.map_map)
    }

    /// The handles of all the records of the table, each once, in no particular order.
    pub fn scene_iter(&self) -> (handles: Vec<SceneRef>)
        ensures
            forall|i: int|
                0 <= i < handles@.len() ==> self.arena().scene_map@.contains_key((#[trigger] handles@[i]).key())
                    && handles@[i].arena() == self.arena(),
            forall|k: u128| #[trigger]
                self.arena().scene_map@.contains_key(k) ==> exists|i: int|
                    0 <= i < handles@.len() && (#[trigger] handles@[i]).key() == k,
            forall|i: int, j: int|
                0 <= i < j < handles@.len() ==> (#[trigger] handles@[i]).key() != (#[trigger] handles@[j]).key(),
    {
        all_handles::<SceneRef>(&self.owner, &self.owner.scene_map)
    }

    /// The handles of all the records of the table, each once, in no particular order.
    pub fn sample_iter(&self) -> (handles: Vec<SampleRef>)
        ensures
            forall|i: int|
                0 <= i < handles@.len() ==> self.arena().sample_map@.contains_key((#[trigger] handles@[i]).key())
                    && handles@[i].arena() == self.arena(),
            forall|k: u128| #[trigger]
                self.arena().sample_map@.contains_key(k) ==> exists|i: int|
                    0 <= i < handles@.len() && (#[trigger] handles@[i]).key() == k,
            forall|i: int, j: int|
                0 <= i < j < handles@.len() ==> (#[trigger] handles@[i]).key() != (#[trigger] handles@[j]).key(),
    {
        all_handles::<SampleRef>(&self.owner, &self.owner.sample_map)
    }

    /// The handles of all the records of the table, each once, in no particular order.
    pub fn sample_annotation_iter(&self) -> (handles: Vec<SampleAnnotationRef>)
        ensures
            forall|i: int|
                0 <= i < handles@.len() ==> self.arena().sample_annotation_map@.contains_key((#[trigger] handles@[i]).key())
                    && handles@[i].arena() == self.arena(),
            forall|k: u128| #[trigger]
                self.arena().sample_annotation_map@.contains_key(k) ==> exists|i: int|
                    0 <= i < handles@.len() && (#[trigger] handles@[i]).key() == k,
            forall|i: int, j: int|
                0 <= i < j < handles@.len() ==> (#[trigger] handles@[i]).key() != (#[trigger] handles@[j]).key(),
    {
        all_handles::<SampleAnnotationRef>(&self.owner, &self.owner.sample_annotation_map)
    }

    /// The handles of all the records of the table, each once, in no particular order.
    pub fn sample_data_iter(&self) -> (handles: Vec<SampleDataRef>)
        ensures
            forall|i: int|
                0 <= i < handles@.len() ==> self.arena().sample_data_map@.contains_key((#[trigger] handles@[i]).key())
                    && handles@[i].arena() == self.arena(),
            forall|k: u128| #[trigger]
                self.arena().sample_data_map@.contains_key(k) ==> exists|i: int|
                    0 <= i < handles@.len() && (#[trigger] handles@[i]).key() == k,
            forall|i: int, j: int|
                0 <= i < j < handles@.len() ==> (#[trigger] handles@[i]).key() != (#[trigger] handles@[j]).key(),
    {
        all_handles::<SampleDataRef>(&self.owner, &self.owner.sample_data_map)
    }

    /// The handles of all the records of the table, each once, in no particular order.
    pub fn sensor_iter(&self) -> (handles: Vec<SensorRef>)
        ensures
            forall|i: int|
                0 <= i < handles@.len() ==> self.arena().sensor_map@.contains_key((#[trigger] handles@[i]).key())
                    && handles@[i].arena() == self.arena(),
            forall|k: u128| #[trigger]
                self.arena().sensor_map@.contains_key(k) ==> exists|i: int|
                    0 <= i < handles@.len() && (#[trigger] handles@[i]).key() == k,
            forall|i: int, j: int|
                0 <= i < j < handles@.len() ==> (#[trigger] handles@[i]).key() != (#[trigger] handles@[j]).key(),
    {
        all_handles::<SensorRef>(&self.owner, &self.owner.sensor_map)
    }

    /// The handles of all the records of the table, each once, in no particular order.
    pub fn visibility_iter(&self) -> (handles: Vec<VisibilityRef>)
        ensures
            forall|i: int|
                0 <= i < handles@.len() ==> self.arena().visibility_map@.contains_key((#[trigger] handles@[i]).key())
                    && handles@[i].arena() == self.arena(),
            forall|k: u32| #[trigger]
                self.arena().visibility_map@.contains_key(k) ==> exists|i: int|
                    0 <= i < handles@.len() && (#[trigger] handles@[i]).key() == k,
            forall|i: int, j: int|
                0 <= i < j < handles@.len() ==> (#[trigger] handles@[i]).key() != (#[trigger] handles@[j]).key(),
    {
        let keys = keys_of(&self.owner.visibility_map);
        let mut handles: Vec<VisibilityRef> = Vec::new();
        let mut i: usize = 0;
        while i < keys.len()
            invariant
                i <= keys@.len(),
                forall|k: u32| keys@.contains(k) <==> #[trigger] self.owner.visibility_map@.contains_key(k),
                handles@.len() == i,
                forall|j: int|
                    0 <= j < i ==> (#[trigger] handles@[j]).key() == keys@[j] && handles@[j].arena() == *self.owner,
            decreases keys@.len() - i,
        {
            let key = keys[i];
            assert(keys@.contains(key));
            handles.push(VisibilityRef { owner: self.owner.clone(), key });
            i += 1;
        }
        proof {
            assert forall|k: u32| #[trigger] self.arena().visibility_map@.contains_key(k) implies exists|i: int|
                0 <= i < handles@.len() && (#[trigger] handles@[i]).key() == k by {
                assert(keys@.contains(k));
                let i = choose|i: int| 0 <= i < keys@.len() && keys@[i] == k;
                assert(handles@[i].key() == k);
            }
            assert forall|i: int| 0 <= i < handles@.len() implies self.arena().visibility_map@.contains_key(
                (#[trigger] handles@[i]).key(),
            ) && handles@[i].arena() == self.arena() by {
                assert(keys@.contains(keys@[i]));
            }
        }
        handles
    }

    /// The handles of the scenes in chronological order: by the earliest
    /// time among the samples of each. The order must hold only tokens of
    /// scenes, which the indexer ensures.
    pub fn scene_iter_sorted(&self) -> (handles: Vec<SceneRef>)
        requires
            self.arena().all_scenes(self.arena().sorted_scene_tokens@),
        ensures
            handles@.len() == self.arena().sorted_scene_tokens@.len(),
            forall|i: int|
                0 <= i < handles@.len() ==> (#[trigger] handles@[i]).key() == self.arena().sorted_scene_tokens@[i].0
                    && handles@[i].arena() == self.arena(),
    {
        handles_of::<SceneRef>(&self.owner, &self.owner.sorted_scene_tokens)
    }

    /// The handles of the samples in chronological order. The order must
    /// hold only tokens of samples, which the indexer ensures.
    pub fn sample_iter_sorted(&self) -> (handles: Vec<SampleRef>)
        requires
            self.arena().all_samples(self.arena().sorted_sample_tokens@),
        ensures
            handles@.len() == self.arena().sorted_sample_tokens@.len(),
            forall|i: int|
                0 <= i < handles@.len() ==> (#[trigger] handles@[i]).key() == self.arena().sorted_sample_tokens@[i].0
                    && handles@[i].arena() == self.arena(),
    {
        handles_of::<SampleRef>(&self.owner, &self.owner.sorted_sample_tokens)
    }
}

impl AttributeRef {
    #[verifier::type_invariant]
    spec fn resolves(self) -> bool {
        self.owner.attribute_map@.contains_key(self.key)
    }

    /// The dataset that the handle shares.
    pub closed spec fn arena(&self) -> Dataset {
        *self.owner
    }

    /// The number of the token of the record.
    pub closed spec fn key(&self) -> u128 {
        self.key
    }

    /// The record of the handle.
    pub open spec fn record(&self) -> Attribute {
        self.arena().attribute_map@[self.key()]
    }

    /// A handle of the whole dataset.
    pub fn dataset(&self) -> (handle: DatasetRef)
        ensures
            handle.arena() == self.arena(),
    {
        DatasetRef { owner: self.owner.clone() }
    }

    /// The token by which the handle finds its record.
    pub fn token(&self) -> (token: Token)
        ensures
            token.0 == self.key(),
    {
        Token(self.key)
    }

    /// The record of the handle, which the dataset always holds.
    pub fn get(&self) -> (record: &Attribute)
        ensures
            self.arena().attribute_map@.contains_key(self.key()),
            *record == self.record(),
    {
        proof {
            use_type_invariant(self);
        }
        match self.owner.attribute_map.get(&self.key) {
            Some(record) => record,
            None => unreached(),
        }
    }
}

impl core::ops::Deref for AttributeRef {
    type Target = Attribute;

    /// The record of the handle, as `get` gives it.
    fn deref(&self) -> (record: &Attribute)
        ensures
            self.arena().attribute_map@.contains_key(self.key()),
            *record == self.record(),
    {
        self.get()
    }
}

impl CalibratedSensorRef {
    #[verifier::type_invariant]
    spec fn resolves(self) -> bool {
        self.owner.calibrated_sensor_map@.contains_key(self.key)
    }

    /// The dataset that the handle shares.
    pub closed spec fn arena(&self) -> Dataset {
        *self.owner
    }

    /// The number of the token of the record.
    pub closed spec fn key(&self) -> u128 {
        self.key
    }

    /// The record of the handle.
    pub open spec fn record(&self) -> CalibratedSensor {
        self.arena().calibrated_sensor_map@[self.key()]
    }

    /// A handle of the whole dataset.
    pub fn dataset(&self) -> (handle: DatasetRef)
        ensures
            handle.arena() == self.arena(),
    {
        DatasetRef { owner: self.owner.clone() }
    }

    /// The token by which the handle finds its record.
    pub fn token(&self) -> (token: Token)
        ensures
            token.0 == self.key(),
    {
        Token(self.key)
    }

    /// The record of the handle, which the dataset always holds.
    pub fn get(&self) -> (record: &CalibratedSensor)
        ensures
            self.arena().calibrated_sensor_map@.contains_key(self.key()),
            *record == self.record(),
    {
        proof {
            use_type_invariant(self);
        }
        match self.owner.calibrated_sensor_map.get(&self.key) {
            Some(record) => record,
            None => unreached(),
        }
    }

    /// The sensor that was calibrated. The dataset must hold the record that
    /// the token names, which loading with the integrity check ensures.
    pub fn sensor(&self) -> (handle: SensorRef)
        requires
            self.arena().sensor_map@.contains_key(self.record().sensor_token.0),
        ensures
            handle.key() == self.record().sensor_token.0,
            handle.arena() == self.arena(),
    {
        let key = self.get().sensor_token.0;
        SensorRef { owner: self.owner.clone(), key }
    }
}

impl core::ops::Deref for CalibratedSensorRef {
    type Target = CalibratedSensor;

    /// The record of the handle, as `get` gives it.
    fn deref(&self) -> (record: &CalibratedSensor)
        ensures
            self.arena().calibrated_sensor_map@.contains_key(self.key()),
            *record == self.record(),
    {
        self.get()
    }
}

impl CategoryRef {
    #[verifier::type_invariant]
    spec fn resolves(self) -> bool {
        self.owner.category_map@.contains_key(self.key)
    }

    /// The dataset that the handle shares.
    pub closed spec fn arena(&self) -> Dataset {
        *self.owner
    }

    /// The number of the token of the record.
    pub closed spec fn key(&self) -> u128 {
        self.key
    }

    /// The record of the handle.
    pub open spec fn record(&self) -> Category {
        self.arena().category_map@[self.key()]
    }

    /// A handle of the whole dataset.
    pub fn dataset(&self) -> (handle: DatasetRef)
        ensures
            handle.arena() == self.arena(),
    {
        DatasetRef { owner: self.owner.clone() }
    }

    /// The token by which the handle finds its record.
    pub fn token(&self) -> (token: Token)
        ensures
            token.0 == self.key(),
    {
        Token(self.key)
    }

    /// The record of the handle, which the dataset always holds.
    pub fn get(&self) -> (record: &Category)
        ensures
            self.arena().category_map@.contains_key(self.key()),
            *record == self.record(),
    {
        proof {
            use_type_invariant(self);
        }
        match self.owner.category_map.get(&self.key) {
            Some(record) => record,
            None => unreached(),
        }
    }
}

impl core::ops::Deref for CategoryRef {
    type Target = Category;

    /// The record of the handle, as `get` gives it.
    fn deref(&self) -> (record: &Category)
        ensures
            self.arena().category_map@.contains_key(self.key()),
            *record == self.record(),
    {
        self.get()
    }
}

impl EgoPoseRef {
    #[verifier::type_invariant]
    spec fn resolves(self) -> bool {
        self.owner.ego_pose_map@.contains_key(self.key)
    }

    /// The dataset that the handle shares.
    pub closed spec fn arena(&self) -> Dataset {
        *self.owner
    }

    /// The number of the token of the record.
    pub closed spec fn key(&self) -> u128 {
        self.key
    }

    /// The record of the handle.
    pub open spec fn record(&self) -> EgoPose {
        self.arena().ego_pose_map@[self.key()]
    }

    /// A handle of the whole dataset.
    pub fn dataset(&self) -> (handle: DatasetRef)
        ensures
            handle.arena() == self.arena(),
    {
        DatasetRef { owner: self.owner.clone() }
    }

    /// The token by which the handle finds its record.
    pub fn token(&self) -> (token: Token)
        ensures
            token.0 == self.key(),
    {
        Token(self.key)
    }

    /// The record of the handle, which the dataset always holds.
    pub fn get(&self) -> (record: &EgoPose)
        ensures
            self.arena().ego_pose_map@.contains_key(self.key()),
            *record == self.record(),
    {
        proof {
            use_type_invariant(self);
        }
        match self.owner.ego_pose_map.get(&self.key) {
            Some(record) => record,
            None => unreached(),
        }
    }
}

impl core::ops::Deref for EgoPoseRef {
    type Target = EgoPose;

    /// The record of the handle, as `get` gives it.
    fn deref(&self) -> (record: &EgoPose)
        ensures
            self.arena().ego_pose_map@.contains_key(self.key()),
            *record == self.record(),
    {
        self.get()
    }
}

impl InstanceRef {
    #[verifier::type_invariant]
    spec fn resolves(self) -> bool {
        self.owner.instance_map@.contains_key(self.key)
    }

    /// The dataset that the handle shares.
    pub closed spec fn arena(&self) -> Dataset {
        *self.owner
    }

    /// The number of the token of the record.
    pub closed spec fn key(&self) -> u128 {
        self.key
    }

    /// The record of the handle.
    pub open spec fn record(&self) -> InstanceInternal {
        self.arena().instance_map@[self.key()]
    }

    /// A handle of the whole dataset.
    pub fn dataset(&self) -> (handle: DatasetRef)
        ensures
            handle.arena() == self.arena(),
    {
        DatasetRef { owner: self.owner.clone() }
    }

    /// The token by which the handle finds its record.
    pub fn token(&self) -> (token: Token)
        ensures
            token.0 == self.key(),
    {
        Token(self.key)
    }

    /// The record of the handle, which the dataset always holds.
    pub fn get(&self) -> (record: &InstanceInternal)
        ensures
            self.arena().instance_map@.contains_key(self.key()),
            *record == self.record(),
    {
        proof {
            use_type_invariant(self);
        }
        match self.owner.instance_map.get(&self.key) {
            Some(record) => record,
            None => unreached(),
        }
    }

    /// The category of the instance. The dataset must hold the record that
    /// the token names, which loading with the integrity check ensures.
    pub fn category(&self) -> (handle: CategoryRef)
        requires
            self.arena().category_map@.contains_key(self.record().category_token.0),
        ensures
            handle.key() == self.record().category_token.0,
            handle.arena() == self.arena(),
    {
        let key = self.get().category_token.0;
        CategoryRef { owner: self.owner.clone(), key }
    }

    /// The annotations of the instance, in the order of their chain. The dataset must
    /// hold the records that the tokens name, which the indexer ensures.
    pub fn annotation_iter(&self) -> (handles: Vec<SampleAnnotationRef>)
        requires
            self.arena().all_annotations(self.record().annotation_tokens@),
        ensures
            handles@.len() == self.record().annotation_tokens@.len(),
            forall|i: int|
                0 <= i < handles@.len() ==> (#[trigger] handles@[i]).key() == self.record().annotation_tokens@[i].0
                    && handles@[i].arena() == self.arena(),
    {
        handles_of::<SampleAnnotationRef>(&self.owner, &self.get().annotation_tokens)
    }
}

impl core::ops::Deref for InstanceRef {
    type Target = InstanceInternal;

    /// The record of the handle, as `get` gives it.
    fn deref(&self) -> (record: &InstanceInternal)
        ensures
            self.arena().instance_map@.contains_key(self.key()),
            *record == self.record(),
    {
        self.get()
    }
}

impl LogRef {
    #[verifier::type_invariant]
    spec fn resolves(self) -> bool {
        self.owner.log_map@.contains_key(self.key)
    }

    /// The dataset that the handle shares.
    pub closed spec fn arena(&self) -> Dataset {
        *self.owner
    }

    /// The number of the token of the record.
    pub closed spec fn key(&self) -> u128 {
        self.key
    }

    /// The record of the handle.
    pub open spec fn record(&self) -> Log {
        self.arena().log_map@[self.key()]
    }

    /// A handle of the whole dataset.
    pub fn dataset(&self) -> (handle: DatasetRef)
        ensures
            handle.arena() == self.arena(),
    {
        DatasetRef { owner: self.owner.clone() }
    }

    /// The token by which the handle finds its record.
    pub fn token(&self) -> (token: Token)
        ensures
            token.0 == self.key(),
    {
        Token(self.key)
    }

    /// The record of the handle, which the dataset always holds.
    pub fn get(&self) -> (record: &Log)
        ensures
            self.arena().log_map@.contains_key(self.key()),
            *record == self.record(),
    {
        proof {
            use_type_invariant(self);
        }
        match self.owner.log_map.get(&self.key) {
            Some(record) => record,
            None => unreached(),
        }
    }
}

impl core::ops::Deref for LogRef {
    type Target = Log;

    /// The record of the handle, as `get` gives it.
    fn deref(&self) -> (record: &Log)
        ensures
            self.arena().log_map@.contains_key(self.key()),
            *record == self.record(),
    {
        self.get()
    }
}

impl MapRef {
    #[verifier::type_invariant]
    spec fn resolves(self) -> bool {
        self.owner.map_map@.contains_key(self.key)
    }

    /// The dataset that the handle shares.
    pub closed spec fn arena(&self) -> Dataset {
        *self.owner
    }

    /// The number of the token of the record.
    pub closed spec fn key(&self) -> u128 {
        self.key
    }

    /// The record of the handle.
    pub open spec fn record(&self) -> MapRecord {
        self.arena().map_map@[self.key()]
    }

    /// A handle of the whole dataset.
    pub fn dataset(&self) -> (handle: DatasetRef)
        ensures
            handle.arena() == self.arena(),
    {
        DatasetRef { owner: self.owner.clone() }
    }

    /// The token by which the handle finds its record.
    pub fn token(&self) -> (token: Token)
        ensures
            token.0 == self.key(),
    {
        Token(self.key)
    }

    /// The record of the handle, which the dataset always holds.
    pub fn get(&self) -> (record: &MapRecord)
        ensures
            self.arena().map_map@.contains_key(self.key()),
            *record == self.record(),
    {
        proof {
            use_type_invariant(self);
        }
        match self.owner.map_map.get(&self.key) {
            Some(record) => record,
            None => unreached(),
        }
    }

    /// The logs that the map belongs to, in the order of the record. The dataset must
    /// hold the records that the tokens name, which loading with the integrity check ensures.
    pub fn log_iter(&self) -> (handles: Vec<LogRef>)
        requires
            self.arena().all_logs(self.record().log_tokens@),
        ensures
            handles@.len() == self.record().log_tokens@.len(),
            forall|i: int|
                0 <= i < handles@.len() ==> (#[trigger] handles@[i]).key() == self.record().log_tokens@[i].0
                    && handles@[i].arena() == self.arena(),
    {
        handles_of::<LogRef>(&self.owner, &self.get().log_tokens)
    }

    /// The path of the map file: the file name of the record, joined to the directory of the dataset.
    pub fn path(&self) -> (path: String)
        ensures
            path@ == joined(self.arena().dataset_dir@, self.record().filename@),
    {
        join_path(self.owner.dataset_dir.as_str(), self.get().filename.as_str())
    }
}

impl core::ops::Deref for MapRef {
    type Target = MapRecord;

    /// The record of the handle, as `get` gives it.
    fn deref(&self) -> (record: &MapRecord)
        ensures
            self.arena().map_map@.contains_key(self.key()),
            *record == self.record(),
    {
        self.get()
    }
}

impl SceneRef {
    #[verifier::type_invariant]
    spec fn resolves(self) -> bool {
        self.owner.scene_map@.contains_key(self.key)
    }

    /// The dataset that the handle shares.
    pub closed spec fn arena(&self) -> Dataset {
        *self.owner
    }

    /// The number of the token of the record.
    pub closed spec fn key(&self) -> u128 {
        self.key
    }

    /// The record of the handle.
    pub open spec fn record(&self) -> SceneInternal {
        self.arena().scene_map@[self.key()]
    }

    /// A handle of the whole dataset.
    pub fn dataset(&self) -> (handle: DatasetRef)
        ensures
            handle.arena() == self.arena(),
    {
        DatasetRef { owner: self.owner.clone() }
    }

    /// The token by which the handle finds its record.
    pub fn token(&self) -> (token: Token)
        ensures
            token.0 == self.key(),
    {
        Token(self.key)
    }

    /// The record of the handle, which the dataset always holds.
    pub fn get(&self) -> (record: &SceneInternal)
        ensures
            self.arena().scene_map@.contains_key(self.key()),
            *record == self.record(),
    {
        proof {
            use_type_invariant(self);
        }
        match self.owner.scene_map.get(&self.key) {
            Some(record) => record,
            None => unreached(),
        }
    }

    /// The log that the scene was taken from. The dataset must hold the record that
    /// the token names, which loading with the integrity check ensures.
    pub fn log(&self) -> (handle: LogRef)
        requires
            self.arena().log_map@.contains_key(self.record().log_token.0),
        ensures
            handle.key() == self.record().log_token.0,
            handle.arena() == self.arena(),
    {
        let key = self.get().log_token.0;
        LogRef { owner: self.owner.clone(), key }
    }

    /// The samples of the scene, in the order of their chain. The dataset must
    /// hold the records that the tokens name, which the indexer ensures.
    pub fn sample_iter(&self) -> (handles: Vec<SampleRef>)
        requires
            self.arena().all_samples(self.record().sample_tokens@),
        ensures
            handles@.len() == self.record().sample_tokens@.len(),
            forall|i: int|
                0 <= i < handles@.len() ==> (#[trigger] handles@[i]).key() == self.record().sample_tokens@[i].0
                    && handles@[i].arena() == self.arena(),
    {
        handles_of::<SampleRef>(&self.owner, &self.get().sample_tokens)
    }
}

impl core::ops::Deref for SceneRef {
    type Target = SceneInternal;

    /// The record of the handle, as `get` gives it.
    fn deref(&self) -> (record: &SceneInternal)
        ensures
            self.arena().scene_map@.contains_key(self.key()),
            *record == self.record(),
    {
        self.get()
    }
}

impl SampleRef {
    #[verifier::type_invariant]
    spec fn resolves(self) -> bool {
        self.owner.sample_map@.contains_key(self.key)
    }

    /// The dataset that the handle shares.
    pub closed spec fn arena(&self) -> Dataset {
        *self.owner
    }

    /// The number of the token of the record.
    pub closed spec fn key(&self) -> u128 {
        self.key
    }

    /// The record of the handle.
    pub open spec fn record(&self) -> SampleInternal {
        self.arena().sample_map@[self.key()]
    }

    /// A handle of the whole dataset.
    pub fn dataset(&self) -> (handle: DatasetRef)
        ensures
            handle.arena() == self.arena(),
    {
        DatasetRef { owner: self.owner.clone() }
    }

    /// The token by which the handle finds its record.
    pub fn token(&self) -> (token: Token)
        ensures
            token.0 == self.key(),
    {
        Token(self.key)
    }

    /// The record of the handle, which the dataset always holds.
    pub fn get(&self) -> (record: &SampleInternal)
        ensures
            self.arena().sample_map@.contains_key(self.key()),
            *record == self.record(),
    {
        proof {
            use_type_invariant(self);
        }
        match self.owner.sample_map.get(&self.key) {
            Some(record) => record,
            None => unreached(),
        }
    }

    /// The scene that the sample names. The dataset must hold the record that
    /// the token names, which loading with the integrity check ensures.
    pub fn scene(&self) -> (handle: SceneRef)
        requires
            self.arena().scene_map@.contains_key(self.record().scene_token.0),
        ensures
            handle.key() == self.record().scene_token.0,
            handle.arena() == self.arena(),
    {
        let key = self.get().scene_token.0;
        SceneRef { owner: self.owner.clone(), key }
    }

    /// The sample after this one in its chain, if there is one. The dataset
    /// must hold the record that the token names, which loading with the
    /// integrity check ensures.
    pub fn next(&self) -> (found: Option<SampleRef>)
        requires
            self.arena().opt_sample(self.record().next),
        ensures
            match self.record().next {
                Some(token) => found matches Some(handle) && handle.key() == token.0 && handle.arena()
                    == self.arena(),
                None => found is None,
            },
    {
        match self.get().next {
            Some(token) => Some(SampleRef { owner: self.owner.clone(), key: token.0 }),
            None => None,
        }
    }

    /// The sample before this one in its chain, if there is one. The dataset
    /// must hold the record that the token names, which loading with the
    /// integrity check ensures.
    pub fn prev(&self) -> (found: Option<SampleRef>)
        requires
            self.arena().opt_sample(self.record().prev),
        ensures
            match self.record().prev {
                Some(token) => found matches Some(handle) && handle.key() == token.0 && handle.arena()
                    == self.arena(),
                None => found is None,
            },
    {
        match self.get().prev {
            Some(token) => Some(SampleRef { owner: self.owner.clone(), key: token.0 }),
            None => None,
        }
    }

    /// The annotations that name the sample. The dataset must
    /// hold the records that the tokens name, which the indexer ensures.
    pub fn annotation_iter(&self) -> (handles: Vec<SampleAnnotationRef>)
        requires
            self.arena().all_annotations(self.record().annotation_tokens@),
        ensures
            handles@.len() == self.record().annotation_tokens@.len(),
            forall|i: int|
                0 <= i < handles@.len() ==> (#[trigger] handles@[i]).key() == self.record().annotation_tokens@[i].0
                    && handles@[i].arena() == self.arena(),
    {
        handles_of::<SampleAnnotationRef>(&self.owner, &self.get().annotation_tokens)
    }

    /// The data that name the sample. The dataset must
    /// hold the records that the tokens name, which the indexer ensures.
    pub fn sample_data_iter(&self) -> (handles: Vec<SampleDataRef>)
        requires
            self.arena().all_sample_data(self.record().sample_data_tokens@),
        ensures
            handles@.len() == self.record().sample_data_tokens@.len(),
            forall|i: int|
                0 <= i < handles@.len() ==> (#[trigger] handles@[i]).key() == self.record().sample_data_tokens@[i].0
                    && handles@[i].arena() == self.arena(),
    {
        handles_of::<SampleDataRef>(&self.owner, &self.get().sample_data_tokens)
    }
}

impl core::ops::Deref for SampleRef {
    type Target = SampleInternal;

    /// The record of the handle, as `get` gives it.
    fn deref(&self) -> (record: &SampleInternal)
        ensures
            self.arena().sample_map@.contains_key(self.key()),
            *record == self.record(),
    {
        self.get()
    }
}

impl SampleAnnotationRef {
    #[verifier::type_invariant]
    spec fn resolves(self) -> bool {
        self.owner.sample_annotation_map@.contains_key(self.key)
    }

    /// The dataset that the handle shares.
    pub closed spec fn arena(&self) -> Dataset {
        *self.owner
    }

    /// The number of the token of the record.
    pub closed spec fn key(&self) -> u128 {
        self.key
    }

    /// The record of the handle.
    pub open spec fn record(&self) -> SampleAnnotation {
        self.arena().sample_annotation_map@[self.key()]
    }

    /// A handle of the whole dataset.
    pub fn dataset(&self) -> (handle: DatasetRef)
        ensures
            handle.arena() == self.arena(),
    {
        DatasetRef { owner: self.owner.clone() }
    }

    /// The token by which the handle finds its record.
    pub fn token(&self) -> (token: Token)
        ensures
            token.0 == self.key(),
    {
        Token(self.key)
    }

    /// The record of the handle, which the dataset always holds.
    pub fn get(&self) -> (record: &SampleAnnotation)
        ensures
            self.arena().sample_annotation_map@.contains_key(self.key()),
            *record == self.record(),
    {
        proof {
            use_type_invariant(self);
        }
        match self.owner.sample_annotation_map.get(&self.key) {
            Some(record) => record,
            None => unreached(),
        }
    }

    /// The sample that the annotation belongs to. The dataset must hold the record that
    /// the token names, which loading with the integrity check ensures.
    pub fn sample(&self) -> (handle: SampleRef)
        requires
            self.arena().sample_map@.contains_key(self.record().sample_token.0),
        ensures
            handle.key() == self.record().sample_token.0,
            handle.arena() == self.arena(),
    {
        let key = self.get().sample_token.0;
        SampleRef { owner: self.owner.clone(), key }
    }

    /// The instance that the annotation shows. The dataset must hold the record that
    /// the token names, which loading with the integrity check ensures.
    pub fn instance(&self) -> (handle: InstanceRef)
        requires
            self.arena().instance_map@.contains_key(self.record().instance_token.0),
        ensures
            handle.key() == self.record().instance_token.0,
            handle.arena() == self.arena(),
    {
        let key = self.get().instance_token.0;
        InstanceRef { owner: self.owner.clone(), key }
    }

    /// The visibility of the annotation, if it has one. The dataset must
    /// hold the record that the token names, which loading with the integrity
    /// check ensures.
    pub fn visibility(&self) -> (found: Option<VisibilityRef>)
        requires
            self.record().visibility_token matches Some(v) ==> self.arena().visibility_map@.contains_key(v.0),
        ensures
            match self.record().visibility_token {
                Some(v) => found matches Some(handle) && handle.key() == v.0 && handle.arena() == self.arena(),
                None => found is None,
            },
    {
        match self.get().visibility_token {
            Some(token) => Some(VisibilityRef { owner: self.owner.clone(), key: token.0 }),
            None => None,
        }
    }

    /// The annotation after this one in its chain, if there is one. The dataset
    /// must hold the record that the token names, which loading with the
    /// integrity check ensures.
    pub fn next(&self) -> (found: Option<SampleAnnotationRef>)
        requires
            self.arena().opt_annotation(self.record().next),
        ensures
            match self.record().next {
                Some(token) => found matches Some(handle) && handle.key() == token.0 && handle.arena()
                    == self.arena(),
                None => found is None,
            },
    {
        match self.get().next {
            Some(token) => Some(SampleAnnotationRef { owner: self.owner.clone(), key: token.0 }),
            None => None,
        }
    }

    /// The annotation before this one in its chain, if there is one. The dataset
    /// must hold the record that the token names, which loading with the
    /// integrity check ensures.
    pub fn prev(&self) -> (found: Option<SampleAnnotationRef>)
        requires
            self.arena().opt_annotation(self.record().prev),
        ensures
            match self.record().prev {
                Some(token) => found matches Some(handle) && handle.key() == token.0 && handle.arena()
                    == self.arena(),
                None => found is None,
            },
    {
        match self.get().prev {
            Some(token) => Some(SampleAnnotationRef { owner: self.owner.clone(), key: token.0 }),
            None => None,
        }
    }

    /// The attributes of the annotation, in the order of the record. The dataset must
    /// hold the records that the tokens name, which loading with the integrity check ensures.
    pub fn attribute_iter(&self) -> (handles: Vec<AttributeRef>)
        requires
            self.arena().all_attributes(self.record().attribute_tokens@),
        ensures
            handles@.len() == self.record().attribute_tokens@.len(),
            forall|i: int|
                0 <= i < handles@.len() ==> (#[trigger] handles@[i]).key() == self.record().attribute_tokens@[i].0
                    && handles@[i].arena() == self.arena(),
    {
        handles_of::<AttributeRef>(&self.owner, &self.get().attribute_tokens)
    }
}

impl core::ops::Deref for SampleAnnotationRef {
    type Target = SampleAnnotation;

    /// The record of the handle, as `get` gives it.
    fn deref(&self) -> (record: &SampleAnnotation)
        ensures
            self.arena().sample_annotation_map@.contains_key(self.key()),
            *record == self.record(),
    {
        self.get()
    }
}

impl SampleDataRef {
    #[verifier::type_invariant]
    spec fn resolves(self) -> bool {
        self.owner.sample_data_map@.contains_key(self.key)
    }

    /// The dataset that the handle shares.
    pub closed spec fn arena(&self) -> Dataset {
        *self.owner
    }

    /// The number of the token of the record.
    pub closed spec fn key(&self) -> u128 {
        self.key
    }

    /// The record of the handle.
    pub open spec fn record(&self) -> SampleData {
        self.arena().sample_data_map@[self.key()]
    }

    /// A handle of the whole dataset.
    pub fn dataset(&self) -> (handle: DatasetRef)
        ensures
            handle.arena() == self.arena(),
    {
        DatasetRef { owner: self.owner.clone() }
    }

    /// The token by which the handle finds its record.
    pub fn token(&self) -> (token: Token)
        ensures
            token.0 == self.key(),
    {
        Token(self.key)
    }

    /// The record of the handle, which the dataset always holds.
    pub fn get(&self) -> (record: &SampleData)
        ensures
            self.arena().sample_data_map@.contains_key(self.key()),
            *record == self.record(),
    {
        proof {
            use_type_invariant(self);
        }
        match self.owner.sample_data_map.get(&self.key) {
            Some(record) => record,
            None => unreached(),
        }
    }

    /// The sample that the data belongs to. The dataset must hold the record that
    /// the token names, which loading with the integrity check ensures.
    pub fn sample(&self) -> (handle: SampleRef)
        requires
            self.arena().sample_map@.contains_key(self.record().sample_token.0),
        ensures
            handle.key() == self.record().sample_token.0,
            handle.arena() == self.arena(),
    {
        let key = self.get().sample_token.0;
        SampleRef { owner: self.owner.clone(), key }
    }

    /// The pose of the vehicle when the data was taken. The dataset must hold the record that
    /// the token names, which loading with the integrity check ensures.
    pub fn ego_pose(&self) -> (handle: EgoPoseRef)
        requires
            self.arena().ego_pose_map@.contains_key(self.record().ego_pose_token.0),
        ensures
            handle.key() == self.record().ego_pose_token.0,
            handle.arena() == self.arena(),
    {
        let key = self.get().ego_pose_token.0;
        EgoPoseRef { owner: self.owner.clone(), key }
    }

    /// The calibrated sensor that took the data. The dataset must hold the record that
    /// the token names, which loading with the integrity check ensures.
    pub fn calibrated_sensor(&self) -> (handle: CalibratedSensorRef)
        requires
            self.arena().calibrated_sensor_map@.contains_key(self.record().calibrated_sensor_token.0),
        ensures
            handle.key() == self.record().calibrated_sensor_token.0,
            handle.arena() == self.arena(),
    {
        let key = self.get().calibrated_sensor_token.0;
        CalibratedSensorRef { owner: self.owner.clone(), key }
    }

    /// The record after this one in its chain, if there is one. The dataset
    /// must hold the record that the token names, which loading with the
    /// integrity check ensures.
    pub fn next(&self) -> (found: Option<SampleDataRef>)
        requires
            self.arena().opt_sample_data(self.record().next),
        ensures
            match self.record().next {
                Some(token) => found matches Some(handle) && handle.key() == token.0 && handle.arena()
                    == self.arena(),
                None => found is None,
            },
    {
        match self.get().next {
            Some(token) => Some(SampleDataRef { owner: self.owner.clone(), key: token.0 }),
            None => None,
        }
    }

    /// The record before this one in its chain, if there is one. The dataset
    /// must hold the record that the token names, which loading with the
    /// integrity check ensures.
    pub fn prev(&self) -> (found: Option<SampleDataRef>)
        requires
            self.arena().opt_sample_data(self.record().prev),
        ensures
            match self.record().prev {
                Some(token) => found matches Some(handle) && handle.key() == token.0 && handle.arena()
                    == self.arena(),
                None => found is None,
            },
    {
        match self.get().prev {
            Some(token) => Some(SampleDataRef { owner: self.owner.clone(), key: token.0 }),
            None => None,
        }
    }

    /// The path of the data file: the file name of the record, joined to the directory of the dataset.
    pub fn path(&self) -> (path: String)
        ensures
            path@ == joined(self.arena().dataset_dir@, self.record().filename@),
    {
        join_path(self.owner.dataset_dir.as_str(), self.get().filename.as_str())
    }
}

impl core::ops::Deref for SampleDataRef {
    type Target = SampleData;

    /// The record of the handle, as `get` gives it.
    fn deref(&self) -> (record: &SampleData)
        ensures
            self.arena().sample_data_map@.contains_key(self.key()),
            *record == self.record(),
    {
        self.get()
    }
}

impl SensorRef {
    #[verifier::type_invariant]
    spec fn resolves(self) -> bool {
        self.owner.sensor_map@.contains_key(self.key)
    }

    /// The dataset that the handle shares.
    pub closed spec fn arena(&self) -> Dataset {
        *self.owner
    }

    /// The number of the token of the record.
    pub closed spec fn key(&self) -> u128 {
        self.key
    }

    /// The record of the handle.
    pub open spec fn record(&self) -> Sensor {
        self.arena().sensor_map@[self.key()]
    }

    /// A handle of the whole dataset.
    pub fn dataset(&self) -> (handle: DatasetRef)
        ensures
            handle.arena() == self.arena(),
    {
        DatasetRef { owner: self.owner.clone() }
    }

    /// The token by which the handle finds its record.
    pub fn token(&self) -> (token: Token)
        ensures
            token.0 == self.key(),
    {
        Token(self.key)
    }

    /// The record of the handle, which the dataset always holds.
    pub fn get(&self) -> (record: &Sensor)
        ensures
            self.arena().sensor_map@.contains_key(self.key()),
            *record == self.record(),
    {
        proof {
            use_type_invariant(self);
        }
        match self.owner.sensor_map.get(&self.key) {
            Some(record) => record,
            None => unreached(),
        }
    }
}

impl core::ops::Deref for SensorRef {
    type Target = Sensor;

    /// The record of the handle, as `get` gives it.
    fn deref(&self) -> (record: &Sensor)
        ensures
            self.arena().sensor_map@.contains_key(self.key()),
            *record == self.record(),
    {
        self.get()
    }
}

impl VisibilityRef {
    #[verifier::type_invariant]
    spec fn resolves(self) -> bool {
        self.owner.visibility_map@.contains_key(self.key)
    }

    /// The dataset that the handle shares.
    pub closed spec fn arena(&self) -> Dataset {
        *self.owner
    }

    /// The number of the token of the record.
    pub closed spec fn key(&self) -> u32 {
        self.key
    }

    /// The record of the handle.
    pub open spec fn record(&self) -> Visibility {
        self.arena().visibility_map@[self.key()]
    }

    /// A handle of the whole dataset.
    pub fn dataset(&self) -> (handle: DatasetRef)
        ensures
            handle.arena() == self.arena(),
    {
        DatasetRef { owner: self.owner.clone() }
    }

    /// The token by which the handle finds its record.
    pub fn token(&self) -> (token: VisibilityToken)
        ensures
            token.0 == self.key(),
    {
        VisibilityToken(self.key)
    }

    /// The record of the handle, which the dataset always holds.
    pub fn get(&self) -> (record: &Visibility)
        ensures
            self.arena().visibility_map@.contains_key(self.key()),
            *record == self.record(),
    {
        proof {
            use_type_invariant(self);
        }
        match self.owner.visibility_map.get(&self.key) {
            Some(record) => record,
            None => unreached(),
        }
    }
}

impl core::ops::Deref for VisibilityRef {
    type Target = Visibility;

    /// The record of the handle, as `get` gives it.
    fn deref(&self) -> (record: &Visibility)
        ensures
            self.arena().visibility_map@.contains_key(self.key()),
            *record == self.record(),
    {
        self.get()
    }
}

impl core::ops::Deref for DatasetRef {
    type Target = Dataset;

    /// The dataset itself, as `get` gives it.
    fn deref(&self) -> (dataset: &Dataset)
        ensures
            *dataset == self.arena(),
    {
        self.get()
    }
}

} // verus!
