//! The integrity check of the tables: every token that a record holds must
//! name a record, and the links of the chained tables must agree.

use crate::error::{Corruption, Error, Reference, Table};
use crate::ends::check_chain_ends;
use crate::links::check_links;
use crate::tables::lemma_breaks_unsound;
use crate::serializable::types::{
    CalibratedSensor, Instance, MapRecord, Sample, SampleAnnotation, SampleData, Scene,
};
use crate::table::table_keys;
use crate::tables::{Tables, TablesView};
use crate::token::Token;
use std::collections::HashMap;
use vstd::prelude::*;

verus! {

broadcast use vstd::std_specs::hash::group_hash_axioms;

/// The error for a token that names no record.
fn dangling(field: Reference, holder: u128, token: u128) -> (e: Error)
    ensures
        e == Error::CorruptedDataset(Corruption::DanglingToken { field, holder, token }),
{
    Error::CorruptedDataset(Corruption::DanglingToken { field, holder, token })
}

/// The first of the tokens under which the table holds no record.
fn first_missing<V>(tokens: &Vec<Token>, target: &HashMap<u128, V>) -> (r: Option<Token>)
    ensures
        r matches Some(token) ==> tokens@.contains(token) && !target@.contains_key(token.0),
        r is None ==> forall|token: Token| tokens@.contains(token) ==> target@.contains_key(token.0),
{
    let mut i: usize = 0;
    while i < tokens.len()
        invariant
            i <= tokens@.len(),
            forall|j: int| 0 <= j < i ==> target@.contains_key(#[trigger] tokens@[j].0),
        decreases tokens@.len() - i,
    {
        let token = tokens[i];
        if !target.contains_key(&token.0) {
            return Some(token);
        }
        i += 1;
    }
    None
}















/// A record that holds tokens of other records.
trait Referring: Sized {
    /// The table of such records.
    spec fn home() -> Table;

    /// The records of that table.
    spec fn records(tables: TablesView) -> Map<u128, Self>;

    /// Checks that every token that the record holds names a record of its target table.
    fn check(&self, tables: &Tables, key: u128) -> (r: core::result::Result<(), Error>)
        requires
            Self::records(tables@).contains_key(key),
            Self::records(tables@)[key] == *self,
        ensures
            r is Ok ==> tables@.record_closed(Self::home(), key),
            r matches Err(e) ==> e matches Error::CorruptedDataset(c) && tables@.breaks(c),
    ;
}

impl Referring for CalibratedSensor {
    spec fn home() -> Table {
        Table::CalibratedSensor
    }

    spec fn records(tables: TablesView) -> Map<u128, Self> {
        tables.calibrated_sensor_map
    }

    fn check(&self, tables: &Tables, key: u128) -> core::result::Result<(), Error> {
        if !tables.sensor_map.contains_key(&self.sensor_token.0) {
            return Err(dangling(Reference::CalibratedSensorSensor, key, self.sensor_token.0));
        }
        Ok(())
    }
}

impl Referring for MapRecord {
    spec fn home() -> Table {
        Table::MapRecord
    }

    spec fn records(tables: TablesView) -> Map<u128, Self> {
        tables.map_map
    }

    fn check(&self, tables: &Tables, key: u128) -> core::result::Result<(), Error> {
        match first_missing(&self.log_tokens, &tables.log_map) {
            Some(token) => Err(dangling(Reference::MapLog, key, token.0)),
            None => Ok(()),
        }
    }
}

impl Referring for Instance {
    spec fn home() -> Table {
        Table::Instance
    }

    spec fn records(tables: TablesView) -> Map<u128, Self> {
        tables.instance_map
    }

    fn check(&self, tables: &Tables, key: u128) -> core::result::Result<(), Error> {
        if !tables.sample_annotation_map.contains_key(&self.first_annotation_token.0) {
            return Err(dangling(Reference::InstanceFirstAnnotation, key, self.first_annotation_token.0));
        }
        if !tables.sample_annotation_map.contains_key(&self.last_annotation_token.0) {
            return Err(dangling(Reference::InstanceLastAnnotation, key, self.last_annotation_token.0));
        }
        if !tables.category_map.contains_key(&self.category_token.0) {
            return Err(dangling(Reference::InstanceCategory, key, self.category_token.0));
        }
        Ok(())
    }
}

impl Referring for Scene {
    spec fn home() -> Table {
        Table::Scene
    }

    spec fn records(tables: TablesView) -> Map<u128, Self> {
        tables.scene_map
    }

    fn check(&self, tables: &Tables, key: u128) -> core::result::Result<(), Error> {
        if !tables.log_map.contains_key(&self.log_token.0) {
            return Err(dangling(Reference::SceneLog, key, self.log_token.0));
        }
        if !tables.sample_map.contains_key(&self.first_sample_token.0) {
            return Err(dangling(Reference::SceneFirstSample, key, self.first_sample_token.0));
        }
        if !tables.sample_map.contains_key(&self.last_sample_token.0) {
            return Err(dangling(Reference::SceneLastSample, key, self.last_sample_token.0));
        }
        Ok(())
    }
}

impl Referring for Sample {
    spec fn home() -> Table {
        Table::Sample
    }

    spec fn records(tables: TablesView) -> Map<u128, Self> {
        tables.sample_map
    }

    fn check(&self, tables: &Tables, key: u128) -> core::result::Result<(), Error> {
        if !tables.scene_map.contains_key(&self.scene_token.0) {
            return Err(dangling(Reference::SampleScene, key, self.scene_token.0));
        }
        if let Some(token) = self.prev {
            if !tables.sample_map.contains_key(&token.0) {
                return Err(dangling(Reference::SamplePrev, key, token.0));
            }
        }
        if let Some(token) = self.next {
            if !tables.sample_map.contains_key(&token.0) {
                return Err(dangling(Reference::SampleNext, key, token.0));
            }
        }
        Ok(())
    }
}

impl Referring for SampleAnnotation {
    spec fn home() -> Table {
        Table::SampleAnnotation
    }

    spec fn records(tables: TablesView) -> Map<u128, Self> {
        tables.sample_annotation_map
    }

    fn check(&self, tables: &Tables, key: u128) -> core::result::Result<(), Error> {
        if !tables.sample_map.contains_key(&self.sample_token.0) {
            return Err(dangling(Reference::AnnotationSample, key, self.sample_token.0));
        }
        if !tables.instance_map.contains_key(&self.instance_token.0) {
            return Err(dangling(Reference::AnnotationInstance, key, self.instance_token.0));
        }
        if let Some(token) = first_missing(&self.attribute_tokens, &tables.attribute_map) {
            return Err(dangling(Reference::AnnotationAttribute, key, token.0));
        }
        if let Some(token) = self.visibility_token {
            if !tables.visibility_map.contains_key(&token.0) {
                return Err(dangling(Reference::AnnotationVisibility, key, token.0 as u128));
            }
        }
        if let Some(token) = self.prev {
            if !tables.sample_annotation_map.contains_key(&token.0) {
                return Err(dangling(Reference::AnnotationPrev, key, token.0));
            }
        }
        if let Some(token) = self.next {
            if !tables.sample_annotation_map.contains_key(&token.0) {
                return Err(dangling(Reference::AnnotationNext, key, token.0));
            }
        }
        Ok(())
    }
}

impl Referring for SampleData {
    spec fn home() -> Table {
        Table::SampleData
    }

    spec fn records(tables: TablesView) -> Map<u128, Self> {
        tables.sample_data_map
    }

    fn check(&self, tables: &Tables, key: u128) -> core::result::Result<(), Error> {
        if !tables.sample_map.contains_key(&self.sample_token.0) {
            return Err(dangling(Reference::DataSample, key, self.sample_token.0));
        }
        if !tables.ego_pose_map.contains_key(&self.ego_pose_token.0) {
            return Err(dangling(Reference::DataEgoPose, key, self.ego_pose_token.0));
        }
        if !tables.calibrated_sensor_map.contains_key(&self.calibrated_sensor_token.0) {
            return Err(dangling(Reference::DataCalibratedSensor, key, self.calibrated_sensor_token.0));
        }
        if let Some(token) = self.prev {
            if !tables.sample_data_map.contains_key(&token.0) {
                return Err(dangling(Reference::DataPrev, key, token.0));
            }
        }
        if let Some(token) = self.next {
            if !tables.sample_data_map.contains_key(&token.0) {
                return Err(dangling(Reference::DataNext, key, token.0));
            }
        }
        Ok(())
    }
}

/// Checks every record of one table.
fn check_table<T: Referring>(tables: &Tables, map: &HashMap<u128, T>) -> (r: core::result::Result<(), Error>)
    requires
        map@ == T::records(tables@),
        forall|field: Reference, holder: u128, token: u128|
            field.holder() == T::home() && #[trigger] tables@.holds(field, holder, token) ==> map@.contains_key(
                holder,
            ),
    ensures
        r is Ok ==> tables@.table_closed(T::home()),
        r matches Err(e) ==> e matches Error::CorruptedDataset(c) && tables@.breaks(c),
{
    let keys = table_keys(map);
    let mut i: usize = 0;
    while i < keys.len()
        invariant
            i <= keys@.len(),
            map@ == T::records(tables@),
            forall|k: u128| keys@.contains(k) <==> #[trigger] map@.contains_key(k),
            forall|j: int| 0 <= j < i ==> tables@.record_closed(T::home(), #[trigger] keys@[j]),
        decreases keys@.len() - i,
    {
        let key = keys[i];
        assert(keys@.contains(key));
        if let Some(record) = map.get(&key) {
            record.check(tables, key)?;
        }
        i += 1;
    }
    assert forall|field: Reference, holder: u128, token: u128|
        field.holder() == T::home() && #[trigger] tables@.holds(field, holder, token) implies tables@.has(
        field.target(),
        token,
    ) by {
        assert(keys@.contains(holder));
        let j = choose|j: int| 0 <= j < keys@.len() && keys@[j] == holder;
        assert(tables@.record_closed(T::home(), keys@[j]));
    }
    Ok(())
}

/// Checks that the annotations at the ends of the chains are those that the
/// instances announce, each for exactly one instance.
fn check_instance_ends(tables: &Tables, head: bool) -> (r: core::result::Result<(), Error>)
    ensures
        r is Ok <==> crate::ends::ends_owned(tables@.instance_map, tables@.sample_annotation_map, head),
        r matches Err(e) ==> e matches Error::CorruptedDataset(c) && tables@.breaks(c),
{
    let field = if head {
        Reference::InstanceFirstAnnotation
    } else {
        Reference::InstanceLastAnnotation
    };
    check_chain_ends(
        &tables.instance_map,
        &tables.sample_annotation_map,
        Table::Instance,
        Table::SampleAnnotation,
        field,
        head,
    )
}

/// Checks that the samples at the ends of the chains are those that the
/// scenes announce, each for exactly one scene.
fn check_scene_ends(tables: &Tables, head: bool) -> (r: core::result::Result<(), Error>)
    ensures
        r is Ok <==> crate::ends::ends_owned(tables@.scene_map, tables@.sample_map, head),
        r matches Err(e) ==> e matches Error::CorruptedDataset(c) && tables@.breaks(c),
{
    let field = if head {
        Reference::SceneFirstSample
    } else {
        Reference::SceneLastSample
    };
    check_chain_ends(&tables.scene_map, &tables.sample_map, Table::Scene, Table::Sample, field, head)
}

/// Checks the integrity of the tables. It succeeds exactly when every token
/// that a record holds names a record of its target table, the links of the
/// three chained tables agree, and the ends of the chains are the records
/// that the instances and the scenes announce, each for exactly one of them;
/// otherwise the error names one broken rule with the tokens that break it.
pub fn check_loaded_json(tables: &Tables) -> (r: core::result::Result<(), Error>)
    ensures
        r is Ok <==> tables@.sound(),
        r matches Err(e) ==> e matches Error::CorruptedDataset(c) && tables@.breaks(c),
{
    let checked = check_steps(tables);
    proof {
        if let Err(Error::CorruptedDataset(c)) = checked {
            lemma_breaks_unsound(tables@, c);
        }
    }
    checked
}

/// The steps of the integrity check, in their order.
fn check_steps(tables: &Tables) -> (r: core::result::Result<(), Error>)
    ensures
        r is Ok ==> tables@.sound(),
        r matches Err(e) ==> e matches Error::CorruptedDataset(c) && tables@.breaks(c),
{
    check_table(tables, &tables.calibrated_sensor_map)?;
    check_table(tables, &tables.sample_annotation_map)?;
    match check_links(&tables.sample_annotation_map, Table::SampleAnnotation) {
        Err(e) => {
            return Err(e);
        },
        Ok(()) => {},
    }
    check_table(tables, &tables.instance_map)?;
    check_instance_ends(tables, true)?;
    check_instance_ends(tables, false)?;
    check_table(tables, &tables.map_map)?;
    check_table(tables, &tables.sample_map)?;
    match check_links(&tables.sample_map, Table::Sample) {
        Err(e) => {
            return Err(e);
        },
        Ok(()) => {},
    }
    check_table(tables, &tables.scene_map)?;
    check_scene_ends(tables, true)?;
    check_scene_ends(tables, false)?;
    check_table(tables, &tables.sample_data_map)?;
    match check_links(&tables.sample_data_map, Table::SampleData) {
        Err(e) => {
            return Err(e);
        },
        Ok(()) => {},
    }
    assert forall|field: Reference, holder: u128, token: u128| #[trigger]
        tables@.holds(field, holder, token) implies tables@.has(field.target(), token) by {
        assert(tables@.table_closed(field.holder()));
    }
    Ok(())
}

} // verus!
