//! The thirteen tables as they come from the files, before anything is derived.

use crate::ends::{ends_broken, ends_owned, lemma_ends_broken};
use crate::error::{Corruption, Reference, Table};
use crate::links::{has_next_edge, has_prev_edge, links_symmetric};
use crate::serializable::types::{
    Attribute, CalibratedSensor, Category, EgoPose, Instance, Log, MapRecord, Sample, SampleAnnotation,
    SampleData, Scene, Sensor, Visibility,
};
use crate::table::{table_of, vec_to_hashmap, visibility_table_of, visibility_to_hashmap};
use crate::token::Token;
use std::collections::HashMap;
use vstd::prelude::*;

verus! {

/// The records of the thirteen files, in the order of the files.
#[derive(Debug, Clone)]
pub struct RecordLists {
    pub attributes: Vec<Attribute>,
    pub calibrated_sensors: Vec<CalibratedSensor>,
    pub categories: Vec<Category>,
    pub ego_poses: Vec<EgoPose>,
    pub instances: Vec<Instance>,
    pub logs: Vec<Log>,
    pub maps: Vec<MapRecord>,
    pub samples: Vec<Sample>,
    pub sample_annotations: Vec<SampleAnnotation>,
    pub sample_data: Vec<SampleData>,
    pub scenes: Vec<Scene>,
    pub sensors: Vec<Sensor>,
    pub visibilities: Vec<Visibility>,
}

/// The thirteen tables: each record under the number of its token.
#[derive(Debug, Clone)]
pub struct Tables {
    pub attribute_map: HashMap<u128, Attribute>,
    pub calibrated_sensor_map: HashMap<u128, CalibratedSensor>,
    pub category_map: HashMap<u128, Category>,
    pub ego_pose_map: HashMap<u128, EgoPose>,
    pub instance_map: HashMap<u128, Instance>,
    pub log_map: HashMap<u128, Log>,
    pub map_map: HashMap<u128, MapRecord>,
    pub scene_map: HashMap<u128, Scene>,
    pub sample_map: HashMap<u128, Sample>,
    pub sample_annotation_map: HashMap<u128, SampleAnnotation>,
    pub sample_data_map: HashMap<u128, SampleData>,
    pub sensor_map: HashMap<u128, Sensor>,
    pub visibility_map: HashMap<u32, Visibility>,
}

/// What the thirteen tables hold: for each table, the record of each token.
pub struct TablesView {
    pub attribute_map: Map<u128, Attribute>,
    pub calibrated_sensor_map: Map<u128, CalibratedSensor>,
    pub category_map: Map<u128, Category>,
    pub ego_pose_map: Map<u128, EgoPose>,
    pub instance_map: Map<u128, Instance>,
    pub log_map: Map<u128, Log>,
    pub map_map: Map<u128, MapRecord>,
    pub scene_map: Map<u128, Scene>,
    pub sample_map: Map<u128, Sample>,
    pub sample_annotation_map: Map<u128, SampleAnnotation>,
    pub sample_data_map: Map<u128, SampleData>,
    pub sensor_map: Map<u128, Sensor>,
    pub visibility_map: Map<u32, Visibility>,
}

impl View for Tables {
    type V = TablesView;

    open spec fn view(&self) -> TablesView {
        TablesView {
            attribute_map: self.attribute_map@,
            calibrated_sensor_map: self.calibrated_sensor_map@,
            category_map: self.category_map@,
            ego_pose_map: self.ego_pose_map@,
            instance_map: self.instance_map@,
            log_map: self.log_map@,
            map_map: self.map_map@,
            scene_map: self.scene_map@,
            sample_map: self.sample_map@,
            sample_annotation_map: self.sample_annotation_map@,
            sample_data_map: self.sample_data_map@,
            sensor_map: self.sensor_map@,
            visibility_map: self.visibility_map@,
        }
    }
}

impl View for RecordLists {
    type V = TablesView;

    /// The tables that the lists make: in each, a later record replaces an
    /// earlier one of the same token.
    open spec fn view(&self) -> TablesView {
        TablesView {
            attribute_map: table_of(self.attributes@),
            calibrated_sensor_map: table_of(self.calibrated_sensors@),
            category_map: table_of(self.categories@),
            ego_pose_map: table_of(self.ego_poses@),
            instance_map: table_of(self.instances@),
            log_map: table_of(self.logs@),
            map_map: table_of(self.maps@),
            scene_map: table_of(self.scenes@),
            sample_map: table_of(self.samples@),
            sample_annotation_map: table_of(self.sample_annotations@),
            sample_data_map: table_of(self.sample_data@),
            sensor_map: table_of(self.sensors@),
            visibility_map: visibility_table_of(self.visibilities@),
        }
    }
}

impl Tables {
    /// Puts each list of records into a table.
    pub fn from_lists(lists: RecordLists) -> (tables: Tables)
        ensures
            tables@ == lists@,
    {
        let RecordLists {
            attributes,
            calibrated_sensors,
            categories,
            ego_poses,
            instances,
            logs,
            maps,
            samples,
            sample_annotations,
            sample_data,
            scenes,
            sensors,
            visibilities,
        } = lists;
        Tables {
            attribute_map: vec_to_hashmap(attributes),
            calibrated_sensor_map: vec_to_hashmap(calibrated_sensors),
            category_map: vec_to_hashmap(categories),
            ego_pose_map: vec_to_hashmap(ego_poses),
            instance_map: vec_to_hashmap(instances),
            log_map: vec_to_hashmap(logs),
            map_map: vec_to_hashmap(maps),
            scene_map: vec_to_hashmap(scenes),
            sample_map: vec_to_hashmap(samples),
            sample_annotation_map: vec_to_hashmap(sample_annotations),
            sample_data_map: vec_to_hashmap(sample_data),
            sensor_map: vec_to_hashmap(sensors),
            visibility_map: visibility_to_hashmap(visibilities),
        }
    }
}

impl TablesView {
    /// The record `holder` holds `token` in the field `field`. A visibility
    /// token counts by its number.
    pub open spec fn holds(&self, field: Reference, holder: u128, token: u128) -> bool {
        match field {
            Reference::CalibratedSensorSensor => self.calibrated_sensor_map.contains_key(holder)
                && self.calibrated_sensor_map[holder].sensor_token.0 == token,
            Reference::MapLog => self.map_map.contains_key(holder)
                && self.map_map[holder].log_tokens@.contains(Token(token)),
            Reference::InstanceFirstAnnotation => self.instance_map.contains_key(holder)
                && self.instance_map[holder].first_annotation_token.0 == token,
            Reference::InstanceLastAnnotation => self.instance_map.contains_key(holder)
                && self.instance_map[holder].last_annotation_token.0 == token,
            Reference::InstanceCategory => self.instance_map.contains_key(holder)
                && self.instance_map[holder].category_token.0 == token,
            Reference::SceneLog => self.scene_map.contains_key(holder) && self.scene_map[holder].log_token.0
                == token,
            Reference::SceneFirstSample => self.scene_map.contains_key(holder)
                && self.scene_map[holder].first_sample_token.0 == token,
            Reference::SceneLastSample => self.scene_map.contains_key(holder)
                && self.scene_map[holder].last_sample_token.0 == token,
            Reference::SampleScene => self.sample_map.contains_key(holder)
                && self.sample_map[holder].scene_token.0 == token,
            Reference::SamplePrev => self.sample_map.contains_key(holder) && self.sample_map[holder].prev
                == Some(Token(token)),
            Reference::SampleNext => self.sample_map.contains_key(holder) && self.sample_map[holder].next
                == Some(Token(token)),
            Reference::AnnotationSample => self.sample_annotation_map.contains_key(holder)
                && self.sample_annotation_map[holder].sample_token.0 == token,
            Reference::AnnotationInstance => self.sample_annotation_map.contains_key(holder)
                && self.sample_annotation_map[holder].instance_token.0 == token,
            Reference::AnnotationAttribute => self.sample_annotation_map.contains_key(holder)
                && self.sample_annotation_map[holder].attribute_tokens@.contains(Token(token)),
            Reference::AnnotationVisibility => self.sample_annotation_map.contains_key(holder) && (
            match self.sample_annotation_map[holder].visibility_token {
                Some(visibility) => visibility.0 == token,
                None => false,
            }),
            Reference::AnnotationPrev => self.sample_annotation_map.contains_key(holder)
                && self.sample_annotation_map[holder].prev == Some(Token(token)),
            Reference::AnnotationNext => self.sample_annotation_map.contains_key(holder)
                && self.sample_annotation_map[holder].next == Some(Token(token)),
            Reference::DataSample => self.sample_data_map.contains_key(holder)
                && self.sample_data_map[holder].sample_token.0 == token,
            Reference::DataEgoPose => self.sample_data_map.contains_key(holder)
                && self.sample_data_map[holder].ego_pose_token.0 == token,
            Reference::DataCalibratedSensor => self.sample_data_map.contains_key(holder)
                && self.sample_data_map[holder].calibrated_sensor_token.0 == token,
            Reference::DataPrev => self.sample_data_map.contains_key(holder)
                && self.sample_data_map[holder].prev == Some(Token(token)),
            Reference::DataNext => self.sample_data_map.contains_key(holder)
                && self.sample_data_map[holder].next == Some(Token(token)),
        }
    }

    /// The table holds a record under the token. A visibility token counts by its number.
    pub open spec fn has(&self, table: Table, token: u128) -> bool {
        match table {
            Table::Attribute => self.attribute_map.contains_key(token),
            Table::CalibratedSensor => self.calibrated_sensor_map.contains_key(token),
            Table::Category => self.category_map.contains_key(token),
            Table::EgoPose => self.ego_pose_map.contains_key(token),
            Table::Instance => self.instance_map.contains_key(token),
            Table::Log => self.log_map.contains_key(token),
            Table::MapRecord => self.map_map.contains_key(token),
            Table::Sample => self.sample_map.contains_key(token),
            Table::SampleAnnotation => self.sample_annotation_map.contains_key(token),
            Table::SampleData => self.sample_data_map.contains_key(token),
            Table::Scene => self.scene_map.contains_key(token),
            Table::Sensor => self.sensor_map.contains_key(token),
            Table::Visibility => token <= u32::MAX && self.visibility_map.contains_key(token as u32),
        }
    }

    /// Every token that the record `holder` of the table `table` holds names a record of its target table.
    pub open spec fn record_closed(&self, table: Table, holder: u128) -> bool {
        forall|field: Reference, token: u128|
            field.holder() == table && #[trigger] self.holds(field, holder, token) ==> self.has(
                field.target(),
                token,
            )
    }

    /// Every token that a record of the table `table` holds names a record of its target table.
    pub open spec fn table_closed(&self, table: Table) -> bool {
        forall|field: Reference, holder: u128, token: u128|
            field.holder() == table && #[trigger] self.holds(field, holder, token) ==> self.has(
                field.target(),
                token,
            )
    }

    /// Every token that a record holds names a record of its target table.
    pub open spec fn referentially_closed(&self) -> bool {
        forall|field: Reference, holder: u128, token: u128| #[trigger]
            self.holds(field, holder, token) ==> self.has(field.target(), token)
    }

    /// In each of the three chained tables, the `prev` links and the `next` links agree.
    pub open spec fn chains_symmetric(&self) -> bool {
        &&& links_symmetric(self.sample_map)
        &&& links_symmetric(self.sample_annotation_map)
        &&& links_symmetric(self.sample_data_map)
    }

    /// The chains have true ends: the annotations that name no `prev` are
    /// the first annotations that the instances announce, each of exactly one
    /// instance, and those that name no `next` are the announced last ones;
    /// the same holds of the samples and the scenes.
    pub open spec fn chain_ends_owned(&self) -> bool {
        &&& ends_owned(self.instance_map, self.sample_annotation_map, true)
        &&& ends_owned(self.instance_map, self.sample_annotation_map, false)
        &&& ends_owned(self.scene_map, self.sample_map, true)
        &&& ends_owned(self.scene_map, self.sample_map, false)
    }

    /// The tables pass the integrity check.
    pub open spec fn sound(&self) -> bool {
        self.referentially_closed() && self.chains_symmetric() && self.chain_ends_owned()
    }

    /// The corruption is one that the tables really have: a token that
    /// names no record, a link that the other side does not confirm, or a
    /// fault at an end of a chain.
    pub open spec fn breaks(&self, c: Corruption) -> bool {
        match c {
            Corruption::ChainHead { .. }
            | Corruption::ChainTail { .. }
            | Corruption::UnownedHead { .. }
            | Corruption::UnownedTail { .. }
            | Corruption::SharedHead { .. }
            | Corruption::SharedTail { .. } => ends_broken(
                self.instance_map,
                self.sample_annotation_map,
                Table::Instance,
                Table::SampleAnnotation,
                c,
            ) || ends_broken(self.scene_map, self.sample_map, Table::Scene, Table::Sample, c),
            Corruption::DanglingToken { field, holder, token } => self.holds(field, holder, token) && !self.has(
                field.target(),
                token,
            ),
            Corruption::UnmatchedPrev { table, from, to } => match table {
                Table::Sample => has_prev_edge(self.sample_map, from, to) && !has_next_edge(
                    self.sample_map,
                    from,
                    to,
                ),
                Table::SampleAnnotation => has_prev_edge(self.sample_annotation_map, from, to)
                    && !has_next_edge(self.sample_annotation_map, from, to),
                Table::SampleData => has_prev_edge(self.sample_data_map, from, to) && !has_next_edge(
                    self.sample_data_map,
                    from,
                    to,
                ),
                _ => false,
            },
            Corruption::UnmatchedNext { table, from, to } => match table {
                Table::Sample => has_next_edge(self.sample_map, from, to) && !has_prev_edge(
                    self.sample_map,
                    from,
                    to,
                ),
                Table::SampleAnnotation => has_next_edge(self.sample_annotation_map, from, to)
                    && !has_prev_edge(self.sample_annotation_map, from, to),
                Table::SampleData => has_next_edge(self.sample_data_map, from, to) && !has_prev_edge(
                    self.sample_data_map,
                    from,
                    to,
                ),
                _ => false,
            },
            _ => false,
        }
    }
}

/// Tables that have a corruption do not pass the integrity check.
pub proof fn lemma_breaks_unsound(tables: TablesView, c: Corruption)
    requires
        tables.breaks(c),
    ensures
        !tables.sound(),
{
    if ends_broken(tables.instance_map, tables.sample_annotation_map, Table::Instance, Table::SampleAnnotation, c) {
        lemma_ends_broken(
            tables.instance_map,
            tables.sample_annotation_map,
            Table::Instance,
            Table::SampleAnnotation,
            c,
        );
    } else if ends_broken(tables.scene_map, tables.sample_map, Table::Scene, Table::Sample, c) {
        lemma_ends_broken(tables.scene_map, tables.sample_map, Table::Scene, Table::Sample, c);
    }
}

} // verus!
