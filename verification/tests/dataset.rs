use nuscenes_data::chain::{follow_chain, materialize_chain, WalkEnd};
use nuscenes_data::check::check_loaded_json;
use nuscenes_data::dataset::join_path;
use nuscenes_data::error::{Corruption, Error, Reference, Table};
use nuscenes_data::group::group_by_sample;
use nuscenes_data::index::{index_instances, index_records, index_samples, index_scenes};
use nuscenes_data::links::check_links;
use nuscenes_data::order::{scene_start, sorted_scene_tokens, sorted_tokens};
use nuscenes_data::parsed::{InstanceInternal, SampleInternal, SceneInternal};
use nuscenes_data::serializable::{
    Attribute, CalibratedSensor, Category, Channel, Date, EgoPose, FileFormat, Float64, Instance, Log,
    MapRecord, Modality, Sample, SampleAnnotation, SampleData, Scene, Sensor, Timestamp, Visibility,
    VisibilityLevel,
};
use nuscenes_data::table::{table_keys, vec_to_hashmap, visibility_to_hashmap};
use nuscenes_data::{Dataset, DatasetLoader, DatasetRef, RecordLists, Tables, Token, VisibilityToken};
use std::collections::HashMap;

const LOG: u128 = 10;
const SCENE: u128 = 20;
const S1: u128 = 31;
const S2: u128 = 32;
const SENSOR: u128 = 40;
const CALIBRATED: u128 = 50;
const E1: u128 = 60;
const E2: u128 = 61;
const CATEGORY: u128 = 70;
const ATTRIBUTE: u128 = 80;
const INSTANCE: u128 = 90;
const A1: u128 = 101;
const A2: u128 = 102;
const D1: u128 = 111;
const D2: u128 = 112;
const MAP: u128 = 120;

fn zeros3() -> [Float64; 3] {
    [Float64(0), Float64(0), Float64(0)]
}

fn unit4() -> [Float64; 4] {
    [Float64(1.0f64.to_bits()), Float64(0), Float64(0), Float64(0)]
}

fn sample(token: u128, prev: Option<u128>, next: Option<u128>, scene: u128, time: u64) -> Sample {
    Sample {
        token: Token(token),
        next: next.map(Token),
        prev: prev.map(Token),
        scene_token: Token(scene),
        timestamp: Timestamp(time),
    }
}

fn annotation(token: u128, sample: u128, prev: Option<u128>, next: Option<u128>) -> SampleAnnotation {
    SampleAnnotation {
        token: Token(token),
        num_lidar_pts: 5,
        num_radar_pts: 0,
        size: zeros3(),
        rotation: unit4(),
        translation: zeros3(),
        sample_token: Token(sample),
        instance_token: Token(INSTANCE),
        attribute_tokens: vec![Token(ATTRIBUTE)],
        visibility_token: Some(VisibilityToken(1)),
        prev: prev.map(Token),
        next: next.map(Token),
    }
}

fn data(token: u128, sample: u128, ego: u128, prev: Option<u128>, next: Option<u128>, time: u64) -> SampleData {
    SampleData {
        token: Token(token),
        fileformat: FileFormat::Jpg,
        is_key_frame: true,
        filename: format!("samples/CAM_FRONT/{}.jpg", token),
        timestamp: Timestamp(time),
        sample_token: Token(sample),
        ego_pose_token: Token(ego),
        calibrated_sensor_token: Token(CALIBRATED),
        prev: prev.map(Token),
        next: next.map(Token),
    }
}

fn ego_pose(token: u128, time: u64) -> EgoPose {
    EgoPose { token: Token(token), timestamp: Timestamp(time), rotation: unit4(), translation: zeros3() }
}

/// One log and one scene of two samples, and nothing else: no sample has
/// an annotation or a sample data record.
fn two_sample_lists() -> RecordLists {
    let small = small_lists();
    RecordLists {
        attributes: vec![],
        calibrated_sensors: vec![],
        categories: vec![],
        ego_poses: vec![],
        instances: vec![],
        logs: small.logs,
        maps: vec![],
        samples: vec![
            sample(S1, None, Some(S2), SCENE, 1_000_000_000),
            sample(S2, Some(S1), None, SCENE, 2_000_000_000),
        ],
        sample_annotations: vec![],
        sample_data: vec![],
        scenes: small.scenes,
        sensors: vec![],
        visibilities: vec![],
    }
}

/// One log, one scene of two samples, one instance of two annotations, two
/// sample data records, and the records that these name.
fn small_lists() -> RecordLists {
    RecordLists {
        attributes: vec![Attribute {
            token: Token(ATTRIBUTE),
            description: "moving".to_string(),
            name: "vehicle.moving".to_string(),
        }],
        calibrated_sensors: vec![CalibratedSensor {
            token: Token(CALIBRATED),
            sensor_token: Token(SENSOR),
            rotation: unit4(),
            camera_intrinsic: None,
            translation: zeros3(),
        }],
        categories: vec![Category {
            token: Token(CATEGORY),
            description: "car".to_string(),
            name: "vehicle.car".to_string(),
        }],
        ego_poses: vec![ego_pose(E1, 1500), ego_pose(E2, 500)],
        instances: vec![Instance {
            token: Token(INSTANCE),
            nbr_annotations: 2,
            category_token: Token(CATEGORY),
            first_annotation_token: Token(A1),
            last_annotation_token: Token(A2),
        }],
        logs: vec![Log {
            token: Token(LOG),
            date_captured: Date { year: 2018, month: 7, day: 24 },
            location: "singapore-onenorth".to_string(),
            vehicle: "n015".to_string(),
            logfile: None,
        }],
        maps: vec![MapRecord {
            token: Token(MAP),
            log_tokens: vec![Token(LOG)],
            filename: "maps/53992ee3023e5494b90c316c183be829.png".to_string(),
            category: "semantic_prior".to_string(),
        }],
        samples: vec![sample(S1, None, Some(S2), SCENE, 1000), sample(S2, Some(S1), None, SCENE, 2000)],
        sample_annotations: vec![annotation(A1, S1, None, Some(A2)), annotation(A2, S2, Some(A1), None)],
        sample_data: vec![data(D1, S1, E1, None, Some(D2), 1500), data(D2, S2, E2, Some(D1), None, 500)],
        scenes: vec![Scene {
            token: Token(SCENE),
            name: "scene-0001".to_string(),
            description: "a drive".to_string(),
            log_token: Token(LOG),
            nbr_samples: 2,
            first_sample_token: Token(S1),
            last_sample_token: Token(S2),
        }],
        sensors: vec![Sensor { token: Token(SENSOR), modality: Modality::Camera, channel: Channel::CamFront }],
        visibilities: vec![Visibility {
            token: VisibilityToken(1),
            level: VisibilityLevel::V0_40,
            description: "visibility of whole object is between 0 and 40%".to_string(),
        }],
    }
}

fn load_checked(lists: RecordLists) -> Result<Dataset, Error> {
    DatasetLoader { check: true }.load("v1.0-mini", "/data/sets/nuscenes", lists)
}

fn load_unchecked(lists: RecordLists) -> Result<Dataset, Error> {
    DatasetLoader { check: false }.load("v1.0-mini", "/data/sets/nuscenes", lists)
}

fn dangling(field: Reference, holder: u128, token: u128) -> Error {
    Error::CorruptedDataset(Corruption::DanglingToken { field, holder, token })
}

fn keys<T>(handles: &[T], key: impl Fn(&T) -> Token) -> Vec<u128> {
    handles.iter().map(|handle| key(handle).0).collect()
}

#[test]
fn vec_to_hashmap_keys_records_by_token() {
    let map = vec_to_hashmap(vec![ego_pose(5, 1), ego_pose(7, 2)]);
    assert_eq!(map.len(), 2);
    assert_eq!(map[&5].timestamp, Timestamp(1));
    assert_eq!(map[&7].timestamp, Timestamp(2));
    assert!(!map.contains_key(&6));
}

#[test]
fn vec_to_hashmap_later_record_replaces_earlier() {
    let map = vec_to_hashmap(vec![ego_pose(5, 1), ego_pose(7, 2), ego_pose(5, 3)]);
    assert_eq!(map.len(), 2);
    assert_eq!(map[&5].timestamp, Timestamp(3));
}

#[test]
fn vec_to_hashmap_of_nothing_is_empty() {
    let map = vec_to_hashmap(Vec::<EgoPose>::new());
    assert!(map.is_empty());
}

#[test]
fn visibility_to_hashmap_keys_by_number() {
    let map = visibility_to_hashmap(small_lists().visibilities);
    assert_eq!(map.len(), 1);
    assert_eq!(map[&1].level, VisibilityLevel::V0_40);
}

#[test]
fn table_keys_lists_each_key_once() {
    let map = vec_to_hashmap(vec![ego_pose(5, 1), ego_pose(7, 2), ego_pose(9, 3)]);
    let mut keys = table_keys(&map);
    keys.sort();
    assert_eq!(keys, vec![5, 7, 9]);
}

#[test]
fn tables_from_lists_fills_thirteen_tables() {
    let tables = Tables::from_lists(small_lists());
    assert_eq!(tables.attribute_map.len(), 1);
    assert_eq!(tables.calibrated_sensor_map.len(), 1);
    assert_eq!(tables.category_map.len(), 1);
    assert_eq!(tables.ego_pose_map.len(), 2);
    assert_eq!(tables.instance_map.len(), 1);
    assert_eq!(tables.log_map.len(), 1);
    assert_eq!(tables.map_map.len(), 1);
    assert_eq!(tables.scene_map.len(), 1);
    assert_eq!(tables.sample_map.len(), 2);
    assert_eq!(tables.sample_annotation_map.len(), 2);
    assert_eq!(tables.sample_data_map.len(), 2);
    assert_eq!(tables.sensor_map.len(), 1);
    assert_eq!(tables.visibility_map.len(), 1);
    assert_eq!(tables.sample_map[&S1].next, Some(Token(S2)));
}

#[test]
fn check_accepts_minimal_dataset() {
    let tables = Tables::from_lists(small_lists());
    assert_eq!(check_loaded_json(&tables), Ok(()));
}

#[test]
fn check_accepts_empty_tables() {
    let lists = RecordLists {
        attributes: vec![],
        calibrated_sensors: vec![],
        categories: vec![],
        ego_poses: vec![],
        instances: vec![],
        logs: vec![],
        maps: vec![],
        samples: vec![],
        sample_annotations: vec![],
        sample_data: vec![],
        scenes: vec![],
        sensors: vec![],
        visibilities: vec![],
    };
    assert_eq!(check_loaded_json(&Tables::from_lists(lists)), Ok(()));
}

#[test]
fn check_refuses_calibrated_sensor_without_sensor() {
    let mut lists = small_lists();
    lists.sensors.clear();
    assert_eq!(
        check_loaded_json(&Tables::from_lists(lists)),
        Err(dangling(Reference::CalibratedSensorSensor, CALIBRATED, SENSOR))
    );
}

#[test]
fn check_refuses_map_with_unknown_log() {
    let mut lists = small_lists();
    lists.maps[0].log_tokens.push(Token(11));
    assert_eq!(
        check_loaded_json(&Tables::from_lists(lists)),
        Err(dangling(Reference::MapLog, MAP, 11))
    );
}

#[test]
fn check_refuses_instance_with_unknown_tokens() {
    let mut lists = small_lists();
    lists.instances[0].category_token = Token(71);
    assert_eq!(
        check_loaded_json(&Tables::from_lists(lists)),
        Err(dangling(Reference::InstanceCategory, INSTANCE, 71))
    );
    let mut lists = small_lists();
    lists.instances[0].first_annotation_token = Token(100);
    assert_eq!(
        check_loaded_json(&Tables::from_lists(lists)),
        Err(dangling(Reference::InstanceFirstAnnotation, INSTANCE, 100))
    );
    let mut lists = small_lists();
    lists.instances[0].last_annotation_token = Token(103);
    assert_eq!(
        check_loaded_json(&Tables::from_lists(lists)),
        Err(dangling(Reference::InstanceLastAnnotation, INSTANCE, 103))
    );
}

#[test]
fn check_refuses_scene_with_unknown_tokens() {
    let mut lists = small_lists();
    lists.scenes[0].log_token = Token(11);
    assert_eq!(
        check_loaded_json(&Tables::from_lists(lists)),
        Err(dangling(Reference::SceneLog, SCENE, 11))
    );
    let mut lists = small_lists();
    lists.scenes[0].first_sample_token = Token(30);
    assert_eq!(
        check_loaded_json(&Tables::from_lists(lists)),
        Err(dangling(Reference::SceneFirstSample, SCENE, 30))
    );
    let mut lists = small_lists();
    lists.scenes[0].last_sample_token = Token(33);
    assert_eq!(
        check_loaded_json(&Tables::from_lists(lists)),
        Err(dangling(Reference::SceneLastSample, SCENE, 33))
    );
}

#[test]
fn check_refuses_sample_with_unknown_tokens() {
    let mut lists = small_lists();
    lists.samples[0].scene_token = Token(21);
    assert_eq!(
        check_loaded_json(&Tables::from_lists(lists)),
        Err(dangling(Reference::SampleScene, S1, 21))
    );
    let mut lists = small_lists();
    lists.samples[0].prev = Some(Token(30));
    assert_eq!(
        check_loaded_json(&Tables::from_lists(lists)),
        Err(dangling(Reference::SamplePrev, S1, 30))
    );
    let mut lists = small_lists();
    lists.samples[1].next = Some(Token(33));
    assert_eq!(
        check_loaded_json(&Tables::from_lists(lists)),
        Err(dangling(Reference::SampleNext, S2, 33))
    );
}

#[test]
fn check_refuses_annotation_with_unknown_tokens() {
    let mut lists = small_lists();
    lists.sample_annotations[0].sample_token = Token(30);
    assert_eq!(
        check_loaded_json(&Tables::from_lists(lists)),
        Err(dangling(Reference::AnnotationSample, A1, 30))
    );
    let mut lists = small_lists();
    lists.sample_annotations[0].instance_token = Token(91);
    assert_eq!(
        check_loaded_json(&Tables::from_lists(lists)),
        Err(dangling(Reference::AnnotationInstance, A1, 91))
    );
    let mut lists = small_lists();
    lists.sample_annotations[1].attribute_tokens = vec![Token(ATTRIBUTE), Token(81)];
    assert_eq!(
        check_loaded_json(&Tables::from_lists(lists)),
        Err(dangling(Reference::AnnotationAttribute, A2, 81))
    );
    let mut lists = small_lists();
    lists.sample_annotations[1].visibility_token = Some(VisibilityToken(4));
    assert_eq!(
        check_loaded_json(&Tables::from_lists(lists)),
        Err(dangling(Reference::AnnotationVisibility, A2, 4))
    );
    let mut lists = small_lists();
    lists.sample_annotations[1].next = Some(Token(103));
    assert_eq!(
        check_loaded_json(&Tables::from_lists(lists)),
        Err(dangling(Reference::AnnotationNext, A2, 103))
    );
}

#[test]
fn check_refuses_annotation_whose_prev_is_absent() {
    let mut lists = small_lists();
    lists.sample_annotations[0].prev = Some(Token(100));
    assert_eq!(
        check_loaded_json(&Tables::from_lists(lists)),
        Err(dangling(Reference::AnnotationPrev, A1, 100))
    );
    let mut lists = small_lists();
    lists.sample_annotations[0].prev = Some(Token(100));
    assert!(matches!(load_checked(lists), Err(Error::CorruptedDataset(_))));
}

#[test]
fn check_accepts_annotation_without_visibility() {
    let mut lists = small_lists();
    lists.sample_annotations[0].visibility_token = None;
    lists.visibilities.clear();
    lists.sample_annotations[1].visibility_token = None;
    assert_eq!(check_loaded_json(&Tables::from_lists(lists)), Ok(()));
}

#[test]
fn check_refuses_sample_data_with_unknown_tokens() {
    let mut lists = small_lists();
    lists.sample_data[0].sample_token = Token(30);
    assert_eq!(
        check_loaded_json(&Tables::from_lists(lists)),
        Err(dangling(Reference::DataSample, D1, 30))
    );
    let mut lists = small_lists();
    lists.sample_data[0].ego_pose_token = Token(62);
    assert_eq!(
        check_loaded_json(&Tables::from_lists(lists)),
        Err(dangling(Reference::DataEgoPose, D1, 62))
    );
    let mut lists = small_lists();
    lists.sample_data[0].calibrated_sensor_token = Token(51);
    assert_eq!(
        check_loaded_json(&Tables::from_lists(lists)),
        Err(dangling(Reference::DataCalibratedSensor, D1, 51))
    );
    let mut lists = small_lists();
    lists.sample_data[0].prev = Some(Token(110));
    assert_eq!(
        check_loaded_json(&Tables::from_lists(lists)),
        Err(dangling(Reference::DataPrev, D1, 110))
    );
    let mut lists = small_lists();
    lists.sample_data[1].next = Some(Token(113));
    assert_eq!(
        check_loaded_json(&Tables::from_lists(lists)),
        Err(dangling(Reference::DataNext, D2, 113))
    );
}

fn chain_of(links: &[(u128, Option<u128>, Option<u128>)]) -> HashMap<u128, Sample> {
    vec_to_hashmap(links.iter().map(|&(token, prev, next)| sample(token, prev, next, SCENE, 0)).collect())
}

#[test]
fn check_links_accepts_agreeing_links() {
    let map = chain_of(&[
        (7, Some(3), Some(9)),
        (3, None, Some(7)),
        (9, Some(7), Some(1)),
        (1, Some(9), None),
        (50, None, Some(40)),
        (40, Some(50), None),
        (60, None, None),
    ]);
    assert_eq!(check_links(&map, Table::Sample), Ok(()));
}

#[test]
fn check_links_accepts_empty_table() {
    let map: HashMap<u128, Sample> = HashMap::new();
    assert_eq!(check_links(&map, Table::Sample), Ok(()));
}

#[test]
fn check_links_refuses_prev_without_next() {
    let map = chain_of(&[(3, None, None), (7, Some(3), None)]);
    assert_eq!(
        check_links(&map, Table::Sample),
        Err(Error::CorruptedDataset(Corruption::UnmatchedPrev { table: Table::Sample, from: 3, to: 7 }))
    );
}

#[test]
fn check_links_refuses_next_without_prev() {
    let map = chain_of(&[(3, None, Some(7)), (7, None, None)]);
    assert_eq!(
        check_links(&map, Table::SampleData),
        Err(Error::CorruptedDataset(Corruption::UnmatchedNext { table: Table::SampleData, from: 3, to: 7 }))
    );
}

#[test]
fn check_links_names_the_smallest_unmatched_link() {
    // 1 -> 2 -> 3 declared by next; prev of 3 names 1 instead of 2.
    let map = chain_of(&[(1, None, Some(2)), (2, Some(1), Some(3)), (3, Some(1), None)]);
    assert_eq!(
        check_links(&map, Table::Sample),
        Err(Error::CorruptedDataset(Corruption::UnmatchedPrev { table: Table::Sample, from: 1, to: 3 }))
    );
    // two records name the same successor
    let map = chain_of(&[(1, None, Some(3)), (2, None, Some(3)), (3, Some(2), None)]);
    assert_eq!(
        check_links(&map, Table::Sample),
        Err(Error::CorruptedDataset(Corruption::UnmatchedNext { table: Table::Sample, from: 1, to: 3 }))
    );
}

#[test]
fn check_links_accepts_a_circle() {
    let map = chain_of(&[(1, Some(2), Some(2)), (2, Some(1), Some(1))]);
    assert_eq!(check_links(&map, Table::Sample), Ok(()));
}

#[test]
fn check_refuses_broken_sample_links() {
    let mut lists = small_lists();
    lists.samples[1].prev = None;
    assert_eq!(
        check_loaded_json(&Tables::from_lists(lists)),
        Err(Error::CorruptedDataset(Corruption::UnmatchedNext { table: Table::Sample, from: S1, to: S2 }))
    );
}

#[test]
fn check_refuses_broken_annotation_links() {
    let mut lists = small_lists();
    lists.sample_annotations[0].next = None;
    assert_eq!(
        check_loaded_json(&Tables::from_lists(lists)),
        Err(Error::CorruptedDataset(Corruption::UnmatchedPrev {
            table: Table::SampleAnnotation,
            from: A1,
            to: A2
        }))
    );
}

#[test]
fn check_refuses_broken_sample_data_links() {
    let mut lists = small_lists();
    lists.sample_data[0].next = None;
    assert_eq!(
        check_loaded_json(&Tables::from_lists(lists)),
        Err(Error::CorruptedDataset(Corruption::UnmatchedPrev { table: Table::SampleData, from: D1, to: D2 }))
    );
}

#[test]
fn follow_chain_visits_records_in_order() {
    let map = chain_of(&[(7, Some(3), Some(9)), (3, None, Some(7)), (9, Some(7), None)]);
    assert_eq!(follow_chain(&map, Token(3), 3), (vec![Token(3), Token(7), Token(9)], WalkEnd::Ended));
    assert_eq!(follow_chain(&map, Token(3), 10), (vec![Token(3), Token(7), Token(9)], WalkEnd::Ended));
    assert_eq!(follow_chain(&map, Token(7), 2), (vec![Token(7), Token(9)], WalkEnd::Ended));
    assert_eq!(follow_chain(&map, Token(9), 1), (vec![Token(9)], WalkEnd::Ended));
}

#[test]
fn follow_chain_stops_at_the_limit() {
    let map = chain_of(&[(7, Some(3), Some(9)), (3, None, Some(7)), (9, Some(7), None)]);
    assert_eq!(follow_chain(&map, Token(3), 2), (vec![Token(3), Token(7)], WalkEnd::TooLong));
    assert_eq!(follow_chain(&map, Token(3), 0), (vec![], WalkEnd::TooLong));
}

#[test]
fn follow_chain_stops_in_a_circle() {
    let map = chain_of(&[(1, Some(2), Some(2)), (2, Some(1), Some(1))]);
    assert_eq!(
        follow_chain(&map, Token(1), 5),
        (vec![Token(1), Token(2), Token(1), Token(2), Token(1)], WalkEnd::TooLong)
    );
}

#[test]
fn follow_chain_reports_missing_record() {
    let map = chain_of(&[(3, None, Some(7)), (7, Some(3), Some(8))]);
    assert_eq!(follow_chain(&map, Token(3), 5), (vec![Token(3), Token(7)], WalkEnd::Dangling));
    assert_eq!(follow_chain(&map, Token(4), 5), (vec![], WalkEnd::Dangling));
    assert_eq!(follow_chain(&map, Token(4), 0), (vec![], WalkEnd::Dangling));
}

#[test]
fn follow_chain_reports_missing_record_behind_the_limit() {
    let map = chain_of(&[(3, None, Some(7)), (7, Some(3), Some(8))]);
    assert_eq!(follow_chain(&map, Token(3), 2), (vec![Token(3), Token(7)], WalkEnd::Dangling));
    assert_eq!(follow_chain(&map, Token(3), 1), (vec![Token(3)], WalkEnd::TooLong));
    assert_eq!(follow_chain(&map, Token(7), 1), (vec![Token(7)], WalkEnd::Dangling));
}

#[test]
fn follow_chain_reports_record_under_wrong_key() {
    let mut map = chain_of(&[(3, None, Some(7))]);
    map.insert(7, sample(8, Some(3), None, SCENE, 0));
    assert_eq!(follow_chain(&map, Token(3), 5), (vec![Token(3)], WalkEnd::Dangling));
}

#[test]
fn materialize_chain_accepts_announced_chain() {
    let map = chain_of(&[(7, Some(3), Some(9)), (3, None, Some(7)), (9, Some(7), None)]);
    assert_eq!(
        materialize_chain(&map, Table::Scene, Token(SCENE), Token(3), Token(9), 3),
        Ok(vec![Token(3), Token(7), Token(9)])
    );
}

#[test]
fn materialize_chain_refuses_wrong_length() {
    let map = chain_of(&[(7, Some(3), Some(9)), (3, None, Some(7)), (9, Some(7), None)]);
    let refused = |declared| {
        Err(Error::CorruptedDataset(Corruption::ChainLength {
            table: Table::Scene,
            owner: SCENE,
            declared,
            found: Some(3),
        }))
    };
    assert_eq!(materialize_chain(&map, Table::Scene, Token(SCENE), Token(3), Token(9), 2), refused(2));
    assert_eq!(materialize_chain(&map, Table::Scene, Token(SCENE), Token(3), Token(9), 4), refused(4));
    assert_eq!(materialize_chain(&map, Table::Scene, Token(SCENE), Token(3), Token(9), 0), refused(0));
}

#[test]
fn materialize_chain_refuses_wrong_end() {
    let map = chain_of(&[(7, Some(3), Some(9)), (3, None, Some(7)), (9, Some(7), None)]);
    assert_eq!(
        materialize_chain(&map, Table::Scene, Token(SCENE), Token(3), Token(7), 3),
        Err(Error::CorruptedDataset(Corruption::ChainEnd { table: Table::Scene, owner: SCENE, last: 7, found: 9 }))
    );
}

#[test]
fn materialize_chain_reports_missing_record_as_internal() {
    let map = chain_of(&[(3, None, Some(7))]);
    for declared in [0, 1, 2, 3] {
        assert_eq!(
            materialize_chain(&map, Table::Scene, Token(SCENE), Token(3), Token(7), declared),
            Err(Error::InternalBug)
        );
        assert_eq!(
            materialize_chain(&map, Table::Scene, Token(SCENE), Token(3), Token(3), declared),
            Err(Error::InternalBug)
        );
    }
    let map = chain_of(&[(3, None, Some(7)), (7, Some(3), Some(9)), (9, Some(7), Some(11))]);
    assert_eq!(
        materialize_chain(&map, Table::Scene, Token(SCENE), Token(3), Token(3), 1),
        Err(Error::InternalBug)
    );
    assert_eq!(
        materialize_chain(&map, Table::Scene, Token(SCENE), Token(5), Token(5), 1),
        Err(Error::InternalBug)
    );
}

#[test]
fn instance_whose_only_annotation_names_a_missing_next_is_an_internal_error() {
    let mut only = annotation(A1, S1, None, Some(A2));
    only.instance_token = Token(INSTANCE);
    let annotations = vec_to_hashmap(vec![only]);
    let instance = Instance {
        token: Token(INSTANCE),
        nbr_annotations: 1,
        category_token: Token(CATEGORY),
        first_annotation_token: Token(A1),
        last_annotation_token: Token(A1),
    };
    assert_eq!(InstanceInternal::from(instance, &annotations), Err(Error::InternalBug));
}

#[test]
fn materialize_chain_counts_a_chain_that_is_longer_than_announced() {
    let map = chain_of(&[(1, None, Some(2)), (2, Some(1), Some(3)), (3, Some(2), Some(4)), (4, Some(3), None)]);
    assert_eq!(
        materialize_chain(&map, Table::Instance, Token(INSTANCE), Token(1), Token(4), 1),
        Err(Error::CorruptedDataset(Corruption::ChainLength {
            table: Table::Instance,
            owner: INSTANCE,
            declared: 1,
            found: Some(4),
        }))
    );
    assert_eq!(
        materialize_chain(&map, Table::Instance, Token(INSTANCE), Token(2), Token(4), 3),
        Err(Error::CorruptedDataset(Corruption::ChainHead {
            table: Table::Instance,
            owner: INSTANCE,
            first: 2,
            prev: 1,
        }))
    );
}

#[test]
fn materialize_chain_refuses_a_chain_that_runs_into_a_circle() {
    // 1 -> 2 -> 3 -> 2 -> ...
    let map = chain_of(&[(1, None, Some(2)), (2, Some(1), Some(3)), (3, Some(2), Some(2))]);
    for declared in [0, 1, 3, 4, 100] {
        assert_eq!(
            materialize_chain(&map, Table::Scene, Token(SCENE), Token(1), Token(3), declared),
            Err(Error::CorruptedDataset(Corruption::ChainLength {
                table: Table::Scene,
                owner: SCENE,
                declared,
                found: None,
            }))
        );
    }
}

#[test]
fn instance_internal_from_follows_annotations() {
    let lists = small_lists();
    let annotations = vec_to_hashmap(lists.sample_annotations);
    let instance = lists.instances[0].clone();
    let inner = InstanceInternal::from(instance, &annotations).unwrap();
    assert_eq!(inner.token, Token(INSTANCE));
    assert_eq!(inner.category_token, Token(CATEGORY));
    assert_eq!(inner.annotation_tokens, vec![Token(A1), Token(A2)]);
}

#[test]
fn instance_with_one_annotation_too_few_is_refused() {
    let lists = small_lists();
    let annotations = vec_to_hashmap(lists.sample_annotations);
    let mut instance = lists.instances[0].clone();
    instance.nbr_annotations = 1;
    assert_eq!(
        InstanceInternal::from(instance, &annotations),
        Err(Error::CorruptedDataset(Corruption::ChainLength {
            table: Table::Instance,
            owner: INSTANCE,
            declared: 1,
            found: Some(2),
        }))
    );
    let mut lists = small_lists();
    lists.instances[0].nbr_annotations = 1;
    assert!(matches!(load_checked(lists), Err(Error::CorruptedDataset(_))));
    let mut lists = small_lists();
    lists.instances[0].nbr_annotations = 1;
    assert!(matches!(load_unchecked(lists), Err(Error::CorruptedDataset(_))));
}

#[test]
fn instance_with_wrong_last_annotation_is_refused() {
    let lists = small_lists();
    let annotations = vec_to_hashmap(lists.sample_annotations);
    let mut instance = lists.instances[0].clone();
    instance.last_annotation_token = Token(A1);
    assert_eq!(
        InstanceInternal::from(instance, &annotations),
        Err(Error::CorruptedDataset(Corruption::ChainEnd {
            table: Table::Instance,
            owner: INSTANCE,
            last: A1,
            found: A2
        }))
    );
}

#[test]
fn scene_internal_from_follows_samples() {
    let lists = small_lists();
    let samples = vec_to_hashmap(lists.samples);
    let scene = lists.scenes[0].clone();
    let inner = SceneInternal::from(scene, &samples).unwrap();
    assert_eq!(inner.token, Token(SCENE));
    assert_eq!(inner.name, "scene-0001");
    assert_eq!(inner.description, "a drive");
    assert_eq!(inner.log_token, Token(LOG));
    assert_eq!(inner.sample_tokens, vec![Token(S1), Token(S2)]);
}

#[test]
fn scene_with_wrong_count_is_refused() {
    let lists = small_lists();
    let samples = vec_to_hashmap(lists.samples);
    let mut scene = lists.scenes[0].clone();
    scene.nbr_samples = 3;
    assert_eq!(
        SceneInternal::from(scene, &samples),
        Err(Error::CorruptedDataset(Corruption::ChainLength {
            table: Table::Scene,
            owner: SCENE,
            declared: 3,
            found: Some(2),
        }))
    );
}

#[test]
fn sample_internal_from_joins_the_groups() {
    let joined = SampleInternal::from(
        sample(S1, None, Some(S2), SCENE, 1000),
        vec![Token(A1)],
        vec![Token(D1), Token(D2)],
    );
    assert_eq!(joined.token, Token(S1));
    assert_eq!(joined.prev, None);
    assert_eq!(joined.next, Some(Token(S2)));
    assert_eq!(joined.scene_token, Token(SCENE));
    assert_eq!(joined.timestamp, Timestamp(1000));
    assert_eq!(joined.annotation_tokens, vec![Token(A1)]);
    assert_eq!(joined.sample_data_tokens, vec![Token(D1), Token(D2)]);
}

#[test]
fn group_by_sample_collects_tokens_of_each_sample() {
    let map = vec_to_hashmap(vec![
        data(1, S1, E1, None, None, 0),
        data(2, S2, E1, None, None, 0),
        data(3, S1, E1, None, None, 0),
        data(4, S1, E1, None, None, 0),
    ]);
    let mut groups = group_by_sample(&map);
    assert_eq!(groups.len(), 2);
    let mut first = groups.remove(&S1).unwrap();
    first.sort_by_key(|token| token.0);
    assert_eq!(first, vec![Token(1), Token(3), Token(4)]);
    assert_eq!(groups.remove(&S2).unwrap(), vec![Token(2)]);
}

#[test]
fn index_instances_and_scenes_keep_the_keys() {
    let lists = small_lists();
    let annotations = vec_to_hashmap(lists.sample_annotations);
    let instances = index_instances(vec_to_hashmap(lists.instances), &annotations).unwrap();
    assert_eq!(instances.len(), 1);
    assert_eq!(instances[&INSTANCE].annotation_tokens, vec![Token(A1), Token(A2)]);
    let samples = vec_to_hashmap(lists.samples);
    let scenes = index_scenes(vec_to_hashmap(lists.scenes), &samples).unwrap();
    assert_eq!(scenes.len(), 1);
    assert_eq!(scenes[&SCENE].sample_tokens, vec![Token(S1), Token(S2)]);
}

#[test]
fn index_samples_gives_each_sample_its_groups() {
    let lists = small_lists();
    let annotations = group_by_sample(&vec_to_hashmap(lists.sample_annotations));
    let data_groups = group_by_sample(&vec_to_hashmap(lists.sample_data));
    let samples = index_samples(vec_to_hashmap(lists.samples.clone()), annotations.clone(), data_groups.clone());
    assert_eq!(samples.len(), 2);
    assert_eq!(samples[&S1].annotation_tokens, vec![Token(A1)]);
    assert_eq!(samples[&S1].sample_data_tokens, vec![Token(D1)]);
    assert_eq!(samples[&S2].annotation_tokens, vec![Token(A2)]);
    assert_eq!(samples[&S2].sample_data_tokens, vec![Token(D2)]);
    assert_eq!(samples[&S2].prev, Some(Token(S1)));
    assert_eq!(samples[&S2].timestamp, Timestamp(2000));
}

#[test]
fn index_samples_gives_an_empty_list_where_a_group_is_missing() {
    let lists = small_lists();
    let annotations = group_by_sample(&vec_to_hashmap(lists.sample_annotations));
    let mut data_groups = group_by_sample(&vec_to_hashmap(lists.sample_data));
    data_groups.remove(&S2);
    let samples = index_samples(vec_to_hashmap(lists.samples.clone()), annotations, data_groups.clone());
    assert_eq!(samples[&S2].sample_data_tokens, vec![]);
    assert_eq!(samples[&S2].annotation_tokens, vec![Token(A2)]);
    assert_eq!(samples[&S1].sample_data_tokens, vec![Token(D1)]);
    let samples = index_samples(vec_to_hashmap(lists.samples), HashMap::new(), HashMap::new());
    assert_eq!(samples.len(), 2);
    assert_eq!(samples[&S1].annotation_tokens, vec![]);
    assert_eq!(samples[&S1].sample_data_tokens, vec![]);
    assert_eq!(samples[&S2].annotation_tokens, vec![]);
    assert_eq!(samples[&S2].sample_data_tokens, vec![]);
}

#[test]
fn sorted_tokens_orders_by_time_then_token() {
    let map = vec_to_hashmap(vec![
        ego_pose(5, 300),
        ego_pose(9, 100),
        ego_pose(2, 300),
        ego_pose(7, 200),
        ego_pose(1, u64::MAX),
        ego_pose(u128::MAX, 0),
    ]);
    assert_eq!(
        sorted_tokens(&map),
        vec![Token(u128::MAX), Token(9), Token(7), Token(2), Token(5), Token(1)]
    );
}

#[test]
fn scene_start_is_the_earliest_sample() {
    let samples = vec_to_hashmap(vec![
        SampleInternal::from(sample(1, None, Some(2), SCENE, 700), vec![], vec![]),
        SampleInternal::from(sample(2, Some(1), Some(3), SCENE, 400), vec![], vec![]),
        SampleInternal::from(sample(3, Some(2), None, SCENE, 900), vec![], vec![]),
    ]);
    let scene = |tokens: Vec<u128>| SceneInternal {
        token: Token(SCENE),
        name: String::new(),
        description: String::new(),
        log_token: Token(LOG),
        sample_tokens: tokens.into_iter().map(Token).collect(),
    };
    assert_eq!(scene_start(&scene(vec![1, 2, 3]), &samples), Some(400));
    assert_eq!(scene_start(&scene(vec![1]), &samples), Some(700));
    assert_eq!(scene_start(&scene(vec![3, 1]), &samples), Some(700));
    assert_eq!(scene_start(&scene(vec![]), &samples), None);
    assert_eq!(scene_start(&scene(vec![1, 4]), &samples), None);
}

#[test]
fn sorted_scene_tokens_orders_by_earliest_sample() {
    let samples = vec_to_hashmap(vec![
        SampleInternal::from(sample(1, None, Some(2), 21, 700), vec![], vec![]),
        SampleInternal::from(sample(2, Some(1), None, 21, 400), vec![], vec![]),
        SampleInternal::from(sample(3, None, None, 22, 300), vec![], vec![]),
        SampleInternal::from(sample(4, None, None, 23, 500), vec![], vec![]),
    ]);
    let scene = |token: u128, tokens: Vec<u128>| SceneInternal {
        token: Token(token),
        name: String::new(),
        description: String::new(),
        log_token: Token(LOG),
        sample_tokens: tokens.into_iter().map(Token).collect(),
    };
    let scenes = vec_to_hashmap(vec![scene(21, vec![1, 2]), scene(22, vec![3]), scene(23, vec![4])]);
    assert_eq!(sorted_scene_tokens(&scenes, &samples), Ok(vec![Token(22), Token(21), Token(23)]));
    let scenes = vec_to_hashmap(vec![scene(21, vec![1, 2]), scene(22, vec![5])]);
    assert_eq!(sorted_scene_tokens(&scenes, &samples), Err(Error::InternalBug));
}

#[test]
fn index_records_derives_chains_groups_and_orders() {
    let tables = Tables::from_lists(small_lists());
    let dataset = index_records("v1.0-mini".to_string(), "/data".to_string(), tables).unwrap();
    assert_eq!(dataset.version(), "v1.0-mini");
    assert_eq!(dataset.dir(), "/data");
    assert_eq!(dataset.instance_map[&INSTANCE].annotation_tokens, vec![Token(A1), Token(A2)]);
    assert_eq!(dataset.scene_map[&SCENE].sample_tokens, vec![Token(S1), Token(S2)]);
    assert_eq!(dataset.sample_map[&S1].annotation_tokens, vec![Token(A1)]);
    assert_eq!(dataset.sample_map[&S1].sample_data_tokens, vec![Token(D1)]);
    assert_eq!(dataset.sample_map[&S2].annotation_tokens, vec![Token(A2)]);
    assert_eq!(dataset.sample_map[&S2].sample_data_tokens, vec![Token(D2)]);
    assert_eq!(dataset.sorted_ego_pose_tokens, vec![Token(E2), Token(E1)]);
    assert_eq!(dataset.sorted_sample_tokens, vec![Token(S1), Token(S2)]);
    assert_eq!(dataset.sorted_sample_data_tokens, vec![Token(D2), Token(D1)]);
    assert_eq!(dataset.sorted_scene_tokens, vec![Token(SCENE)]);
    assert_eq!(dataset.attribute_map.len(), 1);
    assert_eq!(dataset.visibility_map.len(), 1);
    assert_eq!(dataset.map_map[&MAP].log_tokens, vec![Token(LOG)]);
}

#[test]
fn sample_without_annotation_or_data_has_empty_lists() {
    let mut lists = small_lists();
    lists.samples[1].next = Some(Token(33));
    lists.samples.push(sample(33, Some(S2), None, SCENE, 3000));
    lists.scenes[0].nbr_samples = 3;
    lists.scenes[0].last_sample_token = Token(33);
    for check in [true, false] {
        let dataset = DatasetLoader { check }.load("v", "/d", lists.clone()).unwrap();
        assert_eq!(dataset.sample_map[&33].annotation_tokens, vec![]);
        assert_eq!(dataset.sample_map[&33].sample_data_tokens, vec![]);
        assert_eq!(dataset.sample_map[&S1].annotation_tokens, vec![Token(A1)]);
        assert_eq!(dataset.scene_map[&SCENE].sample_tokens, vec![Token(S1), Token(S2), Token(33)]);
        let handle = DatasetRef::new(dataset);
        let childless = handle.sample(Token(33)).unwrap();
        assert!(childless.annotation_iter().is_empty());
        assert!(childless.sample_data_iter().is_empty());
    }
}

#[test]
fn unchecked_load_reports_a_chain_into_nothing_as_internal() {
    let mut lists = small_lists();
    lists.instances[0].first_annotation_token = Token(100);
    assert_eq!(load_unchecked(lists).err(), Some(Error::InternalBug));
    let mut lists = small_lists();
    lists.samples[1].next = Some(Token(33));
    lists.scenes[0].nbr_samples = 3;
    assert_eq!(load_unchecked(lists).err(), Some(Error::InternalBug));
    let mut lists = small_lists();
    lists.samples[1].next = Some(Token(33));
    assert_eq!(load_unchecked(lists).err(), Some(Error::InternalBug));
    let mut lists = small_lists();
    lists.sample_annotations[1].next = Some(Token(103));
    lists.instances[0].nbr_annotations = 1;
    lists.instances[0].last_annotation_token = Token(A1);
    assert_eq!(load_unchecked(lists).err(), Some(Error::InternalBug));
}

#[test]
fn load_stops_on_a_chain_that_runs_in_a_circle() {
    let mut lists = small_lists();
    lists.samples[0].prev = Some(Token(S2));
    lists.samples[1].next = Some(Token(S1));
    assert_eq!(
        load_checked(lists.clone()).err(),
        Some(Error::CorruptedDataset(Corruption::ChainHead { table: Table::Scene, owner: SCENE, first: S1, prev: S2 }))
    );
    assert_eq!(
        load_unchecked(lists).err(),
        Some(Error::CorruptedDataset(Corruption::ChainLength {
            table: Table::Scene,
            owner: SCENE,
            declared: 2,
            found: None,
        }))
    );
}

#[test]
fn load_refuses_annotations_that_run_in_a_circle() {
    let mut lists = small_lists();
    lists.sample_annotations[0].prev = Some(Token(A2));
    lists.sample_annotations[1].next = Some(Token(A1));
    assert_eq!(
        load_checked(lists.clone()).err(),
        Some(Error::CorruptedDataset(Corruption::ChainHead {
            table: Table::Instance,
            owner: INSTANCE,
            first: A1,
            prev: A2
        }))
    );
    assert_eq!(
        load_unchecked(lists).err(),
        Some(Error::CorruptedDataset(Corruption::ChainLength {
            table: Table::Instance,
            owner: INSTANCE,
            declared: 2,
            found: None,
        }))
    );
}

#[test]
fn check_refuses_a_first_record_that_names_a_prev() {
    // 30 -> S1 -> S2, and the scene announces S1 as its first sample. The
    // sample 30 has no owner either; the fault that names the scene comes first.
    let mut lists = small_lists();
    lists.samples[0].prev = Some(Token(30));
    lists.samples.push(sample(30, None, Some(S1), SCENE, 500));
    assert_eq!(
        check_loaded_json(&Tables::from_lists(lists.clone())),
        Err(Error::CorruptedDataset(Corruption::ChainHead { table: Table::Scene, owner: SCENE, first: S1, prev: 30 }))
    );
    assert_eq!(
        load_unchecked(lists).err(),
        Some(Error::CorruptedDataset(Corruption::ChainHead { table: Table::Scene, owner: SCENE, first: S1, prev: 30 }))
    );
}

#[test]
fn scene_of_one_sample_that_has_a_predecessor_is_refused() {
    let samples = chain_of(&[(7, None, Some(9)), (9, Some(7), None)]);
    let scene = Scene {
        token: Token(SCENE),
        name: String::new(),
        description: String::new(),
        log_token: Token(LOG),
        nbr_samples: 1,
        first_sample_token: Token(9),
        last_sample_token: Token(9),
    };
    assert_eq!(
        SceneInternal::from(scene, &samples),
        Err(Error::CorruptedDataset(Corruption::ChainHead { table: Table::Scene, owner: SCENE, first: 9, prev: 7 }))
    );
    assert_eq!(
        materialize_chain(&samples, Table::Scene, Token(SCENE), Token(7), Token(9), 2),
        Ok(vec![Token(7), Token(9)])
    );
}

#[test]
fn check_refuses_a_last_record_that_names_a_next() {
    let mut lists = small_lists();
    lists.scenes[0].last_sample_token = Token(S1);
    assert_eq!(
        check_loaded_json(&Tables::from_lists(lists)),
        Err(Error::CorruptedDataset(Corruption::ChainTail { table: Table::Scene, owner: SCENE, last: S1, next: S2 }))
    );
    let mut lists = small_lists();
    lists.instances[0].last_annotation_token = Token(A1);
    assert_eq!(
        check_loaded_json(&Tables::from_lists(lists)),
        Err(Error::CorruptedDataset(Corruption::ChainTail {
            table: Table::Instance,
            owner: INSTANCE,
            last: A1,
            next: A2
        }))
    );
}

#[test]
fn check_refuses_a_chain_that_nothing_owns() {
    let mut lists = small_lists();
    lists.samples.push(sample(33, None, None, SCENE, 3000));
    assert_eq!(
        check_loaded_json(&Tables::from_lists(lists.clone())),
        Err(Error::CorruptedDataset(Corruption::UnownedHead { table: Table::Sample, head: 33 }))
    );
    assert!(load_unchecked(lists).is_ok());
    let mut lists = small_lists();
    lists.sample_annotations.push(annotation(100, S1, None, None));
    assert_eq!(
        check_loaded_json(&Tables::from_lists(lists)),
        Err(Error::CorruptedDataset(Corruption::UnownedHead { table: Table::SampleAnnotation, head: 100 }))
    );
}

#[test]
fn check_refuses_a_tail_that_nothing_owns() {
    // Two scenes announce the ends of one chain crosswise: heads fit, tails do not.
    let mut lists = small_lists();
    lists.samples.push(sample(33, None, Some(34), SCENE, 3000));
    lists.samples.push(sample(34, Some(33), None, SCENE, 4000));
    lists.scenes.push(Scene {
        token: Token(21),
        name: "scene-0002".to_string(),
        description: String::new(),
        log_token: Token(LOG),
        nbr_samples: 2,
        first_sample_token: Token(33),
        last_sample_token: Token(S2),
    });
    assert_eq!(
        check_loaded_json(&Tables::from_lists(lists)),
        Err(Error::CorruptedDataset(Corruption::SharedTail { table: Table::Scene, owner: 21, other: SCENE, last: S2 }))
    );
    let mut lists = small_lists();
    lists.samples.push(sample(33, None, Some(34), SCENE, 3000));
    lists.samples.push(sample(34, Some(33), None, SCENE, 4000));
    lists.scenes.push(Scene {
        token: Token(21),
        name: "scene-0002".to_string(),
        description: String::new(),
        log_token: Token(LOG),
        nbr_samples: 2,
        first_sample_token: Token(33),
        last_sample_token: Token(34),
    });
    lists.scenes[0].last_sample_token = Token(34);
    assert_eq!(
        check_loaded_json(&Tables::from_lists(lists)),
        Err(Error::CorruptedDataset(Corruption::UnownedTail { table: Table::Sample, tail: S2 }))
    );
}

#[test]
fn check_refuses_two_owners_of_one_chain() {
    let mut lists = small_lists();
    lists.scenes.push(Scene {
        token: Token(21),
        name: "scene-0002".to_string(),
        description: String::new(),
        log_token: Token(LOG),
        nbr_samples: 2,
        first_sample_token: Token(S1),
        last_sample_token: Token(S2),
    });
    assert_eq!(
        check_loaded_json(&Tables::from_lists(lists)),
        Err(Error::CorruptedDataset(Corruption::SharedHead { table: Table::Scene, owner: 21, other: SCENE, first: S1 }))
    );
}

#[test]
fn check_accepts_several_chains_with_their_owners() {
    let mut lists = two_sample_lists();
    lists.samples.push(sample(29, None, Some(28), 21, 10));
    lists.samples.push(sample(28, Some(29), Some(27), 21, 20));
    lists.samples.push(sample(27, Some(28), None, 21, 30));
    lists.samples.push(sample(40, None, None, 22, 5));
    for (token, first, last, count) in [(21, 29, 27, 3), (22, 40, 40, 1)] {
        lists.scenes.push(Scene {
            token: Token(token),
            name: String::new(),
            description: String::new(),
            log_token: Token(LOG),
            nbr_samples: count,
            first_sample_token: Token(first),
            last_sample_token: Token(last),
        });
    }
    assert_eq!(check_loaded_json(&Tables::from_lists(lists.clone())), Ok(()));
    let dataset = load_checked(lists).unwrap();
    assert_eq!(dataset.scene_map[&21].sample_tokens, vec![Token(29), Token(28), Token(27)]);
    assert_eq!(dataset.scene_map[&22].sample_tokens, vec![Token(40)]);
    assert_eq!(dataset.sorted_scene_tokens, vec![Token(22), Token(21), Token(SCENE)]);
}

#[test]
fn scene_that_announces_no_samples_is_refused() {
    let mut lists = small_lists();
    lists.scenes[0].nbr_samples = 0;
    assert_eq!(
        load_checked(lists).err(),
        Some(Error::CorruptedDataset(Corruption::ChainLength {
            table: Table::Scene,
            owner: SCENE,
            declared: 0,
            found: Some(2),
        }))
    );
}

#[test]
fn load() {
    let dataset = Dataset::load("v1.02-train", "/mnt/wd/home/aeon/dataset/v1.02-train", small_lists()).unwrap();
    assert_eq!(dataset.version(), "v1.02-train");
    assert_eq!(dataset.dir(), "/mnt/wd/home/aeon/dataset/v1.02-train");
    assert_eq!(dataset.sample_map.len(), 2);
}

#[test]
fn load_with_default_loader_checks() {
    assert!(DatasetLoader::default().check);
    let mut lists = small_lists();
    lists.sensors.clear();
    assert_eq!(
        DatasetLoader::default().load("v", "/d", lists).err(),
        Some(dangling(Reference::CalibratedSensorSensor, CALIBRATED, SENSOR))
    );
    let mut lists = small_lists();
    lists.sensors.clear();
    assert!(Dataset::load("v", "/d", lists).is_err());
    assert!(Dataset::load("v", "/d", small_lists()).is_ok());
}

#[test]
fn load_without_check_skips_the_integrity_check() {
    let mut lists = small_lists();
    lists.sensors.clear();
    let dataset = load_unchecked(lists).unwrap();
    assert!(dataset.sensor_map.is_empty());
    let handle = DatasetRef::new(dataset);
    assert!(handle.sensor(Token(SENSOR)).is_none());
    assert!(handle.calibrated_sensor(Token(CALIBRATED)).is_some());
}

#[test]
fn lists_of_an_unchecked_dataset_still_resolve() {
    let mut lists = small_lists();
    lists.sensors.clear();
    lists.categories.clear();
    lists.logs.clear();
    let dataset = DatasetRef::new(load_unchecked(lists).unwrap());
    let instance = dataset.instance(Token(INSTANCE)).unwrap();
    assert_eq!(keys(&instance.annotation_iter(), |a| a.token()), vec![A1, A2]);
    let scene = dataset.scene(Token(SCENE)).unwrap();
    assert_eq!(keys(&scene.sample_iter(), |s| s.token()), vec![S1, S2]);
    let sample = dataset.sample(Token(S2)).unwrap();
    assert_eq!(keys(&sample.annotation_iter(), |a| a.token()), vec![A2]);
    assert_eq!(keys(&sample.sample_data_iter(), |d| d.token()), vec![D2]);
    assert_eq!(keys(&dataset.sample_iter_sorted(), |s| s.token()), vec![S1, S2]);
    assert_eq!(keys(&dataset.scene_iter_sorted(), |s| s.token()), vec![SCENE]);
    assert!(dataset.category(instance.get().category_token).is_none());
    assert!(dataset.log(scene.get().log_token).is_none());
}

#[test]
fn minimal_dataset_loads_and_scene_lists_its_samples_in_order() {
    let dataset = DatasetRef::new(load_checked(two_sample_lists()).unwrap());
    let scene = dataset.scene(Token(SCENE)).unwrap();
    let samples = scene.sample_iter();
    assert_eq!(keys(&samples, |s| s.token()), vec![S1, S2]);
    assert_eq!(samples[0].get().prev, None);
    assert_eq!(samples[0].get().next, Some(Token(S2)));
    assert_eq!(samples[1].get().prev, Some(Token(S1)));
    assert_eq!(samples[1].get().next, None);
    assert_eq!(scene.log().token(), Token(LOG));
    for token in [S1, S2] {
        let sample = dataset.sample(Token(token)).unwrap();
        assert_eq!(sample.annotation_iter().len(), 0);
        assert_eq!(sample.sample_data_iter().len(), 0);
        assert_eq!(sample.scene().token(), Token(SCENE));
    }
    assert_eq!(dataset.sorted_sample_tokens, vec![Token(S1), Token(S2)]);
    assert_eq!(dataset.sorted_scene_tokens, vec![Token(SCENE)]);
    assert!(load_unchecked(two_sample_lists()).is_ok());
}

#[test]
fn small_dataset_loads_with_its_annotations_and_data() {
    let dataset = DatasetRef::new(load_checked(small_lists()).unwrap());
    let scene = dataset.scene(Token(SCENE)).unwrap();
    assert_eq!(keys(&scene.sample_iter(), |s| s.token()), vec![S1, S2]);
    let first = dataset.instance(Token(INSTANCE)).unwrap().annotation_iter();
    assert_eq!(keys(&first, |a| a.token()), vec![A1, A2]);
    assert_eq!(first[0].get().prev, None);
    assert_eq!(first[1].get().next, None);
}

#[test]
fn every_held_token_is_found_after_a_checked_load() {
    let dataset = DatasetRef::new(load_checked(small_lists()).unwrap());
    for handle in dataset.calibrated_sensor_iter() {
        assert!(dataset.sensor(handle.get().sensor_token).is_some());
    }
    for handle in dataset.instance_iter() {
        assert!(dataset.category(handle.get().category_token).is_some());
        for token in &handle.get().annotation_tokens {
            assert!(dataset.sample_annotation(*token).is_some());
        }
    }
    for handle in dataset.map_iter() {
        for token in &handle.get().log_tokens {
            assert!(dataset.log(*token).is_some());
        }
    }
    for handle in dataset.scene_iter() {
        assert!(dataset.log(handle.get().log_token).is_some());
        for token in &handle.get().sample_tokens {
            assert!(dataset.sample(*token).is_some());
        }
    }
    for handle in dataset.sample_iter() {
        let record = handle.get();
        assert!(dataset.scene(record.scene_token).is_some());
        for token in record.prev.iter().chain(record.next.iter()) {
            assert!(dataset.sample(*token).is_some());
        }
        for token in &record.annotation_tokens {
            assert!(dataset.sample_annotation(*token).is_some());
        }
        for token in &record.sample_data_tokens {
            assert!(dataset.sample_data(*token).is_some());
        }
    }
    for handle in dataset.sample_annotation_iter() {
        let record = handle.get();
        assert!(dataset.sample(record.sample_token).is_some());
        assert!(dataset.instance(record.instance_token).is_some());
        for token in &record.attribute_tokens {
            assert!(dataset.attribute(*token).is_some());
        }
        for token in record.visibility_token.iter() {
            assert!(dataset.visibility(*token).is_some());
        }
        for token in record.prev.iter().chain(record.next.iter()) {
            assert!(dataset.sample_annotation(*token).is_some());
        }
    }
    for handle in dataset.sample_data_iter() {
        let record = handle.get();
        assert!(dataset.sample(record.sample_token).is_some());
        assert!(dataset.ego_pose(record.ego_pose_token).is_some());
        assert!(dataset.calibrated_sensor(record.calibrated_sensor_token).is_some());
        for token in record.prev.iter().chain(record.next.iter()) {
            assert!(dataset.sample_data(*token).is_some());
        }
    }
}

#[test]
fn chains_have_the_announced_length_and_ends() {
    let lists = small_lists();
    let dataset = load_checked(small_lists()).unwrap();
    for instance in &lists.instances {
        let chain = &dataset.instance_map[&instance.token.0].annotation_tokens;
        assert_eq!(chain.len(), instance.nbr_annotations);
        assert_eq!(chain.first(), Some(&instance.first_annotation_token));
        assert_eq!(chain.last(), Some(&instance.last_annotation_token));
    }
    for scene in &lists.scenes {
        let chain = &dataset.scene_map[&scene.token.0].sample_tokens;
        assert_eq!(chain.len(), scene.nbr_samples);
        assert_eq!(chain.first(), Some(&scene.first_sample_token));
        assert_eq!(chain.last(), Some(&scene.last_sample_token));
    }
}

#[test]
fn walking_the_links_again_gives_the_indexed_chain() {
    let lists = small_lists();
    let dataset = load_checked(small_lists()).unwrap();
    let annotations = vec_to_hashmap(lists.sample_annotations);
    let (walked, end) = follow_chain(&annotations, lists.instances[0].first_annotation_token, 100);
    assert_eq!(end, WalkEnd::Ended);
    assert_eq!(walked, dataset.instance_map[&INSTANCE].annotation_tokens);
    let samples = vec_to_hashmap(lists.samples);
    let (walked, end) = follow_chain(&samples, lists.scenes[0].first_sample_token, 2);
    assert_eq!(end, WalkEnd::Ended);
    assert_eq!(walked, dataset.scene_map[&SCENE].sample_tokens);
    let chain = &dataset.scene_map[&SCENE].sample_tokens;
    for i in 1..chain.len() {
        assert_eq!(dataset.sample_map[&chain[i].0].prev, Some(chain[i - 1]));
    }
}

#[test]
fn sorted_orders_are_chronological() {
    let mut lists = small_lists();
    lists.ego_poses.push(ego_pose(62, 1500));
    lists.ego_poses.push(ego_pose(59, 1500));
    let dataset = load_checked(lists).unwrap();
    assert_eq!(dataset.sorted_ego_pose_tokens, vec![Token(E2), Token(59), Token(E1), Token(62)]);
    for pair in dataset.sorted_ego_pose_tokens.windows(2) {
        assert!(dataset.ego_pose_map[&pair[0].0].timestamp.0 <= dataset.ego_pose_map[&pair[1].0].timestamp.0);
    }
    for pair in dataset.sorted_sample_tokens.windows(2) {
        assert!(dataset.sample_map[&pair[0].0].timestamp.0 <= dataset.sample_map[&pair[1].0].timestamp.0);
    }
    for pair in dataset.sorted_sample_data_tokens.windows(2) {
        assert!(
            dataset.sample_data_map[&pair[0].0].timestamp.0 <= dataset.sample_data_map[&pair[1].0].timestamp.0
        );
    }
}

#[test]
fn navigation_leads_back_to_where_it_started() {
    let dataset = DatasetRef::new(load_checked(small_lists()).unwrap());
    for data in dataset.sample_data_iter() {
        let listed = data.sample().sample_data_iter();
        assert!(listed.iter().any(|other| other.token() == data.token()));
    }
    for sample in dataset.sample_iter() {
        let listed = sample.scene().sample_iter();
        assert!(listed.iter().any(|other| other.token() == sample.token()));
    }
}

#[test]
fn sample_may_name_a_scene_that_does_not_list_it() {
    let mut lists = small_lists();
    lists.scenes.push(Scene {
        token: Token(21),
        name: "scene-0002".to_string(),
        description: String::new(),
        log_token: Token(LOG),
        nbr_samples: 1,
        first_sample_token: Token(33),
        last_sample_token: Token(33),
    });
    lists.samples.push(sample(33, None, None, SCENE, 3000));
    lists.sample_annotations.push(SampleAnnotation {
        instance_token: Token(91),
        ..annotation(103, 33, None, None)
    });
    lists.instances.push(Instance {
        token: Token(91),
        nbr_annotations: 1,
        category_token: Token(CATEGORY),
        first_annotation_token: Token(103),
        last_annotation_token: Token(103),
    });
    lists.sample_data.push(data(113, 33, E1, None, None, 3000));
    let dataset = DatasetRef::new(load_checked(lists).unwrap());
    let stray = dataset.sample(Token(33)).unwrap();
    assert_eq!(stray.scene().token(), Token(SCENE));
    assert_eq!(keys(&stray.scene().sample_iter(), |s| s.token()), vec![S1, S2]);
    assert_eq!(keys(&dataset.scene(Token(21)).unwrap().sample_iter(), |s| s.token()), vec![33]);
}

#[test]
fn lookups_of_unknown_tokens_find_nothing() {
    let dataset = DatasetRef::new(load_checked(small_lists()).unwrap());
    assert!(dataset.attribute(Token(1)).is_none());
    assert!(dataset.calibrated_sensor(Token(1)).is_none());
    assert!(dataset.category(Token(1)).is_none());
    assert!(dataset.ego_pose(Token(1)).is_none());
    assert!(dataset.instance(Token(1)).is_none());
    assert!(dataset.log(Token(1)).is_none());
    assert!(dataset.map(Token(1)).is_none());
    assert!(dataset.scene(Token(1)).is_none());
    assert!(dataset.sample(Token(1)).is_none());
    assert!(dataset.sample_annotation(Token(1)).is_none());
    assert!(dataset.sample_data(Token(1)).is_none());
    assert!(dataset.sensor(Token(1)).is_none());
    assert!(dataset.visibility(VisibilityToken(2)).is_none());
}

#[test]
fn lookups_of_known_tokens_find_the_records() {
    let dataset = DatasetRef::new(load_checked(small_lists()).unwrap());
    assert_eq!(dataset.attribute(Token(ATTRIBUTE)).unwrap().get().name, "vehicle.moving");
    assert_eq!(dataset.calibrated_sensor(Token(CALIBRATED)).unwrap().get().sensor_token, Token(SENSOR));
    assert_eq!(dataset.category(Token(CATEGORY)).unwrap().get().name, "vehicle.car");
    assert_eq!(dataset.ego_pose(Token(E1)).unwrap().get().timestamp, Timestamp(1500));
    assert_eq!(dataset.instance(Token(INSTANCE)).unwrap().get().category_token, Token(CATEGORY));
    assert_eq!(dataset.log(Token(LOG)).unwrap().get().vehicle, "n015");
    assert_eq!(dataset.map(Token(MAP)).unwrap().get().category, "semantic_prior");
    assert_eq!(dataset.scene(Token(SCENE)).unwrap().get().name, "scene-0001");
    assert_eq!(dataset.sample(Token(S2)).unwrap().get().timestamp, Timestamp(2000));
    assert_eq!(dataset.sample_annotation(Token(A1)).unwrap().get().num_lidar_pts, 5);
    assert_eq!(dataset.sample_data(Token(D1)).unwrap().get().fileformat, FileFormat::Jpg);
    assert_eq!(dataset.sensor(Token(SENSOR)).unwrap().get().channel, Channel::CamFront);
    assert_eq!(dataset.visibility(VisibilityToken(1)).unwrap().get().level, VisibilityLevel::V0_40);
    assert_eq!(dataset.get().version(), "v1.0-mini");
    assert_eq!(dataset.dataset().get().dir(), "/data/sets/nuscenes");
}

#[test]
fn table_iterators_list_every_record_once() {
    let dataset = DatasetRef::new(load_checked(small_lists()).unwrap());
    let mut samples = keys(&dataset.sample_iter(), |s| s.token());
    samples.sort();
    assert_eq!(samples, vec![S1, S2]);
    let mut poses = keys(&dataset.ego_pose_iter(), |s| s.token());
    poses.sort();
    assert_eq!(poses, vec![E1, E2]);
    assert_eq!(keys(&dataset.attribute_iter(), |s| s.token()), vec![ATTRIBUTE]);
    assert_eq!(keys(&dataset.calibrated_sensor_iter(), |s| s.token()), vec![CALIBRATED]);
    assert_eq!(keys(&dataset.category_iter(), |s| s.token()), vec![CATEGORY]);
    assert_eq!(keys(&dataset.instance_iter(), |s| s.token()), vec![INSTANCE]);
    assert_eq!(keys(&dataset.log_iter(), |s| s.token()), vec![LOG]);
    assert_eq!(keys(&dataset.map_iter(), |s| s.token()), vec![MAP]);
    assert_eq!(keys(&dataset.scene_iter(), |s| s.token()), vec![SCENE]);
    assert_eq!(keys(&dataset.sensor_iter(), |s| s.token()), vec![SENSOR]);
    assert_eq!(dataset.sample_annotation_iter().len(), 2);
    assert_eq!(dataset.sample_data_iter().len(), 2);
    let visibilities = dataset.visibility_iter();
    assert_eq!(visibilities.len(), 1);
    assert_eq!(visibilities[0].token(), VisibilityToken(1));
}

#[test]
fn chronological_iterators_follow_the_sorted_tokens() {
    let mut lists = small_lists();
    lists.samples[0].timestamp = Timestamp(5000);
    let dataset = DatasetRef::new(load_checked(lists).unwrap());
    assert_eq!(keys(&dataset.sample_iter_sorted(), |s| s.token()), vec![S2, S1]);
    assert_eq!(keys(&dataset.scene_iter_sorted(), |s| s.token()), vec![SCENE]);
}

#[test]
fn handles_navigate_to_related_records() {
    let dataset = DatasetRef::new(load_checked(small_lists()).unwrap());
    let calibrated = dataset.calibrated_sensor(Token(CALIBRATED)).unwrap();
    assert_eq!(calibrated.sensor().token(), Token(SENSOR));
    let instance = dataset.instance(Token(INSTANCE)).unwrap();
    assert_eq!(instance.category().token(), Token(CATEGORY));
    assert_eq!(keys(&instance.annotation_iter(), |a| a.token()), vec![A1, A2]);
    let map = dataset.map(Token(MAP)).unwrap();
    assert_eq!(keys(&map.log_iter(), |l| l.token()), vec![LOG]);
    let first = dataset.sample(Token(S1)).unwrap();
    assert!(first.prev().is_none());
    assert_eq!(first.next().unwrap().token(), Token(S2));
    assert_eq!(first.next().unwrap().prev().unwrap().token(), Token(S1));
    assert_eq!(first.scene().token(), Token(SCENE));
    assert_eq!(keys(&first.annotation_iter(), |a| a.token()), vec![A1]);
    assert_eq!(keys(&first.sample_data_iter(), |d| d.token()), vec![D1]);
    let annotation = dataset.sample_annotation(Token(A2)).unwrap();
    assert_eq!(annotation.sample().token(), Token(S2));
    assert_eq!(annotation.instance().token(), Token(INSTANCE));
    assert_eq!(keys(&annotation.attribute_iter(), |a| a.token()), vec![ATTRIBUTE]);
    assert_eq!(annotation.visibility().unwrap().token(), VisibilityToken(1));
    assert_eq!(annotation.prev().unwrap().token(), Token(A1));
    assert!(annotation.next().is_none());
    let data = dataset.sample_data(Token(D1)).unwrap();
    assert_eq!(data.sample().token(), Token(S1));
    assert_eq!(data.ego_pose().token(), Token(E1));
    assert_eq!(data.calibrated_sensor().token(), Token(CALIBRATED));
    assert_eq!(data.next().unwrap().token(), Token(D2));
    assert!(data.prev().is_none());
    assert_eq!(data.dataset().get().version(), "v1.0-mini");
    assert_eq!(data.clone().token(), Token(D1));
}

#[test]
fn handles_give_their_records_by_dereference() {
    let dataset = DatasetRef::new(load_checked(small_lists()).unwrap());
    assert_eq!(dataset.version, "v1.0-mini");
    assert_eq!(dataset.sorted_sample_tokens, vec![Token(S1), Token(S2)]);
    let sample = dataset.sample(Token(S2)).unwrap();
    assert_eq!(sample.timestamp, Timestamp(2000));
    assert_eq!(sample.scene_token, Token(SCENE));
    assert_eq!(dataset.scene(Token(SCENE)).unwrap().name, "scene-0001");
    assert_eq!(dataset.sensor(Token(SENSOR)).unwrap().modality, Modality::Camera);
    assert_eq!(dataset.visibility(VisibilityToken(1)).unwrap().token, VisibilityToken(1));
}

#[test]
fn annotation_without_visibility_has_no_visibility_handle() {
    let mut lists = small_lists();
    lists.sample_annotations[0].visibility_token = None;
    let dataset = DatasetRef::new(load_checked(lists).unwrap());
    assert!(dataset.sample_annotation(Token(A1)).unwrap().visibility().is_none());
}

#[test]
fn paths_join_directory_and_file_name() {
    let dataset = DatasetRef::new(load_checked(small_lists()).unwrap());
    assert_eq!(
        dataset.map(Token(MAP)).unwrap().path(),
        "/data/sets/nuscenes/maps/53992ee3023e5494b90c316c183be829.png"
    );
    assert_eq!(
        dataset.sample_data(Token(D1)).unwrap().path(),
        "/data/sets/nuscenes/samples/CAM_FRONT/111.jpg"
    );
}

#[test]
fn join_path_follows_the_rules_of_joining() {
    assert_eq!(join_path("/data", "a.jpg"), "/data/a.jpg");
    assert_eq!(join_path("data/sets", "samples/a.jpg"), "data/sets/samples/a.jpg");
    assert_eq!(join_path("", "a.jpg"), "a.jpg");
    assert_eq!(join_path("/data/", "a.jpg"), "/data/a.jpg");
    assert_eq!(join_path("/", "a.jpg"), "/a.jpg");
    assert_eq!(join_path("/data", "/other/a.jpg"), "/other/a.jpg");
    assert_eq!(join_path("", "/a.jpg"), "/a.jpg");
    assert_eq!(join_path("/data", ""), "/data/");
    assert_eq!(join_path("/data/", ""), "/data/");
    assert_eq!(join_path("", ""), "");
    for (dir, file) in [("/data", "a.jpg"), ("", "a.jpg"), ("/data/", "a.jpg"), ("/data", "/a.jpg"), ("d", "")] {
        let joined = std::path::Path::new(dir).join(file);
        assert_eq!(join_path(dir, file), joined.to_str().unwrap());
    }
}

#[test]
fn paths_of_a_dataset_in_the_empty_directory_are_relative() {
    let dataset = DatasetLoader { check: true }.load("v1.0-mini", "", small_lists()).unwrap();
    let dataset = DatasetRef::new(dataset);
    assert_eq!(dataset.sample_data(Token(D1)).unwrap().path(), "samples/CAM_FRONT/111.jpg");
    assert_eq!(dataset.map(Token(MAP)).unwrap().path(), "maps/53992ee3023e5494b90c316c183be829.png");
    let dataset = DatasetLoader { check: true }.load("v1.0-mini", "/data/", small_lists()).unwrap();
    let dataset = DatasetRef::new(dataset);
    assert_eq!(dataset.sample_data(Token(D1)).unwrap().path(), "/data/samples/CAM_FRONT/111.jpg");
    let mut lists = small_lists();
    lists.sample_data[0].filename = "/elsewhere/a.jpg".to_string();
    let dataset = DatasetRef::new(load_checked(lists).unwrap());
    assert_eq!(dataset.sample_data(Token(D1)).unwrap().path(), "/elsewhere/a.jpg");
}

#[test]
fn handles_keep_the_dataset_alive() {
    let sample = {
        let dataset = DatasetRef::new(load_checked(small_lists()).unwrap());
        dataset.sample(Token(S1)).unwrap()
    };
    assert_eq!(sample.get().timestamp, Timestamp(1000));
    assert_eq!(sample.dataset().log(Token(LOG)).unwrap().get().location, "singapore-onenorth");
}

fn shareable<T: Send + Sync + Clone>(_: &T) {}

#[test]
fn handles_can_be_shared_between_threads() {
    let dataset = DatasetRef::new(load_checked(small_lists()).unwrap());
    shareable(&dataset);
    shareable(&dataset.sample(Token(S1)).unwrap());
    shareable(&dataset.scene(Token(SCENE)).unwrap());
    shareable(&dataset.sample_data(Token(D1)).unwrap());
    shareable(&dataset.visibility(VisibilityToken(1)).unwrap());
}
