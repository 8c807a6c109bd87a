//! The indexer: from the tables to the dataset.

use crate::chain::lemma_walk_is_chain;
use crate::dataset::{instance_indexed, sample_indexed, sample_joined, scene_indexed, Dataset};
use crate::error::Error;
use crate::group::{group_by_sample, has_member, is_group};
use crate::links::Linked;
use crate::order::{scene_timed, sorted_scene_tokens, sorted_tokens};
use crate::parsed::{InstanceInternal, SampleInternal, SceneInternal};
use crate::serializable::types::{Instance, Sample, SampleAnnotation, Scene};
use crate::table::table_keys;
use crate::tables::{Tables, TablesView};
use crate::token::Token;
use std::collections::HashMap;
use vstd::prelude::*;

verus! {

broadcast use vstd::std_specs::hash::group_hash_axioms;

/// Takes the record of a token out of a table.
fn take_record<V>(map: &mut HashMap<u128, V>, key: u128) -> (r: Option<V>)
    ensures
        final(map)@ == old(map)@.remove(key),
        old(map)@.contains_key(key) ==> r == Some(old(map)@[key]),
        !old(map)@.contains_key(key) ==> r is None,
{
    map.remove(&key)
}

/// The chain of some instance is refused with the error `e`.
pub open spec fn instances_failure(
    raw: Map<u128, Instance>,
    annotations: Map<u128, SampleAnnotation>,
    e: Error,
) -> bool {
    exists|k: u128| #[trigger]
        raw.contains_key(k) && InstanceInternal::chain_spec(raw[k], annotations) == Err::<Seq<Token>, Error>(e)
}

/// The chain of some scene is refused with the error `e`.
pub open spec fn scenes_failure(raw: Map<u128, Scene>, samples: Map<u128, Sample>, e: Error) -> bool {
    exists|k: u128| #[trigger]
        raw.contains_key(k) && SceneInternal::chain_spec(raw[k], samples) == Err::<Seq<Token>, Error>(e)
}

/// The indexed instances are the raw ones, each with its chain.
pub open spec fn instances_indexed(
    indexed: Map<u128, InstanceInternal>,
    raw: Map<u128, Instance>,
    annotations: Map<u128, SampleAnnotation>,
) -> bool {
    &&& forall|k: u128| #[trigger] indexed.contains_key(k) <==> raw.contains_key(k)
    &&& forall|k: u128| #[trigger] indexed.contains_key(k) ==> instance_indexed(indexed[k], raw[k], annotations)
}

/// The indexed scenes are the raw ones, each with its chain.
pub open spec fn scenes_indexed(
    indexed: Map<u128, SceneInternal>,
    raw: Map<u128, Scene>,
    samples: Map<u128, Sample>,
) -> bool {
    &&& forall|k: u128| #[trigger] indexed.contains_key(k) <==> raw.contains_key(k)
    &&& forall|k: u128| #[trigger] indexed.contains_key(k) ==> scene_indexed(indexed[k], raw[k], samples)
}

/// The tokens that the groups hold for a sample: none, if they have no entry for it.
pub open spec fn group_or_empty(groups: Map<u128, Vec<Token>>, sample: u128) -> Seq<Token> {
    if groups.contains_key(sample) {
        groups[sample]@
    } else {
        Seq::empty()
    }
}

/// The indexed samples are the raw ones, each with its two groups; a
/// sample for which the groups have no entry has an empty list.
pub open spec fn samples_joined(
    indexed: Map<u128, SampleInternal>,
    raw: Map<u128, Sample>,
    annotation_groups: Map<u128, Vec<Token>>,
    data_groups: Map<u128, Vec<Token>>,
) -> bool {
    &&& forall|k: u128| #[trigger] indexed.contains_key(k) <==> raw.contains_key(k)
    &&& forall|k: u128| #[trigger]
        indexed.contains_key(k) ==> sample_joined(
            indexed[k],
            raw[k],
            group_or_empty(annotation_groups, k),
            group_or_empty(data_groups, k),
        )
}

/// A record that owns a chain and is indexed by following it.
trait Owner: Sized {
    /// The records of the chain.
    type Record: Linked;

    /// The record with its chain.
    type Indexed;

    /// What the chain of the owner is, or why it is refused.
    spec fn chain(self, records: Map<u128, Self::Record>) -> core::result::Result<Seq<Token>, Error>;

    /// The indexed record is the owner with its chain.
    spec fn fits(self, indexed: Self::Indexed, records: Map<u128, Self::Record>) -> bool;

    fn index(self, records: &HashMap<u128, Self::Record>) -> (r: core::result::Result<Self::Indexed, Error>)
        ensures
            match self.chain(records@) {
                Ok(_) => r matches Ok(indexed) && self.fits(indexed, records@),
                Err(e) => r matches Err(err) && err == e,
            },
    ;
}

impl Owner for Instance {
    type Record = SampleAnnotation;

    type Indexed = InstanceInternal;

    spec fn chain(self, records: Map<u128, SampleAnnotation>) -> core::result::Result<Seq<Token>, Error> {
        InstanceInternal::chain_spec(self, records)
    }

    spec fn fits(self, indexed: InstanceInternal, records: Map<u128, SampleAnnotation>) -> bool {
        instance_indexed(indexed, self, records)
    }

    fn index(self, records: &HashMap<u128, SampleAnnotation>) -> core::result::Result<InstanceInternal, Error> {
        InstanceInternal::from(self, records)
    }
}

impl Owner for Scene {
    type Record = Sample;

    type Indexed = SceneInternal;

    spec fn chain(self, records: Map<u128, Sample>) -> core::result::Result<Seq<Token>, Error> {
        SceneInternal::chain_spec(self, records)
    }

    spec fn fits(self, indexed: SceneInternal, records: Map<u128, Sample>) -> bool {
        scene_indexed(indexed, self, records)
    }

    fn index(self, records: &HashMap<u128, Sample>) -> core::result::Result<SceneInternal, Error> {
        SceneInternal::from(self, records)
    }
}

/// Gives each owner its chain. The first chain that is refused stops the work.
fn index_owners<O: Owner>(owners: HashMap<u128, O>, records: &HashMap<u128, O::Record>) -> (r:
    core::result::Result<HashMap<u128, O::Indexed>, Error>)
    ensures
        r matches Ok(indexed) ==> {
            &&& forall|k: u128| #[trigger] indexed@.contains_key(k) <==> owners@.contains_key(k)
            &&& forall|k: u128| #[trigger] indexed@.contains_key(k) ==> owners@[k].fits(indexed@[k], records@)
            &&& forall|k: u128| #[trigger] owners@.contains_key(k) ==> owners@[k].chain(records@) is Ok
        },
        r matches Err(e) ==> exists|k: u128| #[trigger]
            owners@.contains_key(k) && owners@[k].chain(records@) == Err::<Seq<Token>, Error>(e),
{
    let keys = table_keys(&owners);
    let ghost raw = owners@;
    let mut source = owners;
    let mut indexed: HashMap<u128, O::Indexed> = HashMap::new();
    let mut i: usize = 0;
    while i < keys.len()
        invariant
            i <= keys@.len(),
            keys@.no_duplicates(),
            forall|k: u128| keys@.contains(k) <==> #[trigger] raw.contains_key(k),
            forall|k: u128| #[trigger]
                source@.contains_key(k) <==> raw.contains_key(k) && !keys@.take(i as int).contains(k),
            forall|k: u128| #[trigger] source@.contains_key(k) ==> source@[k] == raw[k],
            raw == owners@,
            forall|k: u128| #[trigger] indexed@.contains_key(k) <==> keys@.take(i as int).contains(k),
            forall|k: u128| #[trigger]
                indexed@.contains_key(k) ==> raw[k].fits(indexed@[k], records@) && raw[k].chain(records@) is Ok,
        decreases keys@.len() - i,
    {
        let key = keys[i];
        proof {
            assert(keys@.contains(key));
            assert(keys@.take(i + 1) == keys@.take(i as int).push(key));
            assert(!keys@.take(i as int).contains(key));
            assert forall|k: u128| keys@.take(i + 1).contains(k) <==> keys@.take(i as int).contains(k) || k
                == key by {
                vstd::seq_lib::lemma_seq_contains_after_push(keys@.take(i as int), key, k);
            }
        }
        match take_record(&mut source, key) {
            Some(owner) => {
                match owner.index(records) {
                    Ok(inner) => {
                        indexed.insert(key, inner);
                    },
                    Err(e) => {
                        assert(raw.contains_key(key));
                        return Err(e);
                    },
                }
            },
            None => {
                proof {
                    assert(false);
                }
            },
        }
        i += 1;
    }
    assert(keys@.take(keys@.len() as int) == keys@);
    assert forall|k: u128| #[trigger] raw.contains_key(k) implies raw[k].chain(records@) is Ok by {
        assert(keys@.contains(k));
        assert(indexed@.contains_key(k));
    }
    Ok(indexed)
}

/// Gives each instance its chain of annotations. The first chain that is
/// refused stops the work.
pub fn index_instances(
    instance_map: HashMap<u128, Instance>,
    sample_annotation_map: &HashMap<u128, SampleAnnotation>,
) -> (r: core::result::Result<HashMap<u128, InstanceInternal>, Error>)
    ensures
        r is Ok <==> forall|k: u128| #[trigger]
            instance_map@.contains_key(k) ==> InstanceInternal::chain_spec(
                instance_map@[k],
                sample_annotation_map@,
            ) is Ok,
        r matches Ok(indexed) ==> instances_indexed(indexed@, instance_map@, sample_annotation_map@),
        r matches Err(e) ==> instances_failure(instance_map@, sample_annotation_map@, e),
{
    let r = index_owners(instance_map, sample_annotation_map);
    proof {
        if let Err(e) = r {
            let k = choose|k: u128| #[trigger]
                instance_map@.contains_key(k) && instance_map@[k].chain(sample_annotation_map@) == Err::<
                    Seq<Token>,
                    Error,
                >(e);
            assert(instance_map@.contains_key(k));
        }
    }
    r
}

/// Gives each scene its chain of samples. The first chain that is refused
/// stops the work.
pub fn index_scenes(scene_map: HashMap<u128, Scene>, sample_map: &HashMap<u128, Sample>) -> (r:
    core::result::Result<HashMap<u128, SceneInternal>, Error>)
    ensures
        r is Ok <==> forall|k: u128| #[trigger]
            scene_map@.contains_key(k) ==> SceneInternal::chain_spec(scene_map@[k], sample_map@) is Ok,
        r matches Ok(indexed) ==> scenes_indexed(indexed@, scene_map@, sample_map@),
        r matches Err(e) ==> scenes_failure(scene_map@, sample_map@, e),
{
    let r = index_owners(scene_map, sample_map);
    proof {
        if let Err(e) = r {
            let k = choose|k: u128| #[trigger]
                scene_map@.contains_key(k) && scene_map@[k].chain(sample_map@) == Err::<Seq<Token>, Error>(e);
            assert(scene_map@.contains_key(k));
        }
    }
    r
}

/// Gives each sample the group of its annotations and the group of its
/// data. A sample for which a group has no entry gets an empty list.
pub fn index_samples(
    sample_map: HashMap<u128, Sample>,
    annotation_groups: HashMap<u128, Vec<Token>>,
    data_groups: HashMap<u128, Vec<Token>>,
) -> (indexed: HashMap<u128, SampleInternal>)
    ensures
        samples_joined(indexed@, sample_map@, annotation_groups@, data_groups@),
{
    let keys = table_keys(&sample_map);
    let ghost raw = sample_map@;
    let ghost raw_annotations = annotation_groups@;
    let ghost raw_data = data_groups@;
    let mut source = sample_map;
    let mut annotations_left = annotation_groups;
    let mut data_left = data_groups;
    let mut indexed: HashMap<u128, SampleInternal> = HashMap::new();
    let mut i: usize = 0;
    while i < keys.len()
        invariant
            i <= keys@.len(),
            keys@.no_duplicates(),
            forall|k: u128| keys@.contains(k) <==> #[trigger] raw.contains_key(k),
            forall|k: u128| #[trigger]
                source@.contains_key(k) <==> raw.contains_key(k) && !keys@.take(i as int).contains(k),
            forall|k: u128| #[trigger] source@.contains_key(k) ==> source@[k] == raw[k],
            forall|k: u128|
                !keys@.take(i as int).contains(k) ==> (#[trigger] annotations_left@.contains_key(k)
                    <==> raw_annotations.contains_key(k)),
            forall|k: u128| #[trigger]
                annotations_left@.contains_key(k) ==> raw_annotations.contains_key(k) && annotations_left@[k]
                    == raw_annotations[k],
            forall|k: u128|
                !keys@.take(i as int).contains(k) ==> (#[trigger] data_left@.contains_key(k)
                    <==> raw_data.contains_key(k)),
            forall|k: u128| #[trigger]
                data_left@.contains_key(k) ==> raw_data.contains_key(k) && data_left@[k] == raw_data[k],
            raw == sample_map@,
            raw_annotations == annotation_groups@,
            raw_data == data_groups@,
            forall|k: u128| #[trigger] indexed@.contains_key(k) <==> keys@.take(i as int).contains(k),
            forall|k: u128| #[trigger]
                indexed@.contains_key(k) ==> sample_joined(
                    indexed@[k],
                    raw[k],
                    group_or_empty(raw_annotations, k),
                    group_or_empty(raw_data, k),
                ),
        decreases keys@.len() - i,
    {
        let key = keys[i];
        proof {
            assert(keys@.contains(key));
            assert(keys@.take(i + 1) == keys@.take(i as int).push(key));
            assert(!keys@.take(i as int).contains(key));
            assert forall|k: u128| keys@.take(i + 1).contains(k) <==> keys@.take(i as int).contains(k) || k
                == key by {
                vstd::seq_lib::lemma_seq_contains_after_push(keys@.take(i as int), key, k);
            }
        }
        match take_record(&mut source, key) {
            Some(sample) => {
                let sample_data_tokens = match take_record(&mut data_left, key) {
                    Some(tokens) => tokens,
                    None => Vec::new(),
                };
                let annotation_tokens = match take_record(&mut annotations_left, key) {
                    Some(tokens) => tokens,
                    None => Vec::new(),
                };
                let internal = SampleInternal::from(sample, annotation_tokens, sample_data_tokens);
                indexed.insert(key, internal);
            },
            None => {
                proof {
                    assert(false);
                }
            },
        }
        i += 1;
    }
    assert(keys@.take(keys@.len() as int) == keys@);
    indexed
}

/// The tables can be indexed: the chain of every instance and of every
/// scene is accepted.
pub open spec fn indexable(tables: TablesView) -> bool {
    &&& forall|k: u128| #[trigger]
        tables.instance_map.contains_key(k) ==> InstanceInternal::chain_spec(
            tables.instance_map[k],
            tables.sample_annotation_map,
        ) is Ok
    &&& forall|k: u128| #[trigger]
        tables.scene_map.contains_key(k) ==> SceneInternal::chain_spec(
            tables.scene_map[k],
            tables.sample_map,
        ) is Ok
}

/// The error is one that indexing the tables meets: the refusal of the
/// chain of an instance or of a scene.
pub open spec fn index_failure(tables: TablesView, e: Error) -> bool {
    ||| instances_failure(tables.instance_map, tables.sample_annotation_map, e)
    ||| scenes_failure(tables.scene_map, tables.sample_map, e)
}

/// Tables that meet an error of indexing cannot be indexed.
pub proof fn lemma_failure_not_indexable(tables: TablesView, e: Error)
    requires
        index_failure(tables, e),
    ensures
        !indexable(tables),
{
}

/// Derives the dataset from the tables: the chains of the instances and of
/// the scenes, the groups of the samples, and the chronological orders.
pub fn index_records(version: String, dataset_dir: String, tables: Tables) -> (r: core::result::Result<
    Dataset,
    Error,
>)
    ensures
        r is Ok <==> indexable(tables@),
        r matches Ok(dataset) ==> dataset.indexes(tables@) && dataset.version == version && dataset.dataset_dir
            == dataset_dir,
        r matches Err(e) ==> index_failure(tables@, e),
{
    let Tables {
        attribute_map,
        calibrated_sensor_map,
        category_map,
        ego_pose_map,
        instance_map,
        log_map,
        map_map,
        scene_map,
        sample_map,
        sample_annotation_map,
        sample_data_map,
        sensor_map,
        visibility_map,
    } = tables;
    let annotation_groups = group_by_sample(&sample_annotation_map);
    let data_groups = group_by_sample(&sample_data_map);
    let instance_internal_map = match index_instances(instance_map, &sample_annotation_map) {
        Ok(map) => map,
        Err(e) => {
            proof {
                lemma_failure_not_indexable(tables@, e);
            }
            return Err(e);
        },
    };
    let scene_internal_map = match index_scenes(scene_map, &sample_map) {
        Ok(map) => map,
        Err(e) => {
            proof {
                lemma_failure_not_indexable(tables@, e);
            }
            return Err(e);
        },
    };
    let ghost annotation_groups_view = annotation_groups@;
    let ghost data_groups_view = data_groups@;
    let sample_internal_map = index_samples(sample_map, annotation_groups, data_groups);
    proof {
        assert forall|k: u128| #[trigger] sample_internal_map@.contains_key(k) implies sample_indexed(
            k,
            sample_internal_map@[k],
            tables.sample_map@[k],
            tables.sample_annotation_map@,
            tables.sample_data_map@,
        ) by {
            let annotations = sample_internal_map@[k].annotation_tokens@;
            assert(annotations == group_or_empty(annotation_groups_view, k));
            assert(is_group(annotations, tables.sample_annotation_map@, k)) by {
                if !annotation_groups_view.contains_key(k) {
                    assert(!has_member(tables.sample_annotation_map@, k));
                    assert forall|t: Token| #[trigger]
                        annotations.contains(t) <==> tables.sample_annotation_map@.contains_key(t.0)
                            && tables.sample_annotation_map@[t.0].sample_token.0 == k by {}
                }
            }
            let data = sample_internal_map@[k].sample_data_tokens@;
            assert(data == group_or_empty(data_groups_view, k));
            assert(is_group(data, tables.sample_data_map@, k)) by {
                if !data_groups_view.contains_key(k) {
                    assert(!has_member(tables.sample_data_map@, k));
                    assert forall|t: Token| #[trigger]
                        data.contains(t) <==> tables.sample_data_map@.contains_key(t.0)
                            && tables.sample_data_map@[t.0].sample_token.0 == k by {}
                }
            }
        }
        assert forall|k: u128| #[trigger] scene_internal_map@.contains_key(k) implies scene_timed(
            scene_internal_map@[k],
            sample_internal_map@,
        ) by {
            let raw = tables.scene_map@[k];
            lemma_walk_is_chain(tables.sample_map@, raw.first_sample_token, tables.sample_map@.len());
            let tokens = scene_internal_map@[k].sample_tokens@;
            assert forall|i: int| 0 <= i < tokens.len() implies sample_internal_map@.contains_key(
                #[trigger] tokens[i].0,
            ) by {
                assert(tables.sample_map@.contains_key(tokens[i].0));
            }
        }
    }
    proof {
        assert forall|k: u128| #[trigger] tables.instance_map@.contains_key(k) implies InstanceInternal::chain_spec(
            tables.instance_map@[k],
            tables.sample_annotation_map@,
        ) is Ok by {
            assert(instance_internal_map@.contains_key(k));
        }
        assert forall|k: u128| #[trigger] tables.scene_map@.contains_key(k) implies SceneInternal::chain_spec(
            tables.scene_map@[k],
            tables.sample_map@,
        ) is Ok by {
            assert(scene_internal_map@.contains_key(k));
        }
    }
    let sorted_ego_pose_tokens = sorted_tokens(&ego_pose_map);
    let sorted_sample_tokens = sorted_tokens(&sample_internal_map);
    let sorted_sample_data_tokens = sorted_tokens(&sample_data_map);
    let sorted_scene_tokens = match sorted_scene_tokens(&scene_internal_map, &sample_internal_map) {
        Ok(order) => order,
        Err(e) => {
            proof {
                assert(false);
            }
            return Err(e);
        },
    };
    Ok(
        Dataset {
            version,
            dataset_dir,
            attribute_map,
            calibrated_sensor_map,
            category_map,
            ego_pose_map,
            instance_map: instance_internal_map,
            log_map,
            map_map,
            scene_map: scene_internal_map,
            sample_map: sample_internal_map,
            sample_annotation_map,
            sample_data_map,
            sensor_map,
            visibility_map,
            sorted_ego_pose_tokens,
            sorted_sample_tokens,
            sorted_sample_data_tokens,
            sorted_scene_tokens,
        },
    )
}

} // verus!
