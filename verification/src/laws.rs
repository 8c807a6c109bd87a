//! What holds of every dataset that the loader makes.

use crate::chain::{
    is_chain, is_whole_chain, lemma_chain_is_walk, lemma_chain_transfer, lemma_walk_is_chain, walk, WalkEnd,
};
use crate::ends::{announced, is_end};
use crate::dataset::Dataset;
use crate::error::Reference;
use crate::links::{has_next_edge, has_prev_edge, links_symmetric, Linked};
use crate::order::{earliest, is_time_order, may_precede};
use crate::refs::{SampleDataRef, SampleRef, SceneRef};
use crate::serializable::types::{Channel, FileFormat, Modality, VisibilityLevel};
use crate::tables::TablesView;
use crate::token::{
    be_bytes, be_value, decimal_digit, decimal_digits, decimal_text, decimal_value, hex_bytes, hex_digit_value,
    hex_text, is_hex_text, is_token_text, is_visibility_token_text, lemma_pow256_monotonic,
    lemma_pow256_sixteen, lower_hex_digit, pow256, Token,
};
use vstd::prelude::*;

verus! {

/// The chain that the indexer gave an instance has the length that the
/// instance announces, begins with the first annotation that it announces and
/// ends with the last. The first names no annotation before it and the last
/// none after it: they are the true ends of the chain.
pub proof fn law_instance_chain_as_announced(dataset: Dataset, tables: TablesView, k: u128)
    requires
        dataset.indexes(tables),
        tables.instance_map.contains_key(k),
    ensures
        dataset.instance_map@.contains_key(k),
        dataset.instance_map@[k].annotation_tokens@.len() == tables.instance_map[k].nbr_annotations,
        dataset.instance_map@[k].annotation_tokens@.first() == tables.instance_map[k].first_annotation_token,
        dataset.instance_map@[k].annotation_tokens@.last() == tables.instance_map[k].last_annotation_token,
        tables.sample_annotation_map[tables.instance_map[k].first_annotation_token.0].prev is None,
        tables.sample_annotation_map[tables.instance_map[k].last_annotation_token.0].next is None,
{
    let raw = tables.instance_map[k];
    assert(dataset.instance_map@.contains_key(k));
    lemma_walk_is_chain(tables.sample_annotation_map, raw.first_annotation_token, tables.sample_annotation_map.len());
}

/// The chain that the indexer gave a scene has the length that the scene
/// announces, begins with the first sample that it announces and ends with the
/// last. The first names no sample before it and the last none after it:
/// they are the true ends of the chain.
pub proof fn law_scene_chain_as_announced(dataset: Dataset, tables: TablesView, k: u128)
    requires
        dataset.indexes(tables),
        tables.scene_map.contains_key(k),
    ensures
        dataset.scene_map@.contains_key(k),
        dataset.scene_map@[k].sample_tokens@.len() == tables.scene_map[k].nbr_samples,
        dataset.scene_map@[k].sample_tokens@.first() == tables.scene_map[k].first_sample_token,
        dataset.scene_map@[k].sample_tokens@.last() == tables.scene_map[k].last_sample_token,
        tables.sample_map[tables.scene_map[k].first_sample_token.0].prev is None,
        tables.sample_map[tables.scene_map[k].last_sample_token.0].next is None,
{
    let raw = tables.scene_map[k];
    assert(dataset.scene_map@.contains_key(k));
    lemma_walk_is_chain(tables.sample_map, raw.first_sample_token, tables.sample_map.len());
}

/// Following the `next` links of the annotations from the first annotation
/// of an instance, over any number of records that is not less than the
/// announced one, visits exactly the chain that the indexer gave the instance.
pub proof fn law_instance_chain_retraced(dataset: Dataset, tables: TablesView, k: u128, limit: nat)
    requires
        dataset.indexes(tables),
        tables.instance_map.contains_key(k),
        limit >= tables.instance_map[k].nbr_annotations,
    ensures
        walk(tables.sample_annotation_map, Some(tables.instance_map[k].first_annotation_token), limit) == (
            dataset.instance_map@[k].annotation_tokens@,
            WalkEnd::Ended,
        ),
{
    let raw = tables.instance_map[k];
    assert(dataset.instance_map@.contains_key(k));
    lemma_walk_is_chain(tables.sample_annotation_map, raw.first_annotation_token, tables.sample_annotation_map.len());
    lemma_chain_is_walk(tables.sample_annotation_map, dataset.instance_map@[k].annotation_tokens@, limit);
}

/// Following the `next` links of the samples from the first sample of a
/// scene, over any number of records that is not less than the announced one,
/// visits exactly the chain that the indexer gave the scene.
pub proof fn law_scene_chain_retraced(dataset: Dataset, tables: TablesView, k: u128, limit: nat)
    requires
        dataset.indexes(tables),
        tables.scene_map.contains_key(k),
        limit >= tables.scene_map[k].nbr_samples,
    ensures
        walk(tables.sample_map, Some(tables.scene_map[k].first_sample_token), limit) == (
            dataset.scene_map@[k].sample_tokens@,
            WalkEnd::Ended,
        ),
{
    let raw = tables.scene_map[k];
    assert(dataset.scene_map@.contains_key(k));
    lemma_walk_is_chain(tables.sample_map, raw.first_sample_token, tables.sample_map.len());
    lemma_chain_is_walk(tables.sample_map, dataset.scene_map@[k].sample_tokens@, limit);
}

/// In tables that pass the integrity check, every sample that names no
/// `prev` is the first sample that exactly one scene announces, and the first
/// and the last sample that a scene announces name no `prev` and no `next`. The
/// same holds of the annotations and the instances.
pub proof fn law_chain_ends_owned(tables: TablesView)
    requires
        tables.sound(),
    ensures
        forall|k: u128| #[trigger]
            tables.scene_map.contains_key(k) ==> tables.sample_map[tables.scene_map[k].first_sample_token.0].prev is None
                && tables.sample_map[tables.scene_map[k].last_sample_token.0].next is None,
        forall|h: u128|
            tables.sample_map.contains_key(h) && (#[trigger] tables.sample_map[h]).prev is None ==> exists|k: u128| #[trigger]
                tables.scene_map.contains_key(k) && tables.scene_map[k].first_sample_token.0 == h,
        forall|k1: u128, k2: u128|
            #![trigger tables.scene_map.contains_key(k1), tables.scene_map.contains_key(k2)]
            tables.scene_map.contains_key(k1) && tables.scene_map.contains_key(k2)
                && tables.scene_map[k1].first_sample_token == tables.scene_map[k2].first_sample_token ==> k1 == k2,
        forall|k: u128| #[trigger]
            tables.instance_map.contains_key(k) ==> tables.sample_annotation_map[tables.instance_map[k].first_annotation_token.0].prev is None
                && tables.sample_annotation_map[tables.instance_map[k].last_annotation_token.0].next is None,
        forall|h: u128|
            tables.sample_annotation_map.contains_key(h) && (#[trigger] tables.sample_annotation_map[h]).prev is None ==> exists|k: u128| #[trigger]
                tables.instance_map.contains_key(k) && tables.instance_map[k].first_annotation_token.0 == h,
        forall|k1: u128, k2: u128|
            #![trigger tables.instance_map.contains_key(k1), tables.instance_map.contains_key(k2)]
            tables.instance_map.contains_key(k1) && tables.instance_map.contains_key(k2)
                && tables.instance_map[k1].first_annotation_token == tables.instance_map[k2].first_annotation_token ==> k1 == k2,
{
    assert forall|h: u128|
        tables.sample_map.contains_key(h) && (#[trigger] tables.sample_map[h]).prev is None implies exists|k: u128| #[trigger]
            tables.scene_map.contains_key(k) && tables.scene_map[k].first_sample_token.0 == h by {
        assert(is_end(tables.sample_map, h, true));
        let k = choose|k: u128| #[trigger] tables.scene_map.contains_key(k) && announced(tables.scene_map[k], true) == h;
        assert(tables.scene_map.contains_key(k));
    }
    assert forall|h: u128|
        tables.sample_annotation_map.contains_key(h) && (#[trigger] tables.sample_annotation_map[h]).prev is None implies exists|k: u128| #[trigger]
            tables.instance_map.contains_key(k) && tables.instance_map[k].first_annotation_token.0 == h by {
        assert(is_end(tables.sample_annotation_map, h, true));
        let k = choose|k: u128| #[trigger]
            tables.instance_map.contains_key(k) && announced(tables.instance_map[k], true) == h;
        assert(tables.instance_map.contains_key(k));
    }
    assert forall|k: u128| #[trigger] tables.scene_map.contains_key(k) implies tables.sample_map[tables.scene_map[k].first_sample_token.0].prev is None
        && tables.sample_map[tables.scene_map[k].last_sample_token.0].next is None by {
        assert(is_end(tables.sample_map, announced(tables.scene_map[k], true), true));
        assert(is_end(tables.sample_map, announced(tables.scene_map[k], false), false));
    }
    assert forall|k: u128| #[trigger] tables.instance_map.contains_key(k) implies tables.sample_annotation_map[tables.instance_map[k].first_annotation_token.0].prev is None
        && tables.sample_annotation_map[tables.instance_map[k].last_annotation_token.0].next is None by {
        assert(is_end(tables.sample_annotation_map, announced(tables.instance_map[k], true), true));
        assert(is_end(tables.sample_annotation_map, announced(tables.instance_map[k], false), false));
    }
}

/// In a table whose links agree, the `prev` links lead back along a chain:
/// each record of a chain but the first names the record before it in the
/// chain as its `prev`.
pub proof fn law_chain_links_back<T: Linked>(table: Map<u128, T>, tokens: Seq<Token>, i: int)
    requires
        links_symmetric(table),
        is_chain(table, tokens),
        0 < i < tokens.len(),
    ensures
        table[tokens[i].0].prev_spec() == Some(tokens[i - 1]),
{
    assert(table.contains_key(tokens[i - 1].0));
    assert(table[tokens[i - 1].0].next_spec() == Some(tokens[i]));
    assert(has_next_edge(table, tokens[i - 1].0, tokens[i].0));
    assert(has_prev_edge(table, tokens[i - 1].0, tokens[i].0));
}

/// What the indexer derives from the tables fits the records of the dataset.
pub proof fn law_indexed(dataset: Dataset, tables: TablesView)
    requires
        dataset.indexes(tables),
    ensures
        dataset.indexed(),
{
    assert forall|k: u128| #[trigger] dataset.instance_map@.contains_key(k) implies is_whole_chain(
        dataset.sample_annotation_map@,
        dataset.instance_map@[k].annotation_tokens@,
    ) by {
        let raw = tables.instance_map[k];
        lemma_walk_is_chain(tables.sample_annotation_map, raw.first_annotation_token, tables.sample_annotation_map.len());
    }
    assert forall|k: u128| #[trigger] dataset.scene_map@.contains_key(k) implies is_whole_chain(
        dataset.sample_map@,
        dataset.scene_map@[k].sample_tokens@,
    ) by {
        let raw = tables.scene_map[k];
        lemma_walk_is_chain(tables.sample_map, raw.first_sample_token, tables.sample_map.len());
        assert forall|s: u128| #[trigger] tables.sample_map.contains_key(s) implies dataset.sample_map@.contains_key(
            s,
        ) && dataset.sample_map@[s].token == tables.sample_map[s].token && dataset.sample_map@[s].next
            == tables.sample_map[s].next by {
            assert(dataset.sample_map@.contains_key(s));
        }
        lemma_chain_transfer(tables.sample_map, dataset.sample_map@, dataset.scene_map@[k].sample_tokens@);
        assert(dataset.sample_map@.contains_key(raw.first_sample_token.0));
    }
}

/// Every token that a record of a checked and indexed dataset holds names a
/// record: the dataset is closed, so that the lookup of such a token finds a
/// record.
pub proof fn law_referential_closure(dataset: Dataset, tables: TablesView)
    requires
        dataset.indexes(tables),
        tables.sound(),
    ensures
        dataset.closed(),
{
    law_indexed(dataset, tables);
    assert forall|k: u128| #[trigger] dataset.calibrated_sensor_map@.contains_key(k) implies dataset.sensor_map@.contains_key(
        dataset.calibrated_sensor_map@[k].sensor_token.0,
    ) by {
        assert(tables.holds(Reference::CalibratedSensorSensor, k, tables.calibrated_sensor_map[k].sensor_token.0));
    }
    assert forall|k: u128| #[trigger] dataset.instance_map@.contains_key(k) implies dataset.category_map@.contains_key(
        dataset.instance_map@[k].category_token.0,
    ) && dataset.all_annotations(dataset.instance_map@[k].annotation_tokens@) by {
        assert(tables.holds(Reference::InstanceCategory, k, tables.instance_map[k].category_token.0));
    }
    assert forall|k: u128| #[trigger] dataset.map_map@.contains_key(k) implies dataset.all_logs(
        dataset.map_map@[k].log_tokens@,
    ) by {
        let tokens = dataset.map_map@[k].log_tokens@;
        assert forall|i: int| 0 <= i < tokens.len() implies dataset.log_map@.contains_key(#[trigger] tokens[i].0) by {
            assert(tokens.contains(Token(tokens[i].0)));
            assert(tables.holds(Reference::MapLog, k, tokens[i].0));
        }
    }
    assert forall|k: u128| #[trigger] dataset.scene_map@.contains_key(k) implies dataset.log_map@.contains_key(
        dataset.scene_map@[k].log_token.0,
    ) && dataset.all_samples(dataset.scene_map@[k].sample_tokens@) by {
        assert(tables.holds(Reference::SceneLog, k, tables.scene_map[k].log_token.0));
    }
    assert forall|k: u128| #[trigger] dataset.sample_map@.contains_key(k) implies {
        let sample = dataset.sample_map@[k];
        &&& dataset.scene_map@.contains_key(sample.scene_token.0)
        &&& dataset.opt_sample(sample.prev)
        &&& dataset.opt_sample(sample.next)
        &&& dataset.all_annotations(sample.annotation_tokens@)
        &&& dataset.all_sample_data(sample.sample_data_tokens@)
    } by {
        let sample = dataset.sample_map@[k];
        let raw = tables.sample_map[k];
        assert(tables.holds(Reference::SampleScene, k, raw.scene_token.0));
        assert(tables.has(Reference::SampleScene.target(), raw.scene_token.0));
        if let Some(t) = raw.prev {
            assert(tables.holds(Reference::SamplePrev, k, t.0));
            assert(tables.has(Reference::SamplePrev.target(), t.0));
        }
        if let Some(t) = raw.next {
            assert(tables.holds(Reference::SampleNext, k, t.0));
            assert(tables.has(Reference::SampleNext.target(), t.0));
        }
        assert forall|i: int| 0 <= i < sample.annotation_tokens@.len() implies dataset.sample_annotation_map@.contains_key(
            #[trigger] sample.annotation_tokens@[i].0,
        ) by {
            assert(sample.annotation_tokens@.contains(sample.annotation_tokens@[i]));
        }
        assert forall|i: int| 0 <= i < sample.sample_data_tokens@.len() implies dataset.sample_data_map@.contains_key(
            #[trigger] sample.sample_data_tokens@[i].0,
        ) by {
            assert(sample.sample_data_tokens@.contains(sample.sample_data_tokens@[i]));
        }
    }
    assert forall|k: u128| #[trigger] dataset.sample_annotation_map@.contains_key(k) implies {
        let annotation = dataset.sample_annotation_map@[k];
        &&& dataset.sample_map@.contains_key(annotation.sample_token.0)
        &&& dataset.instance_map@.contains_key(annotation.instance_token.0)
        &&& dataset.all_attributes(annotation.attribute_tokens@)
        &&& (annotation.visibility_token matches Some(v) ==> dataset.visibility_map@.contains_key(v.0))
        &&& dataset.opt_annotation(annotation.prev)
        &&& dataset.opt_annotation(annotation.next)
    } by {
        let annotation = dataset.sample_annotation_map@[k];
        assert(tables.holds(Reference::AnnotationSample, k, annotation.sample_token.0));
        assert(tables.has(Reference::AnnotationSample.target(), annotation.sample_token.0));
        assert(tables.holds(Reference::AnnotationInstance, k, annotation.instance_token.0));
        assert(tables.has(Reference::AnnotationInstance.target(), annotation.instance_token.0));
        let tokens = annotation.attribute_tokens@;
        assert forall|i: int| 0 <= i < tokens.len() implies dataset.attribute_map@.contains_key(
            #[trigger] tokens[i].0,
        ) by {
            assert(tokens.contains(Token(tokens[i].0)));
            assert(tables.holds(Reference::AnnotationAttribute, k, tokens[i].0));
            assert(tables.has(Reference::AnnotationAttribute.target(), tokens[i].0));
        }
        if let Some(v) = annotation.visibility_token {
            assert(tables.holds(Reference::AnnotationVisibility, k, v.0 as u128));
            assert(tables.has(Reference::AnnotationVisibility.target(), v.0 as u128));
        }
        if let Some(t) = annotation.prev {
            assert(tables.holds(Reference::AnnotationPrev, k, t.0));
            assert(tables.has(Reference::AnnotationPrev.target(), t.0));
        }
        if let Some(t) = annotation.next {
            assert(tables.holds(Reference::AnnotationNext, k, t.0));
            assert(tables.has(Reference::AnnotationNext.target(), t.0));
        }
    }
    assert forall|k: u128| #[trigger] dataset.sample_data_map@.contains_key(k) implies {
        let data = dataset.sample_data_map@[k];
        &&& dataset.sample_map@.contains_key(data.sample_token.0)
        &&& dataset.ego_pose_map@.contains_key(data.ego_pose_token.0)
        &&& dataset.calibrated_sensor_map@.contains_key(data.calibrated_sensor_token.0)
        &&& dataset.opt_sample_data(data.prev)
        &&& dataset.opt_sample_data(data.next)
    } by {
        let data = dataset.sample_data_map@[k];
        assert(tables.holds(Reference::DataSample, k, data.sample_token.0));
        assert(tables.has(Reference::DataSample.target(), data.sample_token.0));
        assert(tables.holds(Reference::DataEgoPose, k, data.ego_pose_token.0));
        assert(tables.has(Reference::DataEgoPose.target(), data.ego_pose_token.0));
        assert(tables.holds(Reference::DataCalibratedSensor, k, data.calibrated_sensor_token.0));
        assert(tables.has(Reference::DataCalibratedSensor.target(), data.calibrated_sensor_token.0));
        if let Some(t) = data.prev {
            assert(tables.holds(Reference::DataPrev, k, t.0));
            assert(tables.has(Reference::DataPrev.target(), t.0));
        }
        if let Some(t) = data.next {
            assert(tables.holds(Reference::DataNext, k, t.0));
            assert(tables.has(Reference::DataNext.target(), t.0));
        }
    }
}

/// The lists that the indexer made hold only tokens of records, whether the
/// dataset was checked or not: the chain of an instance or of a scene, the
/// groups of a sample and the chronological orders of scenes and samples can
/// always be turned into handles.
pub proof fn law_indexed_lists_resolve(dataset: Dataset)
    requires
        dataset.indexed(),
    ensures
        dataset.all_scenes(dataset.sorted_scene_tokens@),
        dataset.all_samples(dataset.sorted_sample_tokens@),
        forall|k: u128| #[trigger]
            dataset.instance_map@.contains_key(k) ==> dataset.all_annotations(
                dataset.instance_map@[k].annotation_tokens@,
            ),
        forall|k: u128| #[trigger]
            dataset.scene_map@.contains_key(k) ==> dataset.all_samples(dataset.scene_map@[k].sample_tokens@),
        forall|k: u128| #[trigger]
            dataset.sample_map@.contains_key(k) ==> dataset.all_annotations(
                dataset.sample_map@[k].annotation_tokens@,
            ) && dataset.all_sample_data(dataset.sample_map@[k].sample_data_tokens@),
{
    let scenes = dataset.sorted_scene_tokens@;
    assert forall|i: int| 0 <= i < scenes.len() implies dataset.scene_map@.contains_key(#[trigger] scenes[i].0) by {
        assert(scenes.contains(scenes[i]));
    }
    let samples = dataset.sorted_sample_tokens@;
    assert forall|i: int| 0 <= i < samples.len() implies dataset.sample_map@.contains_key(
        #[trigger] samples[i].0,
    ) by {
        assert(samples.contains(samples[i]));
    }
    assert forall|k: u128| #[trigger] dataset.sample_map@.contains_key(k) implies dataset.all_annotations(
        dataset.sample_map@[k].annotation_tokens@,
    ) && dataset.all_sample_data(dataset.sample_map@[k].sample_data_tokens@) by {
        let annotations = dataset.sample_map@[k].annotation_tokens@;
        assert forall|i: int| 0 <= i < annotations.len() implies dataset.sample_annotation_map@.contains_key(
            #[trigger] annotations[i].0,
        ) by {
            assert(annotations.contains(annotations[i]));
        }
        let data = dataset.sample_map@[k].sample_data_tokens@;
        assert forall|i: int| 0 <= i < data.len() implies dataset.sample_data_map@.contains_key(
            #[trigger] data[i].0,
        ) by {
            assert(data.contains(data[i]));
        }
    }
}

/// In a chronological order, no token stands before one of an earlier time.
pub proof fn law_time_order(order: Seq<Token>, times: Map<u128, u64>, i: int, j: int)
    requires
        is_time_order(order, times),
        0 <= i <= j < order.len(),
    ensures
        times[order[i].0] <= times[order[j].0],
{
    if i < j {
        assert(may_precede(order[i], order[j], times));
    }
}

/// The four orders of an indexed dataset are chronological: of two poses,
/// two samples or two sample data records that follow each other, the first
/// is not later than the second; of two scenes that follow each other, the
/// earliest sample of the first is not later than the earliest sample of the
/// second.
pub proof fn law_chronological(dataset: Dataset, i: int)
    requires
        dataset.indexed(),
        0 <= i,
    ensures
        i + 1 < dataset.sorted_ego_pose_tokens@.len() ==> dataset.ego_pose_map@[dataset.sorted_ego_pose_tokens@[i].0].timestamp.0
            <= dataset.ego_pose_map@[dataset.sorted_ego_pose_tokens@[i + 1].0].timestamp.0,
        i + 1 < dataset.sorted_sample_tokens@.len() ==> dataset.sample_map@[dataset.sorted_sample_tokens@[i].0].timestamp.0
            <= dataset.sample_map@[dataset.sorted_sample_tokens@[i + 1].0].timestamp.0,
        i + 1 < dataset.sorted_sample_data_tokens@.len() ==> dataset.sample_data_map@[dataset.sorted_sample_data_tokens@[i].0].timestamp.0
            <= dataset.sample_data_map@[dataset.sorted_sample_data_tokens@[i + 1].0].timestamp.0,
        i + 1 < dataset.sorted_scene_tokens@.len() ==> earliest(
            dataset.scene_map@[dataset.sorted_scene_tokens@[i].0].sample_tokens@,
            dataset.sample_map@,
        ) <= earliest(dataset.scene_map@[dataset.sorted_scene_tokens@[i + 1].0].sample_tokens@, dataset.sample_map@),
{
    if i + 1 < dataset.sorted_ego_pose_tokens@.len() {
        let order = dataset.sorted_ego_pose_tokens@;
        assert(order.contains(order[i]) && order.contains(order[i + 1]));
        law_time_order(order, crate::order::times_of(dataset.ego_pose_map@), i, i + 1);
    }
    if i + 1 < dataset.sorted_sample_tokens@.len() {
        let order = dataset.sorted_sample_tokens@;
        assert(order.contains(order[i]) && order.contains(order[i + 1]));
        law_time_order(order, crate::order::times_of(dataset.sample_map@), i, i + 1);
    }
    if i + 1 < dataset.sorted_sample_data_tokens@.len() {
        let order = dataset.sorted_sample_data_tokens@;
        assert(order.contains(order[i]) && order.contains(order[i + 1]));
        law_time_order(order, crate::order::times_of(dataset.sample_data_map@), i, i + 1);
    }
    if i + 1 < dataset.sorted_scene_tokens@.len() {
        let order = dataset.sorted_scene_tokens@;
        assert(order.contains(order[i]) && order.contains(order[i + 1]));
        law_time_order(order, crate::order::scene_times(dataset.scene_map@, dataset.sample_map@), i, i + 1);
    }
}

/// From a sample data record to its sample and back: among the handles
/// that `sample_data_iter` returns for the sample that `sample` returns for
/// a record, one has the token of the record.
pub proof fn law_sample_data_found_again(data: SampleDataRef, sample: SampleRef, listed: Seq<SampleDataRef>)
    requires
        data.arena().indexed(),
        data.arena().sample_data_map@.contains_key(data.key()),
        data.arena().sample_map@.contains_key(data.record().sample_token.0),
        sample.key() == data.record().sample_token.0,
        sample.arena() == data.arena(),
        listed.len() == sample.record().sample_data_tokens@.len(),
        forall|i: int| 0 <= i < listed.len() ==> (#[trigger] listed[i]).key() == sample.record().sample_data_tokens@[i].0,
    ensures
        exists|i: int| 0 <= i < listed.len() && (#[trigger] listed[i]).key() == data.key(),
{
    let tokens = sample.record().sample_data_tokens@;
    assert(tokens.contains(Token(data.key())));
    let i = choose|i: int| 0 <= i < tokens.len() && tokens[i] == Token(data.key());
    assert(listed[i].key() == data.key());
}

/// From a sample to its scene and back: if the sample stands in the chain
/// of the scene that it names, then among the handles that `sample_iter`
/// returns for the scene that `scene` returns for the sample, one has the
/// token of the sample. Nothing makes a sample stand in that chain: the
/// tables may give a sample the token of a scene whose chain passes it by.
pub proof fn law_sample_found_again(sample: SampleRef, scene: SceneRef, listed: Seq<SampleRef>)
    requires
        sample.arena().scene_map@.contains_key(sample.record().scene_token.0),
        sample.arena().scene_map@[sample.record().scene_token.0].sample_tokens@.contains(Token(sample.key())),
        scene.key() == sample.record().scene_token.0,
        scene.arena() == sample.arena(),
        listed.len() == scene.record().sample_tokens@.len(),
        forall|i: int| 0 <= i < listed.len() ==> (#[trigger] listed[i]).key() == scene.record().sample_tokens@[i].0,
    ensures
        exists|i: int| 0 <= i < listed.len() && (#[trigger] listed[i]).key() == sample.key(),
{
    let tokens = scene.record().sample_tokens@;
    let i = choose|i: int| 0 <= i < tokens.len() && tokens[i] == Token(sample.key());
    assert(listed[i].key() == sample.key());
}

/// The hexadecimal text of some bytes reads back as the same bytes.
pub proof fn law_hex_round_trip(bytes: Seq<u8>)
    ensures
        is_hex_text(hex_text(bytes)),
        hex_bytes(hex_text(bytes)) == bytes,
{
    let text = hex_text(bytes);
    assert forall|v: int| 0 <= v < 16 implies hex_digit_value(lower_hex_digit(v)) == Some(v) by {
        if v < 10 {
            assert(lower_hex_digit(v) as int == '0' as int + v);
        } else {
            assert(lower_hex_digit(v) as int == 'a' as int + v - 10);
        }
    }
    assert forall|i: int| 0 <= i < text.len() implies (#[trigger] hex_digit_value(text[i])) is Some by {
        let b = bytes[i / 2] as int;
        assert(0 <= b / 16 < 16 && 0 <= b % 16 < 16);
    }
    assert forall|i: int| 0 <= i < bytes.len() implies hex_bytes(text)[i] == bytes[i] by {
        let b = bytes[i] as int;
        assert((2 * i) / 2 == i && (2 * i + 1) / 2 == i);
        assert((2 * i) % 2 == 0 && (2 * i + 1) % 2 == 1);
        assert(0 <= b / 16 < 16 && 0 <= b % 16 < 16);
        assert(text[2 * i] == lower_hex_digit(b / 16));
        assert(text[2 * i + 1] == lower_hex_digit(b % 16));
        assert(16 * (b / 16) + b % 16 == b);
    }
    assert(hex_bytes(text) =~= bytes);
}

/// The first `n` of the sixteen bytes of a number write the number without its last `16 - n` bytes.
proof fn lemma_be_prefix(value: u128, n: nat)
    requires
        n <= 16,
    ensures
        be_value(be_bytes(value).take(n as int)) == value as nat / pow256((16 - n) as nat),
    decreases n,
{
    let bytes = be_bytes(value);
    if n == 0 {
        lemma_pow256_sixteen();
        assert(bytes.take(0).len() == 0);
        vstd::arithmetic::div_mod::lemma_basic_div(value as int, pow256(16) as int);
    } else {
        lemma_be_prefix(value, (n - 1) as nat);
        let prefix = bytes.take(n as int);
        assert(prefix.drop_last() == bytes.take(n - 1));
        assert(prefix.last() == bytes[n - 1]);
        let p = pow256((16 - n) as nat);
        lemma_pow256_monotonic((16 - n) as nat, (16 - n) as nat);
        let q = value as nat / p;
        assert(pow256((16 - (n - 1)) as nat) == 256 * p);
        vstd::arithmetic::div_mod::lemma_div_denominator(value as int, p as int, 256);
        assert(value as nat / (p * 256) == q / 256);
        assert(bytes[n - 1] == (q % 256) as u8);
        assert(256 * (q / 256) + q % 256 == q);
    }
}

/// The sixteen bytes of a number write that number.
pub proof fn law_be_round_trip(value: u128)
    ensures
        be_bytes(value).len() == 16,
        be_value(be_bytes(value)) == value,
{
    lemma_be_prefix(value, 16);
    assert(be_bytes(value).take(16) == be_bytes(value));
    assert(pow256(0) == 1);
    assert(value as nat / 1 == value as nat) by (nonlinear_arith);
}

/// The text that `Token::to_string` writes is a text that `Token::from_str` reads as the same token.
pub proof fn law_token_text_round_trip(token: Token)
    ensures
        is_token_text(hex_text(be_bytes(token.0))),
        be_value(hex_bytes(hex_text(be_bytes(token.0)))) == token.0,
{
    law_hex_round_trip(be_bytes(token.0));
    law_be_round_trip(token.0);
}

/// The decimal text of a number is made of digits that write the number.
pub proof fn law_decimal_round_trip(value: nat)
    ensures
        decimal_text(value).len() > 0,
        forall|i: int| 0 <= i < decimal_text(value).len() ==> '0' <= #[trigger] decimal_text(value)[i] <= '9',
        decimal_value(decimal_text(value)) == value,
    decreases value,
{
    let text = decimal_text(value);
    if value < 10 {
        assert(text.drop_last().len() == 0);
        assert(decimal_value(text.drop_last()) == 0);
        assert(text.last() == decimal_digit(value as int));
    } else {
        law_decimal_round_trip(value / 10);
        let front = decimal_text(value / 10);
        assert(text.drop_last() == front);
        assert(text.last() == decimal_digit((value % 10) as int));
        assert forall|i: int| 0 <= i < text.len() implies '0' <= #[trigger] text[i] <= '9' by {
            if i < front.len() {
                assert(text[i] == front[i]);
            }
        }
    }
}

/// The text that `VisibilityToken::to_string` writes is a text that
/// `VisibilityToken::from_str` reads as the same token.
pub proof fn law_visibility_token_text_round_trip(value: u32)
    ensures
        is_visibility_token_text(decimal_text(value as nat)),
        decimal_value(decimal_digits(decimal_text(value as nat))) == value,
{
    law_decimal_round_trip(value as nat);
    let text = decimal_text(value as nat);
    assert('0' <= text[0] <= '9');
    assert(decimal_digits(text) == text);
}

/// The name of a modality is read back as that modality.
pub proof fn law_modality_name_round_trip(modality: Modality)
    ensures
        Modality::from_name_spec(modality.name_spec()) == Some(modality),
{
    reveal_strlit("camera");
    reveal_strlit("lidar");
    reveal_strlit("radar");
    assert("camera"@.len() != "lidar"@.len());
    assert("camera"@.len() != "radar"@.len());
    assert("lidar"@[0] != "radar"@[0]);
}

/// The name of a file format is read back as that format.
pub proof fn law_file_format_name_round_trip(format: FileFormat)
    ensures
        FileFormat::from_name_spec(format.name_spec()) == Some(format),
{
    reveal_strlit("pcd");
    reveal_strlit("jpg");
    assert("pcd"@[0] != "jpg"@[0]);
}

/// The name of a visibility level is read back as that level.
pub proof fn law_visibility_level_name_round_trip(level: VisibilityLevel)
    ensures
        VisibilityLevel::from_name_spec(level.name_spec()) == Some(level),
{
    reveal_strlit("v0-40");
    reveal_strlit("v40-60");
    reveal_strlit("v60-80");
    reveal_strlit("v80-100");
    assert("v0-40"@.len() == 5 && "v40-60"@.len() == 6 && "v60-80"@.len() == 6 && "v80-100"@.len() == 7);
    assert("v40-60"@[1] != "v60-80"@[1]);
}

/// The name of a channel is read back as that channel.
pub proof fn law_channel_name_round_trip(channel: Channel)
    ensures
        Channel::from_name_spec(channel.name_spec()) == Some(channel),
{
    reveal_strlit("CAM_BACK");
    reveal_strlit("CAM_BACK_LEFT");
    reveal_strlit("CAM_BACK_RIGHT");
    reveal_strlit("CAM_FRONT");
    reveal_strlit("CAM_FRONT_LEFT");
    reveal_strlit("CAM_FRONT_RIGHT");
    reveal_strlit("CAM_FRONT_ZOOMED");
    reveal_strlit("LIDAR_TOP");
    reveal_strlit("RADAR_FRONT");
    reveal_strlit("RADAR_FRONT_LEFT");
    reveal_strlit("RADAR_FRONT_RIGHT");
    reveal_strlit("RADAR_BACK_LEFT");
    reveal_strlit("RADAR_BACK_RIGHT");
    assert("CAM_BACK"@.len() == 8);
    assert("CAM_BACK_LEFT"@.len() == 13);
    assert("CAM_BACK_RIGHT"@.len() == 14);
    assert("CAM_FRONT"@.len() == 9);
    assert("CAM_FRONT_LEFT"@.len() == 14);
    assert("CAM_FRONT_RIGHT"@.len() == 15);
    assert("CAM_FRONT_ZOOMED"@.len() == 16);
    assert("LIDAR_TOP"@.len() == 9);
    assert("RADAR_FRONT"@.len() == 11);
    assert("RADAR_FRONT_LEFT"@.len() == 16);
    assert("RADAR_FRONT_RIGHT"@.len() == 17);
    assert("RADAR_BACK_LEFT"@.len() == 15);
    assert("RADAR_BACK_RIGHT"@.len() == 16);
    assert("CAM_BACK_RIGHT"@[4] != "CAM_FRONT_LEFT"@[4]);
    assert("CAM_FRONT"@[0] != "LIDAR_TOP"@[0]);
    assert("CAM_FRONT_RIGHT"@[0] != "RADAR_BACK_LEFT"@[0]);
    assert("CAM_FRONT_ZOOMED"@[0] != "RADAR_FRONT_LEFT"@[0]);
    assert("CAM_FRONT_ZOOMED"@[0] != "RADAR_BACK_RIGHT"@[0]);
    assert("RADAR_FRONT_LEFT"@[6] != "RADAR_BACK_RIGHT"@[6]);
}

} // verus!
