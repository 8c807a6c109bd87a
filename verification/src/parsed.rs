//! The records that carry what the indexer derived: a sample with its
//! annotations and data, an instance and a scene with their chains.

use crate::chain::{chain_result, materialize_chain};
use crate::error::{Error, Table};
use crate::links::Linked;
use crate::serializable::types::{Instance, Sample, SampleAnnotation, Scene, Timestamp, WithToken};
use crate::token::Token;
use std::collections::HashMap;
use vstd::prelude::*;

verus! {

/// A sample with the tokens of the annotations and of the data that name it.
#[derive(Debug, Clone, PartialEq, Eq)]
pub struct SampleInternal {
    pub token: Token,
    pub next: Option<Token>,
    pub prev: Option<Token>,
    pub timestamp: Timestamp,
    pub scene_token: Token,
    pub annotation_tokens: Vec<Token>,
    pub sample_data_tokens: Vec<Token>,
}

/// An instance with the tokens of its annotations, in the order of their chain.
#[derive(Debug, Clone, PartialEq, Eq)]
pub struct InstanceInternal {
    pub token: Token,
    pub category_token: Token,
    pub annotation_tokens: Vec<Token>,
}

/// A scene with the tokens of its samples, in the order of their chain.
#[derive(Debug, Clone, PartialEq, Eq)]
pub struct SceneInternal {
    pub token: Token,
    pub name: String,
    pub description: String,
    pub log_token: Token,
    pub sample_tokens: Vec<Token>,
}

impl WithToken for SampleInternal {
    open spec fn token_spec(&self) -> Token {
        self.token
    }

    fn token(&self) -> Token {
        self.token
    }
}

impl Linked for SampleInternal {
    open spec fn prev_spec(&self) -> Option<Token> {
        self.prev
    }

    open spec fn next_spec(&self) -> Option<Token> {
        self.next
    }

    fn prev(&self) -> Option<Token> {
        self.prev
    }

    fn next(&self) -> Option<Token> {
        self.next
    }
}

impl WithToken for InstanceInternal {
    open spec fn token_spec(&self) -> Token {
        self.token
    }

    fn token(&self) -> Token {
        self.token
    }
}

impl WithToken for SceneInternal {
    open spec fn token_spec(&self) -> Token {
        self.token
    }

    fn token(&self) -> Token {
        self.token
    }
}

impl SampleInternal {
    /// Joins a sample with the tokens of its annotations and of its data.
    pub fn from(sample: Sample, annotation_tokens: Vec<Token>, sample_data_tokens: Vec<Token>) -> (r: Self)
        ensures
            r.token == sample.token,
            r.next == sample.next,
            r.prev == sample.prev,
            r.timestamp == sample.timestamp,
            r.scene_token == sample.scene_token,
            r.annotation_tokens == annotation_tokens,
            r.sample_data_tokens == sample_data_tokens,
    {
        let Sample { token, next, prev, scene_token, timestamp } = sample;
        SampleInternal { token, next, prev, timestamp, scene_token, annotation_tokens, sample_data_tokens }
    }
}

impl InstanceInternal {
    /// What the chain of an instance is, or why it is refused.
    pub open spec fn chain_spec(
        instance: Instance,
        annotations: Map<u128, SampleAnnotation>,
    ) -> core::result::Result<Seq<Token>, Error> {
        chain_result(
            annotations,
            Table::Instance,
            instance.token,
            instance.first_annotation_token,
            instance.last_annotation_token,
            instance.nbr_annotations,
        )
    }

    /// Follows the annotations of an instance from its first one. The
    /// instance is accepted if the chain has the announced length, ends with
    /// the announced last annotation, and its first annotation names none
    /// before it.
    pub fn from(instance: Instance, sample_annotation_map: &HashMap<u128, SampleAnnotation>) -> (r:
        core::result::Result<Self, Error>)
        ensures
            match Self::chain_spec(instance, sample_annotation_map@) {
                Ok(tokens) => r matches Ok(inner) && inner.token == instance.token && inner.category_token
                    == instance.category_token && inner.annotation_tokens@ == tokens,
                Err(e) => r matches Err(err) && err == e,
            },
    {
        let Instance { token, nbr_annotations, category_token, first_annotation_token, last_annotation_token } =
            instance;
        match materialize_chain(
            sample_annotation_map,
            Table::Instance,
            token,
            first_annotation_token,
            last_annotation_token,
            nbr_annotations,
        ) {
            Ok(annotation_tokens) => Ok(InstanceInternal { token, category_token, annotation_tokens }),
            Err(e) => Err(e),
        }
    }
}

impl SceneInternal {
    /// What the chain of a scene is, or why it is refused.
    pub open spec fn chain_spec(scene: Scene, samples: Map<u128, Sample>) -> core::result::Result<
        Seq<Token>,
        Error,
    > {
        chain_result(
            samples,
            Table::Scene,
            scene.token,
            scene.first_sample_token,
            scene.last_sample_token,
            scene.nbr_samples,
        )
    }

    /// Follows the samples of a scene from its first one. The scene is
    /// accepted if the chain has the announced length, ends with the
    /// announced last sample, and its first sample names none before it.
    pub fn from(scene: Scene, sample_map: &HashMap<u128, Sample>) -> (r: core::result::Result<Self, Error>)
        ensures
            match Self::chain_spec(scene, sample_map@) {
                Ok(tokens) => r matches Ok(inner) && inner.token == scene.token && inner.name == scene.name
                    && inner.description == scene.description && inner.log_token == scene.log_token
                    && inner.sample_tokens@ == tokens,
                Err(e) => r matches Err(err) && err == e,
            },
    {
        let Scene { token, name, description, log_token, nbr_samples, first_sample_token, last_sample_token } =
            scene;
        match materialize_chain(
            sample_map,
            Table::Scene,
            token,
            first_sample_token,
            last_sample_token,
            nbr_samples,
        ) {
            Ok(sample_tokens) => Ok(SceneInternal { token, name, description, log_token, sample_tokens }),
            Err(e) => Err(e),
        }
    }
}

} // verus!
