//! The sentence-embedding models that the engine knows, and the numbers
//! under which their embeddings are stored.

use vstd::prelude::*;

verus! {

/// The supported model types.
#[derive(Debug, Clone, Copy, Hash, PartialEq, Eq, Structural)]
pub enum SentenceEmbeddingsModelType {
    AllMiniLmL6V2,
    AllMiniLmL12V2,
    DistiluseBaseMultilingualCased,
    AllDistilrobertaV1,
    ParaphraseAlbertSmallV2,
    MsMarcoDistilbertDotV5,
    MsMarcoDistilbertBaseTasB,
    MsMarcoBertBaseDotV5,
}

impl SentenceEmbeddingsModelType {
    /// The number under which the embeddings of a model are stored. The
    /// numbers are on disk: a new model gets the next one, and none is ever
    /// given anew.
    pub open spec fn stored_id(&self) -> u32 {
        match *self {
            SentenceEmbeddingsModelType::AllMiniLmL6V2 => 0,
            SentenceEmbeddingsModelType::AllMiniLmL12V2 => 1,
            SentenceEmbeddingsModelType::DistiluseBaseMultilingualCased => 2,
            SentenceEmbeddingsModelType::AllDistilrobertaV1 => 3,
            SentenceEmbeddingsModelType::ParaphraseAlbertSmallV2 => 4,
            SentenceEmbeddingsModelType::MsMarcoDistilbertDotV5 => 5,
            SentenceEmbeddingsModelType::MsMarcoDistilbertBaseTasB => 6,
            SentenceEmbeddingsModelType::MsMarcoBertBaseDotV5 => 7,
        }
    }

    /// Map the model to the ID in the database
    #[verifier::when_used_as_spec(stored_id)]
    pub fn model_id(&self) -> (r: u32)
        ensures
            r == self.stored_id(),
    {
        match self {
            SentenceEmbeddingsModelType::AllMiniLmL6V2 => 0,
            SentenceEmbeddingsModelType::AllMiniLmL12V2 => 1,
            SentenceEmbeddingsModelType::DistiluseBaseMultilingualCased => 2,
            SentenceEmbeddingsModelType::AllDistilrobertaV1 => 3,
            SentenceEmbeddingsModelType::ParaphraseAlbertSmallV2 => 4,
            SentenceEmbeddingsModelType::MsMarcoDistilbertDotV5 => 5,
            SentenceEmbeddingsModelType::MsMarcoDistilbertBaseTasB => 6,
            SentenceEmbeddingsModelType::MsMarcoBertBaseDotV5 => 7,
        }
    }

    /// The model whose embeddings are stored under `id`, if there is one.
    pub fn from_model_id(id: u32) -> (r: Option<SentenceEmbeddingsModelType>)
        ensures
            match r {
                Some(model) => model.stored_id() == id,
                None => id > 7,
            },
    {
        match id {
            0 => Some(SentenceEmbeddingsModelType::AllMiniLmL6V2),
            1 => Some(SentenceEmbeddingsModelType::AllMiniLmL12V2),
            2 => Some(SentenceEmbeddingsModelType::DistiluseBaseMultilingualCased),
            3 => Some(SentenceEmbeddingsModelType::AllDistilrobertaV1),
            4 => Some(SentenceEmbeddingsModelType::ParaphraseAlbertSmallV2),
            5 => Some(SentenceEmbeddingsModelType::MsMarcoDistilbertDotV5),
            6 => Some(SentenceEmbeddingsModelType::MsMarcoDistilbertBaseTasB),
            7 => Some(SentenceEmbeddingsModelType::MsMarcoBertBaseDotV5),
            _ => None,
        }
    }

    /// No two models share a number.
    pub proof fn lemma_ids_distinct(self, other: SentenceEmbeddingsModelType)
        ensures
            self.stored_id() == other.stored_id() ==> self == other,
    {
    }
}

} // verus!
