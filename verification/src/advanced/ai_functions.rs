//! Machine-learning functions callable from SQL.
//!
//! The functions themselves compute with floating point and run outside
//! the verified library; here stand their names, their descriptions and the
//! registry that finds a function by name.

use vstd::prelude::*;
use crate::text::{owned, StringMap};

verus! {

/// The registered functions.
#[derive(Debug, Clone, Copy, PartialEq, Eq, Structural)]
pub enum AIFunctionKind {
    VectorSimilarity,
    CosineDistance,
    EuclideanDistance,
    KMeansClustering,
    DbscanClustering,
    Pca,
    IsolationForest,
    CollaborativeFiltering,
    TextEmbedding,
    SemanticSearch,
}

/// The name each function is registered under.
pub open spec fn ai_function_named(name: Seq<char>) -> Option<AIFunctionKind> {
    if name == "vector_similarity"@ {
        Some(AIFunctionKind::VectorSimilarity)
    } else if name == "cosine_distance"@ {
        Some(AIFunctionKind::CosineDistance)
    } else if name == "euclidean_distance"@ {
        Some(AIFunctionKind::EuclideanDistance)
    } else if name == "kmeans_cluster"@ {
        Some(AIFunctionKind::KMeansClustering)
    } else if name == "dbscan_cluster"@ {
        Some(AIFunctionKind::DbscanClustering)
    } else if name == "pca_reduce"@ {
        Some(AIFunctionKind::Pca)
    } else if name == "isolation_forest"@ {
        Some(AIFunctionKind::IsolationForest)
    } else if name == "recommend_similar"@ {
        Some(AIFunctionKind::CollaborativeFiltering)
    } else if name == "text_embedding"@ {
        Some(AIFunctionKind::TextEmbedding)
    } else if name == "semantic_search"@ {
        Some(AIFunctionKind::SemanticSearch)
    } else {
        None
    }
}

/// The `vector_similarity` function.
#[derive(Debug, Clone, Copy, PartialEq, Eq, Structural)]
pub struct VectorSimilarityFunction;

impl VectorSimilarityFunction {
    /// The name it is registered under.
    pub fn name(&self) -> (r: &'static str)
        ensures
            r@ == "vector_similarity"@,
    {
        "vector_similarity"
    }

    /// What it does.
    pub fn description(&self) -> (r: &'static str)
        ensures
            r@ == "Calculate vector similarity using cosine distance"@,
    {
        "Calculate vector similarity using cosine distance"
    }
}

/// The `cosine_distance` function.
#[derive(Debug, Clone, Copy, PartialEq, Eq, Structural)]
pub struct CosineDistanceFunction;

impl CosineDistanceFunction {
    /// The name it is registered under.
    pub fn name(&self) -> (r: &'static str)
        ensures
            r@ == "cosine_distance"@,
    {
        "cosine_distance"
    }

    /// What it does.
    pub fn description(&self) -> (r: &'static str)
        ensures
            r@ == "Calculate cosine distance between vectors"@,
    {
        "Calculate cosine distance between vectors"
    }
}

/// The `euclidean_distance` function.
#[derive(Debug, Clone, Copy, PartialEq, Eq, Structural)]
pub struct EuclideanDistanceFunction;

impl EuclideanDistanceFunction {
    /// The name it is registered under.
    pub fn name(&self) -> (r: &'static str)
        ensures
            r@ == "euclidean_distance"@,
    {
        "euclidean_distance"
    }

    /// What it does.
    pub fn description(&self) -> (r: &'static str)
        ensures
            r@ == "Calculate Euclidean distance between vectors"@,
    {
        "Calculate Euclidean distance between vectors"
    }
}

/// The `kmeans_cluster` function.
#[derive(Debug, Clone, Copy, PartialEq, Eq, Structural)]
pub struct KMeansClusteringFunction;

impl KMeansClusteringFunction {
    /// The name it is registered under.
    pub fn name(&self) -> (r: &'static str)
        ensures
            r@ == "kmeans_cluster"@,
    {
        "kmeans_cluster"
    }

    /// What it does.
    pub fn description(&self) -> (r: &'static str)
        ensures
            r@ == "Perform K-means clustering on vectors"@,
    {
        "Perform K-means clustering on vectors"
    }
}

/// The `dbscan_cluster` function.
#[derive(Debug, Clone, Copy, PartialEq, Eq, Structural)]
pub struct DBSCANClusteringFunction;

impl DBSCANClusteringFunction {
    /// The name it is registered under.
    pub fn name(&self) -> (r: &'static str)
        ensures
            r@ == "dbscan_cluster"@,
    {
        "dbscan_cluster"
    }

    /// What it does.
    pub fn description(&self) -> (r: &'static str)
        ensures
            r@ == "Perform DBSCAN clustering on vectors"@,
    {
        "Perform DBSCAN clustering on vectors"
    }
}

/// The `pca_reduce` function.
#[derive(Debug, Clone, Copy, PartialEq, Eq, Structural)]
pub struct PCAFunction;

impl PCAFunction {
    /// The name it is registered under.
    pub fn name(&self) -> (r: &'static str)
        ensures
            r@ == "pca_reduce"@,
    {
        "pca_reduce"
    }

    /// What it does.
    pub fn description(&self) -> (r: &'static str)
        ensures
            r@ == "Reduce vector dimensionality using PCA"@,
    {
        "Reduce vector dimensionality using PCA"
    }
}

/// The `isolation_forest` function.
#[derive(Debug, Clone, Copy, PartialEq, Eq, Structural)]
pub struct IsolationForestFunction;

impl IsolationForestFunction {
    /// The name it is registered under.
    pub fn name(&self) -> (r: &'static str)
        ensures
            r@ == "isolation_forest"@,
    {
        "isolation_forest"
    }

    /// What it does.
    pub fn description(&self) -> (r: &'static str)
        ensures
            r@ == "Detect anomalies using Isolation Forest"@,
    {
        "Detect anomalies using Isolation Forest"
    }
}

/// The `recommend_similar` function.
#[derive(Debug, Clone, Copy, PartialEq, Eq, Structural)]
pub struct CollaborativeFilteringFunction;

impl CollaborativeFilteringFunction {
    /// The name it is registered under.
    pub fn name(&self) -> (r: &'static str)
        ensures
            r@ == "recommend_similar"@,
    {
        "recommend_similar"
    }

    /// What it does.
    pub fn description(&self) -> (r: &'static str)
        ensures
            r@ == "Generate recommendations using collaborative filtering"@,
    {
        "Generate recommendations using collaborative filtering"
    }
}

/// The `text_embedding` function.
#[derive(Debug, Clone, Copy, PartialEq, Eq, Structural)]
pub struct TextEmbeddingFunction;

impl TextEmbeddingFunction {
    /// The name it is registered under.
    pub fn name(&self) -> (r: &'static str)
        ensures
            r@ == "text_embedding"@,
    {
        "text_embedding"
    }

    /// What it does.
    pub fn description(&self) -> (r: &'static str)
        ensures
            r@ == "Generate text embeddings (requires model integration)"@,
    {
        "Generate text embeddings (requires model integration)"
    }
}

/// The `semantic_search` function.
#[derive(Debug, Clone, Copy, PartialEq, Eq, Structural)]
pub struct SemanticSearchFunction;

impl SemanticSearchFunction {
    /// The name it is registered under.
    pub fn name(&self) -> (r: &'static str)
        ensures
            r@ == "semantic_search"@,
    {
        "semantic_search"
    }

    /// What it does.
    pub fn description(&self) -> (r: &'static str)
        ensures
            r@ == "Perform semantic search on documents"@,
    {
        "Perform semantic search on documents"
    }
}

/// Why a registry lookup failed.
#[derive(Debug, Clone, PartialEq)]
pub enum AIFunctionError {
    /// No function is registered under the name.
    InvalidArgument(String),
}

/// The built-in functions by name.
#[derive(Debug)]
pub struct AIFunctionRegistry {
    functions: StringMap<AIFunctionKind>,
}

impl AIFunctionRegistry {
    /// The function registered under each name.
    pub closed spec fn registered(&self) -> Map<Seq<char>, AIFunctionKind> {
        self.functions@
    }

    /// A registry holding the built-in functions under their names.
    pub fn new() -> (r: Self)
        ensures
            forall|name: Seq<char>| #[trigger] r.registered().contains_key(name) == ai_function_named(name) is Some,
            forall|name: Seq<char>| ai_function_named(name) matches Some(k) ==> #[trigger] r.registered()[name] == k,
    {
        let mut functions: StringMap<AIFunctionKind> = StringMap::new();
        functions.insert(owned("vector_similarity"), AIFunctionKind::VectorSimilarity);
        functions.insert(owned("cosine_distance"), AIFunctionKind::CosineDistance);
        functions.insert(owned("euclidean_distance"), AIFunctionKind::EuclideanDistance);
        functions.insert(owned("kmeans_cluster"), AIFunctionKind::KMeansClustering);
        functions.insert(owned("dbscan_cluster"), AIFunctionKind::DbscanClustering);
        functions.insert(owned("pca_reduce"), AIFunctionKind::Pca);
        functions.insert(owned("isolation_forest"), AIFunctionKind::IsolationForest);
        functions.insert(owned("recommend_similar"), AIFunctionKind::CollaborativeFiltering);
        functions.insert(owned("text_embedding"), AIFunctionKind::TextEmbedding);
        functions.insert(owned("semantic_search"), AIFunctionKind::SemanticSearch);
        proof {
            reveal_strlit("vector_similarity");
            reveal_strlit("cosine_distance");
            reveal_strlit("euclidean_distance");
            reveal_strlit("kmeans_cluster");
            reveal_strlit("dbscan_cluster");
            reveal_strlit("pca_reduce");
            reveal_strlit("isolation_forest");
            reveal_strlit("recommend_similar");
            reveal_strlit("text_embedding");
            reveal_strlit("semantic_search");
            assert("vector_similarity"@[0] != "recommend_similar"@[0]);
            assert("cosine_distance"@[0] != "semantic_search"@[0]);
            assert("kmeans_cluster"@[0] != "dbscan_cluster"@[0]);
            assert("kmeans_cluster"@[0] != "text_embedding"@[0]);
            assert("dbscan_cluster"@[0] != "text_embedding"@[0]);
            assert forall|name: Seq<char>| #[trigger] functions@.contains_key(name) == ai_function_named(name) is Some by {}
            assert forall|name: Seq<char>| ai_function_named(name) is Some implies #[trigger] functions@[name] == ai_function_named(name)->Some_0 by {
                if name == "vector_similarity"@ {
                    assert("vector_similarity"@.len() != "cosine_distance"@.len());
                    assert("vector_similarity"@ != "cosine_distance"@);
                    assert("vector_similarity"@.len() != "euclidean_distance"@.len());
                    assert("vector_similarity"@ != "euclidean_distance"@);
                    assert("vector_similarity"@.len() != "kmeans_cluster"@.len());
                    assert("vector_similarity"@ != "kmeans_cluster"@);
                    assert("vector_similarity"@.len() != "dbscan_cluster"@.len());
                    assert("vector_similarity"@ != "dbscan_cluster"@);
                    assert("vector_similarity"@.len() != "pca_reduce"@.len());
                    assert("vector_similarity"@ != "pca_reduce"@);
                    assert("vector_similarity"@.len() != "isolation_forest"@.len());
                    assert("vector_similarity"@ != "isolation_forest"@);
                    assert("vector_similarity"@[0] != "recommend_similar"@[0]);
                    assert("vector_similarity"@ != "recommend_similar"@);
                    assert("vector_similarity"@.len() != "text_embedding"@.len());
                    assert("vector_similarity"@ != "text_embedding"@);
                    assert("vector_similarity"@.len() != "semantic_search"@.len());
                    assert("vector_similarity"@ != "semantic_search"@);
                    assert(functions@[name] == AIFunctionKind::VectorSimilarity);
                } else if name == "cosine_distance"@ {
                    assert("cosine_distance"@.len() != "euclidean_distance"@.len());
                    assert("cosine_distance"@ != "euclidean_distance"@);
                    assert("cosine_distance"@.len() != "kmeans_cluster"@.len());
                    assert("cosine_distance"@ != "kmeans_cluster"@);
                    assert("cosine_distance"@.len() != "dbscan_cluster"@.len());
                    assert("cosine_distance"@ != "dbscan_cluster"@);
                    assert("cosine_distance"@.len() != "pca_reduce"@.len());
                    assert("cosine_distance"@ != "pca_reduce"@);
                    assert("cosine_distance"@.len() != "isolation_forest"@.len());
                    assert("cosine_distance"@ != "isolation_forest"@);
                    assert("cosine_distance"@.len() != "recommend_similar"@.len());
                    assert("cosine_distance"@ != "recommend_similar"@);
                    assert("cosine_distance"@.len() != "text_embedding"@.len());
                    assert("cosine_distance"@ != "text_embedding"@);
                    assert("cosine_distance"@[0] != "semantic_search"@[0]);
                    assert("cosine_distance"@ != "semantic_search"@);
                    assert(functions@[name] == AIFunctionKind::CosineDistance);
                } else if name == "euclidean_distance"@ {
                    assert("euclidean_distance"@.len() != "kmeans_cluster"@.len());
                    assert("euclidean_distance"@ != "kmeans_cluster"@);
                    assert("euclidean_distance"@.len() != "dbscan_cluster"@.len());
                    assert("euclidean_distance"@ != "dbscan_cluster"@);
                    assert("euclidean_distance"@.len() != "pca_reduce"@.len());
                    assert("euclidean_distance"@ != "pca_reduce"@);
                    assert("euclidean_distance"@.len() != "isolation_forest"@.len());
                    assert("euclidean_distance"@ != "isolation_forest"@);
                    assert("euclidean_distance"@.len() != "recommend_similar"@.len());
                    assert("euclidean_distance"@ != "recommend_similar"@);
                    assert("euclidean_distance"@.len() != "text_embedding"@.len());
                    assert("euclidean_distance"@ != "text_embedding"@);
                    assert("euclidean_distance"@.len() != "semantic_search"@.len());
                    assert("euclidean_distance"@ != "semantic_search"@);
                    assert(functions@[name] == AIFunctionKind::EuclideanDistance);
                } else if name == "kmeans_cluster"@ {
                    assert("kmeans_cluster"@[0] != "dbscan_cluster"@[0]);
                    assert("kmeans_cluster"@ != "dbscan_cluster"@);
                    assert("kmeans_cluster"@.len() != "pca_reduce"@.len());
                    assert("kmeans_cluster"@ != "pca_reduce"@);
                    assert("kmeans_cluster"@.len() != "isolation_forest"@.len());
                    assert("kmeans_cluster"@ != "isolation_forest"@);
                    assert("kmeans_cluster"@.len() != "recommend_similar"@.len());
                    assert("kmeans_cluster"@ != "recommend_similar"@);
                    assert("kmeans_cluster"@[0] != "text_embedding"@[0]);
                    assert("kmeans_cluster"@ != "text_embedding"@);
                    assert("kmeans_cluster"@.len() != "semantic_search"@.len());
                    assert("kmeans_cluster"@ != "semantic_search"@);
                    assert(functions@[name] == AIFunctionKind::KMeansClustering);
                } else if name == "dbscan_cluster"@ {
                    assert("dbscan_cluster"@.len() != "pca_reduce"@.len());
                    assert("dbscan_cluster"@ != "pca_reduce"@);
                    assert("dbscan_cluster"@.len() != "isolation_forest"@.len());
                    assert("dbscan_cluster"@ != "isolation_forest"@);
                    assert("dbscan_cluster"@.len() != "recommend_similar"@.len());
                    assert("dbscan_cluster"@ != "recommend_similar"@);
                    assert("dbscan_cluster"@[0] != "text_embedding"@[0]);
                    assert("dbscan_cluster"@ != "text_embedding"@);
                    assert("dbscan_cluster"@.len() != "semantic_search"@.len());
                    assert("dbscan_cluster"@ != "semantic_search"@);
                    assert(functions@[name] == AIFunctionKind::DbscanClustering);
                } else if name == "pca_reduce"@ {
                    assert("pca_reduce"@.len() != "isolation_forest"@.len());
                    assert("pca_reduce"@ != "isolation_forest"@);
                    assert("pca_reduce"@.len() != "recommend_similar"@.len());
                    assert("pca_reduce"@ != "recommend_similar"@);
                    assert("pca_reduce"@.len() != "text_embedding"@.len());
                    assert("pca_reduce"@ != "text_embedding"@);
                    assert("pca_reduce"@.len() != "semantic_search"@.len());
                    assert("pca_reduce"@ != "semantic_search"@);
                    assert(functions@[name] == AIFunctionKind::Pca);
                } else if name == "isolation_forest"@ {
                    assert("isolation_forest"@.len() != "recommend_similar"@.len());
                    assert("isolation_forest"@ != "recommend_similar"@);
                    assert("isolation_forest"@.len() != "text_embedding"@.len());
                    assert("isolation_forest"@ != "text_embedding"@);
                    assert("isolation_forest"@.len() != "semantic_search"@.len());
                    assert("isolation_forest"@ != "semantic_search"@);
                    assert(functions@[name] == AIFunctionKind::IsolationForest);
                } else if name == "recommend_similar"@ {
                    assert("recommend_similar"@.len() != "text_embedding"@.len());
                    assert("recommend_similar"@ != "text_embedding"@);
                    assert("recommend_similar"@.len() != "semantic_search"@.len());
                    assert("recommend_similar"@ != "semantic_search"@);
                    assert(functions@[name] == AIFunctionKind::CollaborativeFiltering);
                } else if name == "text_embedding"@ {
                    assert("text_embedding"@.len() != "semantic_search"@.len());
                    assert("text_embedding"@ != "semantic_search"@);
                    assert(functions@[name] == AIFunctionKind::TextEmbedding);
                } else if name == "semantic_search"@ {
                    assert(functions@[name] == AIFunctionKind::SemanticSearch);
                }
            }
        }
        AIFunctionRegistry { functions }
    }

    /// The function registered under `name`, or an error naming it.
    pub fn function_for(&self, name: &str) -> (r: Result<AIFunctionKind, AIFunctionError>)
        ensures
            self.registered().contains_key(name@) ==> r == Ok::<AIFunctionKind, AIFunctionError>(self.registered()[name@]),
            !self.registered().contains_key(name@) ==> (r matches Err(AIFunctionError::InvalidArgument(m)) && m@ == "Unknown AI function: "@ + name@),
    {
        match self.functions.get(name) {
            Some(k) => Ok(*k),
            None => {
                let mut m = owned("Unknown AI function: ");
                crate::text::push_text(&mut m, name);
                Err(AIFunctionError::InvalidArgument(m))
            },
        }
    }

    /// The registered names.
    pub fn list_functions(&self) -> (r: Vec<String>)
        ensures
            r@.len() == self.registered().len(),
            forall|k: Seq<char>| self.registered().contains_key(k) <==> crate::text::contains_text(r@, k),
    {
        self.functions.key_list()
    }
}

} // verus!
