use auroradb::advanced::ai_functions::{
    AIFunctionError, AIFunctionKind, AIFunctionRegistry, PCAFunction, VectorSimilarityFunction,
};
use auroradb::advanced::analytics::{
    AnalyticsFunctionError, AnalyticsFunctionKind, AnalyticsFunctionRegistry, CorrelationFunction,
};
use auroradb::enterprise::monitoring::{bottleneck_for, BottleneckSeverity};

#[test]
fn test_ai_function_registry() {
    let registry = AIFunctionRegistry::new();
    assert!(!registry.list_functions().is_empty());
    assert!(registry.list_functions().contains(&"vector_similarity".to_string()));
}

#[test]
fn test_analytics_function_registry() {
    let registry = AnalyticsFunctionRegistry::new();
    assert!(!registry.list_functions().is_empty());
    assert!(registry.list_functions().contains(&"correlation".to_string()));
}

#[test]
fn registries_find_functions_by_name() {
    let ai = AIFunctionRegistry::new();
    assert_eq!(ai.list_functions().len(), 10);
    assert_eq!(ai.function_for("pca_reduce"), Ok(AIFunctionKind::Pca));
    assert_eq!(
        ai.function_for("teleport"),
        Err(AIFunctionError::InvalidArgument("Unknown AI function: teleport".to_string()))
    );
    assert_eq!(PCAFunction.name(), "pca_reduce");
    assert_eq!(VectorSimilarityFunction.description(), "Calculate vector similarity using cosine distance");
    let an = AnalyticsFunctionRegistry::new();
    assert_eq!(an.list_functions().len(), 10);
    assert_eq!(an.function_for("trend_analysis"), Ok(AnalyticsFunctionKind::TrendAnalysis));
    assert_eq!(
        an.function_for("Correlation"),
        Err(AnalyticsFunctionError::InvalidArgument("Unknown analytics function: Correlation".to_string()))
    );
    assert_eq!(CorrelationFunction.name(), "correlation");
}

#[test]
fn slow_queries_are_bottlenecks() {
    assert!(bottleneck_for("q", 1_000_000).is_none());
    let b = bottleneck_for("SELECT 1", 1_000_001).unwrap();
    assert_eq!(b.severity, BottleneckSeverity::Warning);
    assert_eq!(b.query, "SELECT 1");
    assert_eq!(bottleneck_for("q", 5_000_001).unwrap().severity, BottleneckSeverity::Critical);
}
