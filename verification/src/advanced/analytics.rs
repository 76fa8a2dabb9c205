//! Statistical analytics functions callable from SQL.
//!
//! The functions themselves compute with floating point and run outside
//! the verified library; here stand their names, their descriptions and the
//! registry that finds a function by name.

use vstd::prelude::*;
use crate::text::{owned, StringMap};

verus! {

/// The registered functions.
#[derive(Debug, Clone, Copy, PartialEq, Eq, Structural)]
pub enum AnalyticsFunctionKind {
    Correlation,
    LinearRegression,
    TimeSeriesForecast,
    MovingAverage,
    ExponentialSmoothing,
    SeasonalDecompose,
    OutlierDetection,
    TrendAnalysis,
    HypothesisTest,
    DistributionFit,
}

/// The name each function is registered under.
pub open spec fn analytics_function_named(name: Seq<char>) -> Option<AnalyticsFunctionKind> {
    if name == "correlation"@ {
        Some(AnalyticsFunctionKind::Correlation)
    } else if name == "linear_regression"@ {
        Some(AnalyticsFunctionKind::LinearRegression)
    } else if name == "time_series_forecast"@ {
        Some(AnalyticsFunctionKind::TimeSeriesForecast)
    } else if name == "moving_average"@ {
        Some(AnalyticsFunctionKind::MovingAverage)
    } else if name == "exponential_smoothing"@ {
        Some(AnalyticsFunctionKind::ExponentialSmoothing)
    } else if name == "seasonal_decompose"@ {
        Some(AnalyticsFunctionKind::SeasonalDecompose)
    } else if name == "outlier_detection"@ {
        Some(AnalyticsFunctionKind::OutlierDetection)
    } else if name == "trend_analysis"@ {
        Some(AnalyticsFunctionKind::TrendAnalysis)
    } else if name == "hypothesis_test"@ {
        Some(AnalyticsFunctionKind::HypothesisTest)
    } else if name == "distribution_fit"@ {
        Some(AnalyticsFunctionKind::DistributionFit)
    } else {
        None
    }
}

/// The `correlation` function.
#[derive(Debug, Clone, Copy, PartialEq, Eq, Structural)]
pub struct CorrelationFunction;

impl CorrelationFunction {
    /// The name it is registered under.
    pub fn name(&self) -> (r: &'static str)
        ensures
            r@ == "correlation"@,
    {
        "correlation"
    }

    /// What it does.
    pub fn description(&self) -> (r: &'static str)
        ensures
            r@ == "Calculate Pearson correlation coefficient between two variables"@,
    {
        "Calculate Pearson correlation coefficient between two variables"
    }
}

/// The `linear_regression` function.
#[derive(Debug, Clone, Copy, PartialEq, Eq, Structural)]
pub struct LinearRegressionFunction;

impl LinearRegressionFunction {
    /// The name it is registered under.
    pub fn name(&self) -> (r: &'static str)
        ensures
            r@ == "linear_regression"@,
    {
        "linear_regression"
    }

    /// What it does.
    pub fn description(&self) -> (r: &'static str)
        ensures
            r@ == "Perform simple linear regression analysis"@,
    {
        "Perform simple linear regression analysis"
    }
}

/// The `time_series_forecast` function.
#[derive(Debug, Clone, Copy, PartialEq, Eq, Structural)]
pub struct TimeSeriesForecastFunction;

impl TimeSeriesForecastFunction {
    /// The name it is registered under.
    pub fn name(&self) -> (r: &'static str)
        ensures
            r@ == "time_series_forecast"@,
    {
        "time_series_forecast"
    }

    /// What it does.
    pub fn description(&self) -> (r: &'static str)
        ensures
            r@ == "Generate time series forecasts using various methods"@,
    {
        "Generate time series forecasts using various methods"
    }
}

/// The `moving_average` function.
#[derive(Debug, Clone, Copy, PartialEq, Eq, Structural)]
pub struct MovingAverageFunction;

impl MovingAverageFunction {
    /// The name it is registered under.
    pub fn name(&self) -> (r: &'static str)
        ensures
            r@ == "moving_average"@,
    {
        "moving_average"
    }

    /// What it does.
    pub fn description(&self) -> (r: &'static str)
        ensures
            r@ == "Calculate moving average for time series smoothing"@,
    {
        "Calculate moving average for time series smoothing"
    }
}

/// The `exponential_smoothing` function.
#[derive(Debug, Clone, Copy, PartialEq, Eq, Structural)]
pub struct ExponentialSmoothingFunction;

impl ExponentialSmoothingFunction {
    /// The name it is registered under.
    pub fn name(&self) -> (r: &'static str)
        ensures
            r@ == "exponential_smoothing"@,
    {
        "exponential_smoothing"
    }

    /// What it does.
    pub fn description(&self) -> (r: &'static str)
        ensures
            r@ == "Apply exponential smoothing to time series data"@,
    {
        "Apply exponential smoothing to time series data"
    }
}

/// The `seasonal_decompose` function.
#[derive(Debug, Clone, Copy, PartialEq, Eq, Structural)]
pub struct SeasonalDecomposeFunction;

impl SeasonalDecomposeFunction {
    /// The name it is registered under.
    pub fn name(&self) -> (r: &'static str)
        ensures
            r@ == "seasonal_decompose"@,
    {
        "seasonal_decompose"
    }

    /// What it does.
    pub fn description(&self) -> (r: &'static str)
        ensures
            r@ == "Decompose time series into trend, seasonal, and residual components"@,
    {
        "Decompose time series into trend, seasonal, and residual components"
    }
}

/// The `outlier_detection` function.
#[derive(Debug, Clone, Copy, PartialEq, Eq, Structural)]
pub struct OutlierDetectionFunction;

impl OutlierDetectionFunction {
    /// The name it is registered under.
    pub fn name(&self) -> (r: &'static str)
        ensures
            r@ == "outlier_detection"@,
    {
        "outlier_detection"
    }

    /// What it does.
    pub fn description(&self) -> (r: &'static str)
        ensures
            r@ == "Detect outliers in numerical data using various methods"@,
    {
        "Detect outliers in numerical data using various methods"
    }
}

/// The `trend_analysis` function.
#[derive(Debug, Clone, Copy, PartialEq, Eq, Structural)]
pub struct TrendAnalysisFunction;

impl TrendAnalysisFunction {
    /// The name it is registered under.
    pub fn name(&self) -> (r: &'static str)
        ensures
            r@ == "trend_analysis"@,
    {
        "trend_analysis"
    }

    /// What it does.
    pub fn description(&self) -> (r: &'static str)
        ensures
            r@ == "Analyze trends in time series or sequential data"@,
    {
        "Analyze trends in time series or sequential data"
    }
}

/// The `hypothesis_test` function.
#[derive(Debug, Clone, Copy, PartialEq, Eq, Structural)]
pub struct HypothesisTestFunction;

impl HypothesisTestFunction {
    /// The name it is registered under.
    pub fn name(&self) -> (r: &'static str)
        ensures
            r@ == "hypothesis_test"@,
    {
        "hypothesis_test"
    }

    /// What it does.
    pub fn description(&self) -> (r: &'static str)
        ensures
            r@ == "Perform statistical hypothesis tests between samples"@,
    {
        "Perform statistical hypothesis tests between samples"
    }
}

/// The `distribution_fit` function.
#[derive(Debug, Clone, Copy, PartialEq, Eq, Structural)]
pub struct DistributionFitFunction;

impl DistributionFitFunction {
    /// The name it is registered under.
    pub fn name(&self) -> (r: &'static str)
        ensures
            r@ == "distribution_fit"@,
    {
        "distribution_fit"
    }

    /// What it does.
    pub fn description(&self) -> (r: &'static str)
        ensures
            r@ == "Fit probability distributions to data and find best fit"@,
    {
        "Fit probability distributions to data and find best fit"
    }
}

/// Why a registry lookup failed.
#[derive(Debug, Clone, PartialEq)]
pub enum AnalyticsFunctionError {
    /// No function is registered under the name.
    InvalidArgument(String),
}

/// The built-in functions by name.
#[derive(Debug)]
pub struct AnalyticsFunctionRegistry {
    functions: StringMap<AnalyticsFunctionKind>,
}

impl AnalyticsFunctionRegistry {
    /// The function registered under each name.
    pub closed spec fn registered(&self) -> Map<Seq<char>, AnalyticsFunctionKind> {
        self.functions@
    }

    /// A registry holding the built-in functions under their names.
    pub fn new() -> (r: Self)
        ensures
            forall|name: Seq<char>| #[trigger] r.registered().contains_key(name) == analytics_function_named(name) is Some,
            forall|name: Seq<char>| analytics_function_named(name) matches Some(k) ==> #[trigger] r.registered()[name] == k,
    {
        let mut functions: StringMap<AnalyticsFunctionKind> = StringMap::new();
        functions.insert(owned("correlation"), AnalyticsFunctionKind::Correlation);
        functions.insert(owned("linear_regression"), AnalyticsFunctionKind::LinearRegression);
        functions.insert(owned("time_series_forecast"), AnalyticsFunctionKind::TimeSeriesForecast);
        functions.insert(owned("moving_average"), AnalyticsFunctionKind::MovingAverage);
        functions.insert(owned("exponential_smoothing"), AnalyticsFunctionKind::ExponentialSmoothing);
        functions.insert(owned("seasonal_decompose"), AnalyticsFunctionKind::SeasonalDecompose);
        functions.insert(owned("outlier_detection"), AnalyticsFunctionKind::OutlierDetection);
        functions.insert(owned("trend_analysis"), AnalyticsFunctionKind::TrendAnalysis);
        functions.insert(owned("hypothesis_test"), AnalyticsFunctionKind::HypothesisTest);
        functions.insert(owned("distribution_fit"), AnalyticsFunctionKind::DistributionFit);
        proof {
            reveal_strlit("correlation");
            reveal_strlit("linear_regression");
            reveal_strlit("time_series_forecast");
            reveal_strlit("moving_average");
            reveal_strlit("exponential_smoothing");
            reveal_strlit("seasonal_decompose");
            reveal_strlit("outlier_detection");
            reveal_strlit("trend_analysis");
            reveal_strlit("hypothesis_test");
            reveal_strlit("distribution_fit");
            assert("linear_regression"@[0] != "outlier_detection"@[0]);
            assert("moving_average"@[0] != "trend_analysis"@[0]);
            assert forall|name: Seq<char>| #[trigger] functions@.contains_key(name) == analytics_function_named(name) is Some by {}
            assert forall|name: Seq<char>| analytics_function_named(name) is Some implies #[trigger] functions@[name] == analytics_function_named(name)->Some_0 by {
                if name == "correlation"@ {
                    assert("correlation"@.len() != "linear_regression"@.len());
                    assert("correlation"@ != "linear_regression"@);
                    assert("correlation"@.len() != "time_series_forecast"@.len());
                    assert("correlation"@ != "time_series_forecast"@);
                    assert("correlation"@.len() != "moving_average"@.len());
                    assert("correlation"@ != "moving_average"@);
                    assert("correlation"@.len() != "exponential_smoothing"@.len());
                    assert("correlation"@ != "exponential_smoothing"@);
                    assert("correlation"@.len() != "seasonal_decompose"@.len());
                    assert("correlation"@ != "seasonal_decompose"@);
                    assert("correlation"@.len() != "outlier_detection"@.len());
                    assert("correlation"@ != "outlier_detection"@);
                    assert("correlation"@.len() != "trend_analysis"@.len());
                    assert("correlation"@ != "trend_analysis"@);
                    assert("correlation"@.len() != "hypothesis_test"@.len());
                    assert("correlation"@ != "hypothesis_test"@);
                    assert("correlation"@.len() != "distribution_fit"@.len());
                    assert("correlation"@ != "distribution_fit"@);
                    assert(functions@[name] == AnalyticsFunctionKind::Correlation);
                } else if name == "linear_regression"@ {
                    assert("linear_regression"@.len() != "time_series_forecast"@.len());
                    assert("linear_regression"@ != "time_series_forecast"@);
                    assert("linear_regression"@.len() != "moving_average"@.len());
                    assert("linear_regression"@ != "moving_average"@);
                    assert("linear_regression"@.len() != "exponential_smoothing"@.len());
                    assert("linear_regression"@ != "exponential_smoothing"@);
                    assert("linear_regression"@.len() != "seasonal_decompose"@.len());
                    assert("linear_regression"@ != "seasonal_decompose"@);
                    assert("linear_regression"@[0] != "outlier_detection"@[0]);
                    assert("linear_regression"@ != "outlier_detection"@);
                    assert("linear_regression"@.len() != "trend_analysis"@.len());
                    assert("linear_regression"@ != "trend_analysis"@);
                    assert("linear_regression"@.len() != "hypothesis_test"@.len());
                    assert("linear_regression"@ != "hypothesis_test"@);
                    assert("linear_regression"@.len() != "distribution_fit"@.len());
                    assert("linear_regression"@ != "distribution_fit"@);
                    assert(functions@[name] == AnalyticsFunctionKind::LinearRegression);
                } else if name == "time_series_forecast"@ {
                    assert("time_series_forecast"@.len() != "moving_average"@.len());
                    assert("time_series_forecast"@ != "moving_average"@);
                    assert("time_series_forecast"@.len() != "exponential_smoothing"@.len());
                    assert("time_series_forecast"@ != "exponential_smoothing"@);
                    assert("time_series_forecast"@.len() != "seasonal_decompose"@.len());
                    assert("time_series_forecast"@ != "seasonal_decompose"@);
                    assert("time_series_forecast"@.len() != "outlier_detection"@.len());
                    assert("time_series_forecast"@ != "outlier_detection"@);
                    assert("time_series_forecast"@.len() != "trend_analysis"@.len());
                    assert("time_series_forecast"@ != "trend_analysis"@);
                    assert("time_series_forecast"@.len() != "hypothesis_test"@.len());
                    assert("time_series_forecast"@ != "hypothesis_test"@);
                    assert("time_series_forecast"@.len() != "distribution_fit"@.len());
                    assert("time_series_forecast"@ != "distribution_fit"@);
                    assert(functions@[name] == AnalyticsFunctionKind::TimeSeriesForecast);
                } else if name == "moving_average"@ {
                    assert("moving_average"@.len() != "exponential_smoothing"@.len());
                    assert("moving_average"@ != "exponential_smoothing"@);
                    assert("moving_average"@.len() != "seasonal_decompose"@.len());
                    assert("moving_average"@ != "seasonal_decompose"@);
                    assert("moving_average"@.len() != "outlier_detection"@.len());
                    assert("moving_average"@ != "outlier_detection"@);
                    assert("moving_average"@[0] != "trend_analysis"@[0]);
                    assert("moving_average"@ != "trend_analysis"@);
                    assert("moving_average"@.len() != "hypothesis_test"@.len());
                    assert("moving_average"@ != "hypothesis_test"@);
                    assert("moving_average"@.len() != "distribution_fit"@.len());
                    assert("moving_average"@ != "distribution_fit"@);
                    assert(functions@[name] == AnalyticsFunctionKind::MovingAverage);
                } else if name == "exponential_smoothing"@ {
                    assert("exponential_smoothing"@.len() != "seasonal_decompose"@.len());
                    assert("exponential_smoothing"@ != "seasonal_decompose"@);
                    assert("exponential_smoothing"@.len() != "outlier_detection"@.len());
                    assert("exponential_smoothing"@ != "outlier_detection"@);
                    assert("exponential_smoothing"@.len() != "trend_analysis"@.len());
                    assert("exponential_smoothing"@ != "trend_analysis"@);
                    assert("exponential_smoothing"@.len() != "hypothesis_test"@.len());
                    assert("exponential_smoothing"@ != "hypothesis_test"@);
                    assert("exponential_smoothing"@.len() != "distribution_fit"@.len());
                    assert("exponential_smoothing"@ != "distribution_fit"@);
                    assert(functions@[name] == AnalyticsFunctionKind::ExponentialSmoothing);
                } else if name == "seasonal_decompose"@ {
                    assert("seasonal_decompose"@.len() != "outlier_detection"@.len());
                    assert("seasonal_decompose"@ != "outlier_detection"@);
                    assert("seasonal_decompose"@.len() != "trend_analysis"@.len());
                    assert("seasonal_decompose"@ != "trend_analysis"@);
                    assert("seasonal_decompose"@.len() != "hypothesis_test"@.len());
                    assert("seasonal_decompose"@ != "hypothesis_test"@);
                    assert("seasonal_decompose"@.len() != "distribution_fit"@.len());
                    assert("seasonal_decompose"@ != "distribution_fit"@);
                    assert(functions@[name] == AnalyticsFunctionKind::SeasonalDecompose);
                } else if name == "outlier_detection"@ {
                    assert("outlier_detection"@.len() != "trend_analysis"@.len());
                    assert("outlier_detection"@ != "trend_analysis"@);
                    assert("outlier_detection"@.len() != "hypothesis_test"@.len());
                    assert("outlier_detection"@ != "hypothesis_test"@);
                    assert("outlier_detection"@.len() != "distribution_fit"@.len());
                    assert("outlier_detection"@ != "distribution_fit"@);
                    assert(functions@[name] == AnalyticsFunctionKind::OutlierDetection);
                } else if name == "trend_analysis"@ {
                    assert("trend_analysis"@.len() != "hypothesis_test"@.len());
                    assert("trend_analysis"@ != "hypothesis_test"@);
                    assert("trend_analysis"@.len() != "distribution_fit"@.len());
                    assert("trend_analysis"@ != "distribution_fit"@);
                    assert(functions@[name] == AnalyticsFunctionKind::TrendAnalysis);
                } else if name == "hypothesis_test"@ {
                    assert("hypothesis_test"@.len() != "distribution_fit"@.len());
                    assert("hypothesis_test"@ != "distribution_fit"@);
                    assert(functions@[name] == AnalyticsFunctionKind::HypothesisTest);
                } else if name == "distribution_fit"@ {
                    assert(functions@[name] == AnalyticsFunctionKind::DistributionFit);
                }
            }
        }
        AnalyticsFunctionRegistry { functions }
    }

    /// The function registered under `name`, or an error naming it.
    pub fn function_for(&self, name: &str) -> (r: Result<AnalyticsFunctionKind, AnalyticsFunctionError>)
        ensures
            self.registered().contains_key(name@) ==> r == Ok::<AnalyticsFunctionKind, AnalyticsFunctionError>(self.registered()[name@]),
            !self.registered().contains_key(name@) ==> (r matches Err(AnalyticsFunctionError::InvalidArgument(m)) && m@ == "Unknown analytics function: "@ + name@),
    {
        match self.functions.get(name) {
            Some(k) => Ok(*k),
            None => {
                let mut m = owned("Unknown analytics function: ");
                crate::text::push_text(&mut m, name);
                Err(AnalyticsFunctionError::InvalidArgument(m))
            },
        }
    }

    /// The registered names.
    pub fn list_functions(&self) -> (r: Vec<String>)
        ensures
            r@.len() == self.registered().len(),
            forall|k: Seq<char>| self.registered().contains_key(k) <==> crate::text::contains_text(r@, k),
    {
        self.functions.key_list()
    }
}

} // verus!
