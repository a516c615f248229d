//! Run configuration: the algorithm, the threshold policy, and their eager
//! validation.
//!
//! A configuration error is fatal and raised before any row is scanned.

use vstd::prelude::*;
use crate::algorithm::Algorithm;
use crate::metrics::SIMILARITY_SCALE;

verus! {

/// A fatal configuration error, raised before scanning starts.
#[derive(Debug, Clone, PartialEq, Eq)]
pub enum ConfigError {
    /// The maximum-edits cutoff is negative.
    NegativeMaxEdits,
    /// The similarity threshold lies outside the scale (`0.0` to `1.0`).
    ThresholdOutOfRange,
    /// An edits cutoff was given for an algorithm that yields no edit count.
    EditsCutoffForSimilarityAlgorithm,
    /// A configured column is missing from the header; carries the name.
    ColumnNotFound(String),
}

/// The validated configuration of one scan run.
#[derive(Debug, Clone, PartialEq)]
pub struct RunConfig {
    /// The comparison algorithm, fixed for the whole run.
    pub algorithm: Algorithm,
    /// Keep a candidate when its edit count is at most this; only meaningful
    /// for edit-based algorithms. Takes precedence over the threshold.
    pub max_edits: Option<u32>,
    /// Keep a candidate when its similarity, in ten-thousandths, is at least
    /// this.
    pub min_similarity: Option<u32>,
}

impl RunConfig {
    /// Well-formedness: an edits cutoff only accompanies an edit-based
    /// algorithm, and the threshold stays within the scale.
    pub open spec fn wf(self) -> bool {
        &&& (self.max_edits matches Some(_) ==> self.algorithm.edit_based())
        &&& (self.min_similarity matches Some(t) ==> t <= SIMILARITY_SCALE)
    }
}

/// The threshold policy: with an edits cutoff, keep a candidate whose edit
/// count is within it; else with a threshold, keep one whose similarity
/// reaches it; with neither, keep every candidate.
pub open spec fn keeps(cfg: RunConfig, edits: nat, similarity: nat) -> bool {
    match cfg.max_edits {
        Some(me) => edits <= me,
        None => match cfg.min_similarity {
            Some(t) => similarity >= t,
            None => true,
        },
    }
}

/// What validation yields: the first error among a negative cutoff, a
/// threshold outside the scale, and a cutoff for a similarity algorithm;
/// otherwise the validated configuration.
pub open spec fn spec_validate(
    algorithm: Algorithm,
    max_edits: Option<i32>,
    min_similarity: Option<i64>,
) -> Result<RunConfig, ConfigError> {
    if max_edits matches Some(me) && me < 0 {
        Err(ConfigError::NegativeMaxEdits)
    } else if min_similarity matches Some(t) && !(0 <= t <= SIMILARITY_SCALE) {
        Err(ConfigError::ThresholdOutOfRange)
    } else if max_edits matches Some(_) && !algorithm.edit_based() {
        Err(ConfigError::EditsCutoffForSimilarityAlgorithm)
    } else {
        Ok(
            RunConfig {
                algorithm,
                max_edits: match max_edits {
                    Some(me) => Some(me as u32),
                    None => None,
                },
                min_similarity: match min_similarity {
                    Some(t) => Some(t as u32),
                    None => None,
                },
            },
        )
    }
}

/// Validates a run configuration eagerly, before any row is scanned. The
/// threshold is given in ten-thousandths of a similarity point.
pub fn validate_config(
    algorithm: Algorithm,
    max_edits: Option<i32>,
    min_similarity: Option<i64>,
) -> (r: Result<RunConfig, ConfigError>)
    ensures
        r == spec_validate(algorithm, max_edits, min_similarity),
        r matches Ok(cfg) ==> cfg.wf(),
{
    if let Some(me) = max_edits {
        if me < 0 {
            return Err(ConfigError::NegativeMaxEdits);
        }
    }
    if let Some(t) = min_similarity {
        if t < 0 || t > SIMILARITY_SCALE as i64 {
            return Err(ConfigError::ThresholdOutOfRange);
        }
    }
    let has_cutoff = match max_edits {
        Some(_) => true,
        None => false,
    };
    if has_cutoff && !algorithm.is_edits() {
        return Err(ConfigError::EditsCutoffForSimilarityAlgorithm);
    }
    Ok(
        RunConfig {
            algorithm,
            max_edits: match max_edits {
                Some(me) => Some(me as u32),
                None => None,
            },
            min_similarity: match min_similarity {
                Some(t) => Some(t as u32),
                None => None,
            },
        },
    )
}

/// Whether a candidate with the given edit count and similarity passes the
/// threshold policy.
pub fn passes_threshold(cfg: &RunConfig, edits: u64, similarity: u32) -> (r: bool)
    ensures
        r == keeps(*cfg, edits as nat, similarity as nat),
{
    match cfg.max_edits {
        Some(me) => edits <= me as u64,
        None => match cfg.min_similarity {
            Some(t) => similarity >= t,
            None => true,
        },
    }
}

} // verus!
