//! The algorithm registry: the closed set of string-comparison algorithms and
//! the small enums used to configure a run.

use vstd::prelude::*;
use vstd::string::StringExecFns;
use crate::text::upper_char;

verus! {

/// Raised when an invalid value was provided to a selector.
#[derive(Debug, Clone, Copy, PartialEq, Eq, Structural)]
pub struct ValueError;

impl ValueError {
    /// The display text of the error.
    pub fn message(&self) -> (r: String)
        ensures
            r@ == "Received an unexpected value"@,
    {
        String::from_str("Received an unexpected value")
    }
}

/// The available string-comparison algorithms.
#[allow(non_camel_case_types)]
#[derive(Debug, Clone, Copy, PartialEq, Eq, Hash, Structural)]
pub enum Algorithm {
    /// Damerau-Levenshtein edit distance (unrestricted transpositions).
    DAMERAU,
    /// Levenshtein edit distance.
    LEVENSHTEIN,
    /// Jaro-Winkler similarity.
    JAROWINKLER,
    /// Optimal string alignment edit distance.
    OSA,
    /// Sorensen-Dice bigram similarity.
    SORENSENDICE,
}

impl Algorithm {
    /// Whether the algorithm yields an edit count; the others yield a
    /// similarity score with no edit interpretation.
    pub open spec fn edit_based(self) -> bool {
        match self {
            Algorithm::OSA | Algorithm::DAMERAU | Algorithm::LEVENSHTEIN => true,
            Algorithm::JAROWINKLER | Algorithm::SORENSENDICE => false,
        }
    }

    /// Whether the selected algorithm returns an edit distance rather than a
    /// similarity score.
    pub fn is_edits(&self) -> (r: bool)
        ensures
            r == self.edit_based(),
    {
        match self {
            Algorithm::OSA | Algorithm::DAMERAU | Algorithm::LEVENSHTEIN => true,
            Algorithm::JAROWINKLER | Algorithm::SORENSENDICE => false,
        }
    }

    /// The list of algorithm names offered to a user.
    pub fn options() -> (r: Vec<String>)
        ensures
            r@.len() == 5,
            r@[0]@ == "Levenshtein"@,
            r@[1]@ == "Damerau"@,
            r@[2]@ == "OSA"@,
            r@[3]@ == "JaroWinkler"@,
            r@[4]@ == "SorensenDice"@,
    {
        let mut r: Vec<String> = Vec::new();
        r.push(String::from_str("Levenshtein"));
        r.push(String::from_str("Damerau"));
        r.push(String::from_str("OSA"));
        r.push(String::from_str("JaroWinkler"));
        r.push(String::from_str("SorensenDice"));
        r
    }

    /// What parsing a selector yields: only the first character matters,
    /// ASCII case ignored, and an empty selector falls back to Levenshtein.
    pub open spec fn spec_parse(s: Seq<char>) -> Result<Algorithm, ValueError> {
        if s.len() == 0 {
            Ok(Algorithm::LEVENSHTEIN)
        } else {
            let c = upper_char(s[0]);
            if c == 'L' {
                Ok(Algorithm::LEVENSHTEIN)
            } else if c == 'D' {
                Ok(Algorithm::DAMERAU)
            } else if c == 'O' {
                Ok(Algorithm::OSA)
            } else if c == 'J' {
                Ok(Algorithm::JAROWINKLER)
            } else if c == 'S' {
                Ok(Algorithm::SORENSENDICE)
            } else {
                Err(ValueError)
            }
        }
    }

    /// Parses an algorithm selector from the first character of the string.
    pub fn from_str(s: &str) -> (r: Result<Algorithm, ValueError>)
        ensures
            r == Algorithm::spec_parse(s@),
    {
        if s.unicode_len() == 0 {
            return Ok(Algorithm::LEVENSHTEIN);
        }
        let c = s.get_char(0);
        let code = c as u32;
        let upper = if 97 <= code && code <= 122 {
            code - 32
        } else {
            code
        };
        if upper == 76 {
            Ok(Algorithm::LEVENSHTEIN)
        } else if upper == 68 {
            Ok(Algorithm::DAMERAU)
        } else if upper == 79 {
            Ok(Algorithm::OSA)
        } else if upper == 74 {
            Ok(Algorithm::JAROWINKLER)
        } else if upper == 83 {
            Ok(Algorithm::SORENSENDICE)
        } else {
            Err(ValueError)
        }
    }

    /// The algorithm's display name.
    pub open spec fn spec_name(self) -> Seq<char> {
        match self {
            Algorithm::DAMERAU => "Damerau"@,
            Algorithm::LEVENSHTEIN => "Levenshtein"@,
            Algorithm::OSA => "OSA"@,
            Algorithm::JAROWINKLER => "JaroWinkler"@,
            Algorithm::SORENSENDICE => "SorensenDice"@,
        }
    }

    /// The algorithm's display name, as used in serialized output.
    pub fn to_string(&self) -> (r: String)
        ensures
            r@ == self.spec_name(),
    {
        match self {
            Algorithm::DAMERAU => String::from_str("Damerau"),
            Algorithm::LEVENSHTEIN => String::from_str("Levenshtein"),
            Algorithm::OSA => String::from_str("OSA"),
            Algorithm::JAROWINKLER => String::from_str("JaroWinkler"),
            Algorithm::SORENSENDICE => String::from_str("SorensenDice"),
        }
    }
}

/// The serialization format of the output stream.
#[derive(Debug, Clone, Copy, PartialEq, Eq, Structural)]
pub enum OutputFormat {
    JSONL,
    CSV,
}

impl OutputFormat {
    /// What parsing a format selector yields: the whole selector, ASCII case
    /// ignored.
    pub open spec fn spec_parse(s: Seq<char>) -> Result<OutputFormat, ValueError> {
        if s.map_values(|c: char| upper_char(c)) == "JSONL"@ {
            Ok(OutputFormat::JSONL)
        } else if s.map_values(|c: char| upper_char(c)) == "CSV"@ {
            Ok(OutputFormat::CSV)
        } else {
            Err(ValueError)
        }
    }

    /// Parses an output format selector, ignoring case.
    pub fn from_str(s: &str) -> (r: Result<OutputFormat, ValueError>)
        ensures
            r == OutputFormat::spec_parse(s@),
    {
        let up = crate::text::ascii_uppercase(s);
        if up == String::from_str("JSONL") {
            Ok(OutputFormat::JSONL)
        } else if up == String::from_str("CSV") {
            Ok(OutputFormat::CSV)
        } else {
            Err(ValueError)
        }
    }
}

/// The kind of progress indicator a front end shows during a scan.
#[derive(Debug, Clone, Copy, PartialEq, Eq, Structural)]
pub enum ProgressKind {
    Spinner,
    Bar,
}

impl ProgressKind {
    /// What parsing a progress selector yields: exactly "spinner" or "bar".
    pub open spec fn spec_parse(s: Seq<char>) -> Result<ProgressKind, ValueError> {
        if s == "spinner"@ {
            Ok(ProgressKind::Spinner)
        } else if s == "bar"@ {
            Ok(ProgressKind::Bar)
        } else {
            Err(ValueError)
        }
    }

    /// Parses a progress indicator selector.
    pub fn from_str(s: &str) -> (r: Result<ProgressKind, ValueError>)
        ensures
            r == ProgressKind::spec_parse(s@),
    {
        let owned = String::from_str(s);
        if owned == String::from_str("spinner") {
            Ok(ProgressKind::Spinner)
        } else if owned == String::from_str("bar") {
            Ok(ProgressKind::Bar)
        } else {
            Err(ValueError)
        }
    }
}

} // verus!
