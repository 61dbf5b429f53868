//! The result of the analysis of one line of command output.
use vstd::prelude::*;
use crate::analysis::line_type::{Kind, LineType};

verus! {

/// The type of a line and, for lines about a test, the test's key
#[derive(Debug)]
pub struct LineAnalysis {
    pub line_type: LineType,
    pub key: Option<String>,
}

/// What a line analysis stands for
pub struct LineAnalysisView {
    pub line_type: LineType,
    pub key: Option<Seq<char>>,
}

impl View for LineAnalysis {
    type V = LineAnalysisView;

    open spec fn view(&self) -> LineAnalysisView {
        LineAnalysisView {
            line_type: self.line_type,
            key: match self.key {
                Some(k) => Some(k@),
                None => None,
            },
        }
    }
}

pub open spec fn analysis_of_type(line_type: LineType) -> LineAnalysisView {
    LineAnalysisView { line_type, key: None }
}

pub open spec fn analysis_with_key(line_type: LineType, key: Seq<char>) -> LineAnalysisView {
    LineAnalysisView { line_type, key: Some(key) }
}

impl LineAnalysis {
    pub fn normal() -> (r: Self)
        ensures
            r@ == analysis_of_type(LineType::Normal),
    {
        LineAnalysis { line_type: LineType::Normal, key: None }
    }

    pub fn garbage() -> (r: Self)
        ensures
            r@ == analysis_of_type(LineType::Garbage),
    {
        LineAnalysis { line_type: LineType::Garbage, key: None }
    }

    pub fn of_type(line_type: LineType) -> (r: Self)
        ensures
            r@ == analysis_of_type(line_type),
    {
        LineAnalysis { line_type, key: None }
    }

    pub fn title_key(kind: Kind, key: String) -> (r: Self)
        ensures
            r@ == analysis_with_key(LineType::Title(kind), key@),
    {
        LineAnalysis { line_type: LineType::Title(kind), key: Some(key) }
    }

    pub fn fail(key: String) -> (r: Self)
        ensures
            r@ == analysis_with_key(LineType::Title(Kind::TestFail), key@),
    {
        LineAnalysis { line_type: LineType::Title(Kind::TestFail), key: Some(key) }
    }

    pub fn test_result(key: String, success: bool) -> (r: Self)
        ensures
            r@ == analysis_with_key(LineType::TestResult(success), key@),
    {
        LineAnalysis { line_type: LineType::TestResult(success), key: Some(key) }
    }
}

} // verus!
