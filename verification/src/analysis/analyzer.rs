//! Analyzers: builders of reports from the lines of command output.
use vstd::prelude::*;
use crate::analysis::biome::{biome_report_lines, BiomeAnalyzer};
use crate::analysis::cpp::{cpp_line_ok, cpp_report_lines, doctest_report_lines, CppAnalyzer, CppDoctestAnalyzer};
use crate::analysis::eslint::{eslint_report_lines, EslintAnalyzer};
use crate::analysis::go::{go_report_lines, GoAnalyzer};
use crate::analysis::nextest::{nextest_analyses, nextest_report_lines, NextestAnalyzer};
use crate::analysis::python::pytest::{pytest_report_lines, PytestAnalyzer};
use crate::analysis::python::ruff::{ruff_report_lines, RuffAnalyzer};
use crate::analysis::python::unittest::{unittest_report_lines, UnittestAnalyzer};
use crate::analysis::standard::{standard_report_lines, StandardAnalyzer};
use crate::analysis::standard::standard_line_analyser::standard_analyses;
use crate::analysis::standard::standard_report_building::{failed_keys, std_final};
use crate::analysis::swift::lint::{swiftlint_report_lines, SwiftLintAnalyzer};
use crate::analysis::swift::swift_build::{swift_build_report_lines, SwiftBuildAnalyzer};
use crate::command_output::{CommandOutput, CommandOutputLine, CommandOutputLineView};
use crate::report::{lines_view, stats_of, strings_view, LineView, Report};

verus! {

/// A problem met while building a report
pub struct AnalysisError {
    pub message: String,
}

/// An operator building a report from the lines of a command output
pub trait Analyzer {
    /// Forget the lines of a previous execution
    fn start(&mut self);

    /// Take a line, storing it in the command output
    fn receive_line(&mut self, line: CommandOutputLine, command_output: &mut CommandOutput);

    /// The report of the received lines
    fn build_report(&mut self) -> Result<Report, AnalysisError>;
}

/// The kinds of analyzers, which a job chooses by name
#[derive(Debug, Clone, Copy, PartialEq, Eq, Structural)]
pub enum AnalyzerRef {
    Standard,
    Biome,
    CargoJson,
    Cpp,
    CppDoctest,
    Eslint,
    Go,
    Nextest,
    PythonPytest,
    PythonRuff,
    PythonUnittest,
    SwiftBuild,
    SwiftLint,
    Typescript,
}

impl Default for AnalyzerRef {
    fn default() -> (r: Self)
        ensures
            r == AnalyzerRef::Standard,
    {
        AnalyzerRef::Standard
    }
}

/// An analyzer of any of the kinds this library holds
pub enum AnyAnalyzer {
    Standard(StandardAnalyzer),
    Biome(BiomeAnalyzer),
    Cpp(CppAnalyzer),
    CppDoctest(CppDoctestAnalyzer),
    Eslint(EslintAnalyzer),
    Go(GoAnalyzer),
    Nextest(NextestAnalyzer),
    PythonPytest(PytestAnalyzer),
    PythonRuff(RuffAnalyzer),
    PythonUnittest(UnittestAnalyzer),
    SwiftBuild(SwiftBuildAnalyzer),
    SwiftLint(SwiftLintAnalyzer),
}

/// The lines of the report that the analyzer of the given kind builds from
/// the lines of a command output
pub open spec fn report_lines_of(kind: AnalyzerRef, lines: Seq<CommandOutputLineView>) -> Seq<
    LineView,
> {
    match kind {
        AnalyzerRef::Standard => standard_report_lines(lines),
        AnalyzerRef::Biome => biome_report_lines(lines),
        AnalyzerRef::Cpp => cpp_report_lines(lines),
        AnalyzerRef::CppDoctest => doctest_report_lines(lines),
        AnalyzerRef::Eslint => eslint_report_lines(lines),
        AnalyzerRef::Go => go_report_lines(lines),
        AnalyzerRef::Nextest => nextest_report_lines(lines),
        AnalyzerRef::PythonPytest => pytest_report_lines(lines),
        AnalyzerRef::PythonRuff => ruff_report_lines(lines),
        AnalyzerRef::PythonUnittest => unittest_report_lines(lines),
        AnalyzerRef::SwiftBuild => swift_build_report_lines(lines),
        AnalyzerRef::SwiftLint => swiftlint_report_lines(lines),
        AnalyzerRef::CargoJson | AnalyzerRef::Typescript => Seq::empty(),
    }
}

/// What a report of the given kind of analyzer tells beside its lines:
/// whether it suggests a backtrace, whether tests passed, and the keys of
/// the failed tests. Only the analyzers of cargo's outputs and of nextest
/// find them.
pub open spec fn report_extras_of(kind: AnalyzerRef, lines: Seq<CommandOutputLineView>) -> (
    bool,
    bool,
    Seq<Seq<char>>,
) {
    match kind {
        AnalyzerRef::Standard => {
            let f = std_final(standard_analyses(lines));
            (f.suggest_backtrace, f.passed_tests > 0, failed_keys(f.tests))
        },
        AnalyzerRef::Nextest => {
            let f = std_final(nextest_analyses(lines));
            (f.suggest_backtrace, f.passed_tests > 0, failed_keys(f.tests))
        },
        _ => (false, false, Seq::empty()),
    }
}

impl AnyAnalyzer {
    /// The kind of the analyzer
    pub open spec fn kind(&self) -> AnalyzerRef {
        match self {
            AnyAnalyzer::Standard(_) => AnalyzerRef::Standard,
            AnyAnalyzer::Biome(_) => AnalyzerRef::Biome,
            AnyAnalyzer::Cpp(_) => AnalyzerRef::Cpp,
            AnyAnalyzer::CppDoctest(_) => AnalyzerRef::CppDoctest,
            AnyAnalyzer::Eslint(_) => AnalyzerRef::Eslint,
            AnyAnalyzer::Go(_) => AnalyzerRef::Go,
            AnyAnalyzer::Nextest(_) => AnalyzerRef::Nextest,
            AnyAnalyzer::PythonPytest(_) => AnalyzerRef::PythonPytest,
            AnyAnalyzer::PythonRuff(_) => AnalyzerRef::PythonRuff,
            AnyAnalyzer::PythonUnittest(_) => AnalyzerRef::PythonUnittest,
            AnyAnalyzer::SwiftBuild(_) => AnalyzerRef::SwiftBuild,
            AnyAnalyzer::SwiftLint(_) => AnalyzerRef::SwiftLint,
        }
    }

    /// The lines received since the start
    pub open spec fn received(&self) -> Seq<CommandOutputLineView> {
        match self {
            AnyAnalyzer::Standard(a) => a.received(),
            AnyAnalyzer::Biome(a) => a.received(),
            AnyAnalyzer::Cpp(a) => a.received(),
            AnyAnalyzer::CppDoctest(a) => a.received(),
            AnyAnalyzer::Eslint(a) => a.received(),
            AnyAnalyzer::Go(a) => a.received(),
            AnyAnalyzer::Nextest(a) => a.received(),
            AnyAnalyzer::PythonPytest(a) => a.received(),
            AnyAnalyzer::PythonRuff(a) => a.received(),
            AnyAnalyzer::PythonUnittest(a) => a.received(),
            AnyAnalyzer::SwiftBuild(a) => a.received(),
            AnyAnalyzer::SwiftLint(a) => a.received(),
        }
    }
}

impl Analyzer for AnyAnalyzer {
    fn start(&mut self)
        ensures
            final(self).kind() == old(self).kind(),
            final(self).received() == Seq::<CommandOutputLineView>::empty(),
    {
        match self {
            AnyAnalyzer::Standard(a) => a.start(),
            AnyAnalyzer::Biome(a) => a.start(),
            AnyAnalyzer::Cpp(a) => a.start(),
            AnyAnalyzer::CppDoctest(a) => a.start(),
            AnyAnalyzer::Eslint(a) => a.start(),
            AnyAnalyzer::Go(a) => a.start(),
            AnyAnalyzer::Nextest(a) => a.start(),
            AnyAnalyzer::PythonPytest(a) => a.start(),
            AnyAnalyzer::PythonRuff(a) => a.start(),
            AnyAnalyzer::PythonUnittest(a) => a.start(),
            AnyAnalyzer::SwiftBuild(a) => a.start(),
            AnyAnalyzer::SwiftLint(a) => a.start(),
        }
    }

    fn receive_line(&mut self, line: CommandOutputLine, command_output: &mut CommandOutput)
        ensures
            final(self).kind() == old(self).kind(),
            final(self).received() == old(self).received().push(line@),
            final(command_output)@ == old(command_output)@.push(line@),
    {
        match self {
            AnyAnalyzer::Standard(a) => a.receive_line(line, command_output),
            AnyAnalyzer::Biome(a) => a.receive_line(line, command_output),
            AnyAnalyzer::Cpp(a) => a.receive_line(line, command_output),
            AnyAnalyzer::CppDoctest(a) => a.receive_line(line, command_output),
            AnyAnalyzer::Eslint(a) => a.receive_line(line, command_output),
            AnyAnalyzer::Go(a) => a.receive_line(line, command_output),
            AnyAnalyzer::Nextest(a) => a.receive_line(line, command_output),
            AnyAnalyzer::PythonPytest(a) => a.receive_line(line, command_output),
            AnyAnalyzer::PythonRuff(a) => a.receive_line(line, command_output),
            AnyAnalyzer::PythonUnittest(a) => a.receive_line(line, command_output),
            AnyAnalyzer::SwiftBuild(a) => a.receive_line(line, command_output),
            AnyAnalyzer::SwiftLint(a) => a.receive_line(line, command_output),
        }
    }

    fn build_report(&mut self) -> (r: Result<Report, AnalysisError>)
        ensures
            final(self).kind() == old(self).kind(),
            final(self).received() == old(self).received(),
            match r {
                Ok(report) => lines_view(report.lines@) == report_lines_of(
                    old(self).kind(),
                    old(self).received(),
                ) && report.stats == stats_of(
                    report_lines_of(old(self).kind(), old(self).received()),
                ) && (report.suggest_backtrace, report.has_passed_tests, strings_view(
                    report.failure_keys@,
                )) == report_extras_of(old(self).kind(), old(self).received()),
                Err(_) => old(self).kind() == AnalyzerRef::Cpp && exists|i: int|
                    0 <= i < old(self).received().len() && !cpp_line_ok(
                        #[trigger] old(self).received()[i].content,
                    ),
            },
    {
        match self {
            AnyAnalyzer::Standard(a) => a.build_report(),
            AnyAnalyzer::Biome(a) => a.build_report(),
            AnyAnalyzer::Cpp(a) => a.build_report(),
            AnyAnalyzer::CppDoctest(a) => a.build_report(),
            AnyAnalyzer::Eslint(a) => a.build_report(),
            AnyAnalyzer::Go(a) => a.build_report(),
            AnyAnalyzer::Nextest(a) => a.build_report(),
            AnyAnalyzer::PythonPytest(a) => a.build_report(),
            AnyAnalyzer::PythonRuff(a) => a.build_report(),
            AnyAnalyzer::PythonUnittest(a) => a.build_report(),
            AnyAnalyzer::SwiftBuild(a) => a.build_report(),
            AnyAnalyzer::SwiftLint(a) => a.build_report(),
        }
    }
}

impl AnalyzerRef {
    /// A new analyzer of this kind, without received line; none for the
    /// kinds whose analyzers this library doesn't hold (cargo's JSON output
    /// and typescript)
    pub fn create_analyzer(self) -> (r: Option<AnyAnalyzer>)
        ensures
            match r {
                Some(a) => a.kind() == self && a.received() == Seq::<CommandOutputLineView>::empty(),
                None => self == AnalyzerRef::CargoJson || self == AnalyzerRef::Typescript,
            },
    {
        match self {
            Self::Standard => Some(AnyAnalyzer::Standard(StandardAnalyzer::default())),
            Self::Biome => Some(AnyAnalyzer::Biome(BiomeAnalyzer::default())),
            Self::CargoJson => None,
            Self::Cpp => Some(AnyAnalyzer::Cpp(CppAnalyzer::new())),
            Self::CppDoctest => Some(AnyAnalyzer::CppDoctest(CppDoctestAnalyzer::new())),
            Self::Eslint => Some(AnyAnalyzer::Eslint(EslintAnalyzer::default())),
            Self::Go => Some(AnyAnalyzer::Go(GoAnalyzer::default())),
            Self::Nextest => Some(AnyAnalyzer::Nextest(NextestAnalyzer::default())),
            Self::PythonPytest => Some(AnyAnalyzer::PythonPytest(PytestAnalyzer::default())),
            Self::PythonRuff => Some(AnyAnalyzer::PythonRuff(RuffAnalyzer::default())),
            Self::PythonUnittest => Some(AnyAnalyzer::PythonUnittest(UnittestAnalyzer::default())),
            Self::SwiftBuild => Some(AnyAnalyzer::SwiftBuild(SwiftBuildAnalyzer::new())),
            Self::SwiftLint => Some(AnyAnalyzer::SwiftLint(SwiftLintAnalyzer::new())),
            Self::Typescript => None,
        }
    }
}

} // verus!
