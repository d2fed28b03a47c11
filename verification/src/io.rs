//! Metadata that marks output as having been produced by this version of
//! STEPS, and the carriers the writing layer threads its sinks through
//!
//! The writing itself — files, JSON and CSV encoding — is the front end's
//! business; the core only fixes what the headers must say and when a
//! recorded version is acceptable for reproducing a run.

use vstd::prelude::*;

verus! {

/// Type of output to produce
#[derive(Copy, Clone, Debug, PartialEq, Eq, Structural)]
pub enum OutputMode {
    /// Full lineage data for each lineage, as line-delimited JSON
    Raw,
    /// Population summary information only, as CSV
    Summary,
    /// Full data about each mutation that occurs, as line-delimited JSON
    Sequencing,
    /// Summary information about mutations, as CSV
    MutationSummary,
}

/// The version of STEPS that this build stamps on its output
pub open spec fn current_version() -> Seq<char> {
    "0.1.0"@
}

/// The name stamped on output headers
pub open spec fn current_name() -> Seq<char> {
    "STEPS"@
}

/// The description stamped on output headers
pub open spec fn current_description() -> Seq<char> {
    "STEPS simulation of bacterial evolution written by Devin Lake and Zachary Matson"@
}

/// Get the current version of STEPS
pub fn get_current_version_str() -> (r: &'static str)
    ensures
        r@ == current_version(),
{
    "0.1.0"
}

/// Information used to mark output files as having been created by a
/// specific version of STEPS
#[derive(Debug)]
pub struct Metadata {
    /// Name of the producing program
    pub name: String,
    /// Version of the producing program
    pub version: String,
    /// Human-readable description of the producing program
    pub description: String,
    /// What kind of output follows the header
    pub output_mode: OutputMode,
}

impl Metadata {
    /// Construct a new `Metadata` instance based on the current version of
    /// the code and the desired `OutputMode`
    pub fn new(output_mode: OutputMode) -> (r: Self)
        ensures
            r.name@ == current_name(),
            r.version@ == current_version(),
            r.description@ == current_description(),
            r.output_mode == output_mode,
    {
        Metadata {
            name: "STEPS".to_owned(),
            version: get_current_version_str().to_owned(),
            description:
                "STEPS simulation of bacterial evolution written by Devin Lake and Zachary Matson".to_owned(),
            output_mode,
        }
    }

    /// Whether this metadata names the version that the running build
    /// produces, so that a recorded configuration may be reproduced with it
    pub fn version_matches(&self) -> (r: bool)
        ensures
            r == (self.version@ == current_version()),
    {
        let current: String = get_current_version_str().to_owned();
        self.version == current
    }
}

/// Type which outputs data for the `Raw` `OutputMode`: full lineage rows
/// around a writer that the front end supplies
#[derive(Debug)]
pub struct RawOutputter<W> {
    /// Writer to write data into
    pub writer: W,
}

impl<W> RawOutputter<W> {
    /// Consume the outputter and get back the underlying `writer`
    ///
    /// Will not necessarily flush the writer
    pub fn into_inner(self) -> (r: W)
        ensures
            r == self.writer,
    {
        self.writer
    }
}

/// Type which outputs data for the `Sequencing` `OutputMode`: full mutation
/// records around a writer that the front end supplies
#[derive(Debug)]
pub struct SequencingOutputter<W> {
    /// Writer to write data into
    pub writer: W,
    /// Last replicate written, used to deliminate replicate ends
    pub last_replicate: u32,
}

impl<W> SequencingOutputter<W> {
    /// Consume the outputter and get back the underlying `writer`
    ///
    /// Will not necessarily flush the writer
    pub fn into_inner(self) -> (r: W)
        ensures
            r == self.writer,
    {
        self.writer
    }
}

} // verus!
