//! Output metadata and the version gate for reproducing runs

use steps_core::io::{
    get_current_version_str, Metadata, OutputMode, RawOutputter, SequencingOutputter,
};

#[test]
fn headers_carry_the_program_name_and_version() {
    let meta = Metadata::new(OutputMode::Summary);
    assert_eq!(meta.name, "STEPS");
    assert_eq!(meta.version, get_current_version_str());
    assert!(matches!(meta.output_mode, OutputMode::Summary));
    assert!(!meta.description.is_empty());
}

#[test]
fn only_the_running_version_is_accepted_for_reproduction() {
    let meta = Metadata::new(OutputMode::Raw);
    assert!(meta.version_matches());

    let stale = Metadata { version: "0.0.9".to_owned(), ..Metadata::new(OutputMode::Raw) };
    assert!(!stale.version_matches());
}

#[test]
fn outputters_give_their_writers_back() {
    let raw = RawOutputter { writer: vec![1u8, 2, 3] };
    assert_eq!(raw.into_inner(), vec![1u8, 2, 3]);

    let seq = SequencingOutputter { writer: String::from("header"), last_replicate: 1 };
    assert_eq!(seq.last_replicate, 1);
    assert_eq!(seq.into_inner(), "header");
}
