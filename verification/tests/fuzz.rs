use trdelnik::fuzz::builder::{choose_flows, plan_sequence, BuilderState, SequenceStep};
use trdelnik::fuzz::commander::{
    ends_with_rs, fuzz_test_binary_name, fuzz_test_file_name, Commander, Error,
};
use trdelnik::fuzz::random::{
    random_bool, random_bytes, random_i64, random_string, random_u64,
};
use trdelnik::fuzz::writer::MemoryWriter;

#[test]
fn fuzz_test_files_have_the_rs_extension() {
    assert_eq!(fuzz_test_file_name("fuzz_0".to_string()), "fuzz_0.rs");
    assert_eq!(fuzz_test_file_name("fuzz_0.rs".to_string()), "fuzz_0.rs");
    assert_eq!(fuzz_test_file_name("rs".to_string()), "rs.rs");
    assert_eq!(fuzz_test_binary_name("fuzz_0"), "fuzz_0");
    assert_eq!(fuzz_test_binary_name("fuzz_0.rs"), "fuzz_0");
    assert_eq!(fuzz_test_binary_name(".rs"), "");
    assert!(ends_with_rs("a.rs"));
    assert!(!ends_with_rs("ars"));
}

#[test]
fn new_fuzz_test_plan() {
    let commander = Commander::default();
    let plan = commander.new_fuzz_test("counter".to_string(), true).unwrap();
    assert_eq!(plan.file_name, "counter.rs");
    assert_eq!(plan.test_path, "fuzz-tests/counter.rs");
    assert_eq!(plan.binary_name, "counter");
    assert_eq!(
        plan.cargo_entry,
        "\n[[bin]]\nname = \"counter\"\npath = \"fuzz-tests/counter.rs\"\ntest = false\ndoc = false\n            "
    );
    let with_extension = commander.new_fuzz_test("counter.rs".to_string(), true).unwrap();
    assert_eq!(with_extension.file_name, "counter.rs");
    assert_eq!(with_extension.binary_name, "counter");
}

#[test]
fn a_created_fuzz_test_runs_by_its_name() {
    let commander = Commander::default();
    for name in ["counter", "counter.rs"] {
        let plan = commander.new_fuzz_test(name.to_string(), true).unwrap();
        let args = commander.run_fuzz_test_args(name);
        assert_eq!(args[2], plan.binary_name);
        assert!(plan.cargo_entry.contains(&format!("name = \"{}\"", args[2])));
    }
}

#[test]
fn new_fuzz_test_outside_the_workspace() {
    let commander = Commander::default();
    assert!(matches!(
        commander.new_fuzz_test("counter".to_string(), false),
        Err(Error::BadWorkspace)
    ));
}

#[test]
fn run_fuzz_test_command() {
    let commander = Commander::default();
    assert_eq!(
        commander.run_fuzz_test_args("counter"),
        vec!["run".to_string(), "--bin".to_string(), "counter".to_string()]
    );
}

#[test]
fn random_values_lie_in_their_ranges() {
    for _ in 0..500 {
        let i = random_i64(-5, 5);
        assert!((-5..=5).contains(&i));
        let u = random_u64(10, 12);
        assert!((10..=12).contains(&u));
        let s = random_string(3, 8);
        assert!((3..=8).contains(&s.len()));
        assert!(s.chars().all(|c| c.is_ascii_alphanumeric()));
        let b = random_bytes(0, 4);
        assert!(b.len() <= 4);
        let _ = random_bool();
    }
    assert_eq!(random_u64(7, 7), 7);
    assert_eq!(random_string(16, 16).len(), 16);
    assert_eq!(random_bytes(32, 32).len(), 32);
}

#[test]
fn memory_writer_appends() {
    let mut writer = MemoryWriter::new();
    assert!(writer.buf().is_empty());
    assert_eq!(writer.write(b"abc"), 3);
    assert_eq!(writer.write(b"de"), 2);
    writer.flush();
    assert_eq!(writer.buf(), &b"abcde".to_vec());
}

#[test]
fn sequence_report_picks_the_blocks_of_the_sequence() {
    let mut writer = MemoryWriter::new();
    let log = "start curr_sequence_number=1\n\nother curr_sequence_number=2\n\n\x1b[1mcurr_sequence_number\x1b[0m=1 end";
    writer.write(log.as_bytes());
    let report = String::from_utf8(writer.sequence_report(1)).unwrap();
    assert_eq!(
        report,
        format!(
            "Printing {} bytes:\nChecking for curr_sequence_number=1\nstart curr_sequence_number=1\n\n\x1b[1mcurr_sequence_number\x1b[0m=1 end\n\n",
            log.len()
        )
    );
    let none = String::from_utf8(writer.sequence_report(3)).unwrap();
    assert_eq!(none, format!("Printing {} bytes:\nChecking for curr_sequence_number=3\n", log.len()));
}

#[test]
fn sequence_report_of_an_empty_log() {
    let writer = MemoryWriter::new();
    let report = String::from_utf8(writer.sequence_report(0)).unwrap();
    assert_eq!(report, "Printing 0 bytes:\nChecking for curr_sequence_number=0\n");
}

#[test]
fn flows_are_chosen_among_the_registered() {
    let flows = choose_flows(200, 3);
    assert_eq!(flows.len(), 200);
    assert!(flows.iter().all(|f| *f < 3));
    assert!(choose_flows(0, 0).is_empty());
}

#[test]
fn each_flow_is_followed_by_every_invariant() {
    let steps = plan_sequence(2, 2, &vec![1, 0]);
    assert_eq!(
        steps,
        vec![
            SequenceStep::Init(0),
            SequenceStep::Init(1),
            SequenceStep::Flow(1),
            SequenceStep::Invariant(0),
            SequenceStep::Invariant(1),
            SequenceStep::Flow(0),
            SequenceStep::Invariant(0),
            SequenceStep::Invariant(1),
        ]
    );
    assert!(plan_sequence(0, 3, &vec![]).is_empty());
}

#[test]
fn a_started_builder_plans_its_sequences() {
    let mut builder = BuilderState::new();
    assert!(!builder.is_started());
    builder.add_init_handler();
    builder.add_flow();
    builder.add_flow();
    builder.add_invariant();
    builder.with_state();
    assert!(!builder.start());
    assert!(builder.is_started());
    builder.initialize_validator();
    assert!(builder.start());
    let steps = builder.plan(3).unwrap();
    assert_eq!(steps.len(), 1 + 3 * 2);
    assert_eq!(steps[0], SequenceStep::Init(0));
    for k in 0..3 {
        assert!(matches!(steps[1 + 2 * k], SequenceStep::Flow(f) if f < 2));
        assert_eq!(steps[2 + 2 * k], SequenceStep::Invariant(0));
    }
}

#[test]
fn a_builder_without_flows_plans_no_flows() {
    let mut builder = BuilderState::new();
    builder.add_invariant();
    builder.initialize_validator();
    assert!(builder.start());
    assert!(builder.plan(1).is_none());
    assert_eq!(builder.plan(0).unwrap(), vec![]);
}
