use trdelnik::cli::{FuzzCommand, TestOptions};
use trdelnik::client::commander::{
    build_programs_args, expand_package_args, format_args, merge_program_client_manifest,
    is_program_package, program_client_dependencies, program_dependency, run_tests_args,
    trdelnik_dependency, use_statements, Commander, FileItem, ImportsError, ManifestError,
    ModuleItem, RunTestOptions,
};
use trdelnik::client::tester::Tester;

fn strings(v: &[&str]) -> Vec<String> {
    v.iter().map(|s| s.to_string()).collect()
}

fn options(nocapture: bool, nextest: bool, package: Option<&str>) -> RunTestOptions {
    RunTestOptions {
        nocapture,
        nextest,
        package: package.map(|p| p.to_string()),
        test_name: None,
    }
}

#[test]
fn commander_roots() {
    assert_eq!(Commander::new().root(), "../../");
    assert_eq!(Commander::default().root(), "../../");
    assert_eq!(Commander::with_root("./".to_string()).root(), "./");
}

#[test]
fn build_programs_command() {
    assert_eq!(build_programs_args(), strings(&["build-bpf", "--", "-Z", "avoid-dev-deps"]));
}

#[test]
fn run_tests_command_with_cargo_test() {
    assert_eq!(
        run_tests_args(options(false, false, None)),
        strings(&["test", "--package", "trdelnik-tests", "--"])
    );
    assert_eq!(
        run_tests_args(options(true, false, Some("escrow"))),
        strings(&["test", "--package", "trdelnik-tests", "--package", "escrow", "--", "--nocapture"])
    );
}

#[test]
fn run_tests_command_with_nextest() {
    assert_eq!(
        run_tests_args(options(true, true, None)),
        strings(&["nextest", "run", "--package", "trdelnik-tests", "--", "--nocapture"])
    );
}

#[test]
fn expand_and_format_commands() {
    assert_eq!(
        expand_package_args("program_client"),
        strings(&["+nightly", "rustc", "--package", "program_client", "--profile=check", "--", "-Zunpretty=expanded"])
    );
    assert_eq!(format_args(), strings(&["--edition", "2018"]));
}

#[test]
fn program_packages_are_below_programs() {
    assert!(is_program_package(&strings(&["/", "project", "programs", "turnstile", "Cargo.toml"])));
    assert!(!is_program_package(&strings(&["/", "project", "trdelnik-tests", "Cargo.toml"])));
    assert!(!is_program_package(&strings(&["programs", "Cargo.toml"])));
    assert!(is_program_package(&strings(&["programs", "x", "Cargo.toml"])));
}

fn programs(list: &[(&str, &str)]) -> Vec<(String, String)> {
    list.iter().map(|(n, p)| (n.to_string(), p.to_string())).collect()
}

const MANIFEST: &str = "[package]\nname = \"program_client\"\n\n[dependencies]\nescrow = { path = \"../programs/old\" }\n";

#[test]
fn manifest_merge_keeps_existing_entries() {
    let merged = merge_program_client_manifest(
        MANIFEST,
        programs(&[
            ("turnstile", "programs/turnstile"),
            ("escrow", "programs/escrow"),
            ("turnstile", "programs/other"),
        ]),
    )
    .unwrap();
    let document: toml::Value = merged.parse().unwrap();
    let expected: toml::Value = "[package]\nname = \"program_client\"\n\n[dependencies]\n\
        escrow = { path = \"../programs/old\" }\n\
        trdelnik-client = \"0.6.0\"\n\
        turnstile = { path = \"../programs/turnstile\", features = [\"no-entrypoint\"] }\n"
        .parse()
        .unwrap();
    assert_eq!(document, expected);
}

#[test]
fn manifest_merge_a_second_time_adds_nothing() {
    let list = [("turnstile", "programs/turnstile")];
    let once = merge_program_client_manifest(MANIFEST, programs(&list)).unwrap();
    let twice = merge_program_client_manifest(&once, programs(&list)).unwrap();
    assert_eq!(once, twice);
}

#[test]
fn manifest_merge_errors() {
    assert_eq!(
        merge_program_client_manifest("not = toml = at all", vec![]),
        Err(ManifestError::TomlDeserialize)
    );
    assert_eq!(
        merge_program_client_manifest("[package]\nname = \"x\"\n", vec![]),
        Err(ManifestError::NoDependenciesTable)
    );
    assert_eq!(
        merge_program_client_manifest("dependencies = 1\n", vec![]),
        Err(ManifestError::NoDependenciesTable)
    );
    assert_eq!(
        merge_program_client_manifest(MANIFEST, programs(&[("p", "programs/\"p")])),
        Err(ManifestError::InvalidDependencyLine)
    );
}

#[test]
fn dependencies_are_declared_by_lines() {
    let deps = program_client_dependencies(programs(&[("turnstile", "programs/turnstile")]));
    assert_eq!(
        deps,
        vec![
            ("trdelnik-client".to_string(), r#"trdelnik-client = "0.6.0""#.to_string()),
            (
                "turnstile".to_string(),
                r#"turnstile = { path = "../programs/turnstile", features = ["no-entrypoint"] }"#
                    .to_string()
            ),
        ]
    );
    assert_eq!(trdelnik_dependency().0, "trdelnik-client");
    assert_eq!(
        program_dependency("p".to_string(), "programs/p"),
        (
            "p".to_string(),
            r#"p = { path = "../programs/p", features = ["no-entrypoint"] }"#.to_string()
        )
    );
}

#[test]
fn dependency_lines_are_toml() {
    for (name, line) in program_client_dependencies(vec![(
        "turnstile".to_string(),
        "programs/turnstile".to_string(),
    )]) {
        let value: toml::Value = line.parse().unwrap();
        let table = value.as_table().unwrap();
        assert_eq!(table.len(), 1);
        assert!(table.contains_key(&name));
    }
}

#[test]
fn use_statements_default_when_none_kept() {
    let items = vec![FileItem::Other, FileItem::Module(Some(vec![ModuleItem::Other]))];
    assert_eq!(use_statements(&items), strings(&["use trdelnik_client :: * ;"]));
}

#[test]
fn use_statements_are_collected_in_order() {
    let items = vec![
        FileItem::Module(Some(vec![
            ModuleItem::Use("use a :: b ;".to_string()),
            ModuleItem::Other,
            ModuleItem::Use("use c :: * ;".to_string()),
        ])),
        FileItem::Other,
        FileItem::Module(Some(vec![ModuleItem::Use("use d ;".to_string())])),
    ];
    assert_eq!(use_statements(&items), strings(&["use a :: b ;", "use c :: * ;", "use d ;"]));
}

#[test]
fn imports_are_read_from_the_expanded_crate() {
    let code = "mod program_instruction { use a::b; pub fn f() {} use c::*; } \
                fn g() {} mod other { use d; }";
    assert_eq!(
        Commander::new().parse_program_client_imports(code),
        Ok(strings(&["use a :: b ;", "use c :: * ;", "use d ;"]))
    );
}

#[test]
fn imports_default_when_the_crate_keeps_none() {
    let code = "mod program_instruction { pub fn f() {} } use outside::Module;";
    assert_eq!(
        Commander::new().parse_program_client_imports(code),
        Ok(strings(&["use trdelnik_client :: * ;"]))
    );
}

#[test]
fn imports_of_code_that_is_not_rust() {
    assert_eq!(
        Commander::new().parse_program_client_imports("this is not rust {"),
        Err(ImportsError::NotRustCode)
    );
}

#[test]
fn imports_of_a_module_without_items() {
    assert_eq!(
        Commander::new().parse_program_client_imports("mod program_instruction { use a; } mod declared;"),
        Err(ImportsError::EmptyModule)
    );
}

#[test]
fn test_options_and_commands() {
    let test_options = TestOptions::new("./".to_string(), options(true, false, None));
    let (root, opts) = test_options.into_parts();
    assert_eq!(root, "./");
    assert!(opts.nocapture);
    let command = FuzzCommand::Run { test_name: "fuzz_0".to_string() };
    assert!(matches!(command, FuzzCommand::Run { test_name } if test_name == "fuzz_0"));
    let mut tester = Tester::default();
    tester.before();
    tester.after();
}
