//! The commander: what it runs to build programs, to run the tests and to
//! regenerate the `program_client` crate, and how it merges the crate's
//! dependencies and keeps the user's `use` statements.
use crate::text::push_text;
use crate::text::texts;
use quote::ToTokens;
use vstd::prelude::*;
use vstd::string::*;

verus! {

/// `Commander` allows you to start localnet, build programs, run tests and do
/// other useful operations, relative to the project's root directory.
pub struct Commander {
    root: String,
}

/// How the tests are run.
pub struct RunTestOptions {
    pub nocapture: bool,
    pub nextest: bool,
    pub package: Option<String>,
    pub test_name: Option<String>,
}

impl Commander {
    /// The project's root directory.
    pub closed spec fn root_spec(&self) -> Seq<char> {
        self.root@
    }

    /// Creates a new `Commander` instance with the default root `"../../"`.
    pub fn new() -> (c: Self)
        ensures
            c.root_spec() == "../../"@,
    {
        Commander { root: String::from_str("../../") }
    }

    /// Creates a new `Commander` instance with the provided `root`.
    pub fn with_root(root: String) -> (c: Self)
        ensures
            c.root_spec() == root@,
    {
        Commander { root }
    }

    /// The project's root directory.
    pub fn root(&self) -> (r: &String)
        ensures
            r@ == self.root_spec(),
    {
        &self.root
    }
}

impl Default for Commander {
    /// Creates a new `Commander` instance with the default root `"../../"`.
    fn default() -> (c: Self)
        ensures
            c.root_spec() == "../../"@,
    {
        Self::new()
    }
}

/// The arguments of `cargo` that build the programs; the dev-dependencies
/// are left out to avoid the loop program tests -> program_client -> program.
pub open spec fn build_programs_command() -> Seq<Seq<char>> {
    seq!["build-bpf"@, "--"@, "-Z"@, "avoid-dev-deps"@]
}

/// The arguments of `cargo` that run the tests of the `trdelnik-tests`
/// package (and of `options.package`), with nextest when asked, and with
/// `--nocapture` when asked.
pub open spec fn run_tests_command(options: RunTestOptions) -> Seq<Seq<char>> {
    (if options.nextest {
        seq!["nextest"@, "run"@]
    } else {
        seq!["test"@]
    }) + seq!["--package"@, "trdelnik-tests"@] + (match options.package {
        Some(p) => seq!["--package"@, p@],
        None => Seq::<Seq<char>>::empty(),
    }) + seq!["--"@] + (if options.nocapture {
        seq!["--nocapture"@]
    } else {
        Seq::<Seq<char>>::empty()
    })
}

/// What the test run asks `cargo` for: the runner (`test`, or `nextest run`),
/// always the `trdelnik-tests` package, then the asked-for package whatever
/// the runner, then `--` and `--nocapture` when asked. The two runners differ
/// only in their first words.
pub proof fn lemma_run_tests_command(options: RunTestOptions)
    ensures
        options.nextest ==> run_tests_command(options)[0] == "nextest"@ && run_tests_command(
            options,
        )[1] == "run"@,
        !options.nextest ==> run_tests_command(options)[0] == "test"@,
        run_tests_command(options)[runner_words(options)] == "--package"@,
        run_tests_command(options)[runner_words(options) + 1] == "trdelnik-tests"@,
        options.package matches Some(p) ==> {
            &&& run_tests_command(options)[runner_words(options) + 2] == "--package"@
            &&& run_tests_command(options)[runner_words(options) + 3] == p@
            &&& run_tests_command(options)[runner_words(options) + 4] == "--"@
        },
        options.package is None ==> run_tests_command(options)[runner_words(options) + 2] == "--"@,
        run_tests_command(options).len() == runner_words(options) + 3 + (if options.package is Some {
            2int
        } else {
            0int
        }) + (if options.nocapture {
            1int
        } else {
            0int
        }),
        options.nocapture <==> run_tests_command(options).last() == "--nocapture"@,
        run_tests_command(RunTestOptions { nextest: true, ..options }) == seq!["nextest"@, "run"@]
            + run_tests_command(RunTestOptions { nextest: false, ..options }).drop_first(),
{
    reveal_strlit("--nocapture");
    reveal_strlit("--");
    let a = run_tests_command(options);
    let with = run_tests_command(RunTestOptions { nextest: true, ..options });
    let without = run_tests_command(RunTestOptions { nextest: false, ..options });
    assert(with =~= seq!["nextest"@, "run"@] + without.drop_first());
    if !options.nocapture {
        assert(a.last() == "--"@);
        assert("--"@ != "--nocapture"@) by {
            assert("--"@.len() != "--nocapture"@.len());
        }
    }
}

/// How many words name the runner: `test` is one, `nextest run` two.
pub open spec fn runner_words(options: RunTestOptions) -> int {
    if options.nextest {
        2
    } else {
        1
    }
}

/// The arguments of `cargo` that print the macro-expanded code of a package.
pub open spec fn expand_package_command(package: Seq<char>) -> Seq<Seq<char>> {
    seq![
        "+nightly"@,
        "rustc"@,
        "--package"@,
        package,
        "--profile=check"@,
        "--"@,
        "-Zunpretty=expanded"@,
    ]
}

/// The arguments of `rustfmt` that format generated code.
pub open spec fn format_command() -> Seq<Seq<char>> {
    seq!["--edition"@, "2018"@]
}

/// Builds the arguments of `cargo` that build the programs.
pub fn build_programs_args() -> (args: Vec<String>)
    ensures
        texts(args@) == build_programs_command(),
{
    let mut args = Vec::new();
    push_text(&mut args, "build-bpf");
    push_text(&mut args, "--");
    push_text(&mut args, "-Z");
    push_text(&mut args, "avoid-dev-deps");
    assert(texts(args@) =~= build_programs_command());
    args
}

/// Builds the arguments of `cargo` that run the tests.
pub fn run_tests_args(options: RunTestOptions) -> (args: Vec<String>)
    ensures
        texts(args@) == run_tests_command(options),
{
    let ghost opts = options;
    let mut args = Vec::new();
    if options.nextest {
        push_text(&mut args, "nextest");
        push_text(&mut args, "run");
    } else {
        push_text(&mut args, "test");
    }
    push_text(&mut args, "--package");
    push_text(&mut args, "trdelnik-tests");
    match options.package {
        Some(package) => {
            push_text(&mut args, "--package");
            push_text(&mut args, package.as_str());
        },
        None => {},
    }
    push_text(&mut args, "--");
    if options.nocapture {
        push_text(&mut args, "--nocapture");
    }
    assert(texts(args@) =~= run_tests_command(opts));
    args
}

/// Builds the arguments of `cargo` that print the macro-expanded code of
/// `package`.
pub fn expand_package_args(package: &str) -> (args: Vec<String>)
    ensures
        texts(args@) == expand_package_command(package@),
{
    let mut args = Vec::new();
    push_text(&mut args, "+nightly");
    push_text(&mut args, "rustc");
    push_text(&mut args, "--package");
    push_text(&mut args, package);
    push_text(&mut args, "--profile=check");
    push_text(&mut args, "--");
    push_text(&mut args, "-Zunpretty=expanded");
    assert(texts(args@) =~= expand_package_command(package@));
    args
}

/// Builds the arguments of `rustfmt` that format generated code.
pub fn format_args() -> (args: Vec<String>)
    ensures
        texts(args@) == format_command(),
{
    let mut args = Vec::new();
    push_text(&mut args, "--edition");
    push_text(&mut args, "2018");
    assert(texts(args@) =~= format_command());
    args
}

/// A package is a program when its manifest lies two directories below a
/// directory named `programs` (`programs/<name>/Cargo.toml`).
pub open spec fn is_program_manifest(components: Seq<Seq<char>>) -> bool {
    components.len() >= 3 && components[components.len() - 3] == "programs"@
}

/// Tells whether the manifest path, given as its components, is that of a
/// program.
pub fn is_program_package(manifest_components: &Vec<String>) -> (b: bool)
    ensures
        b == is_program_manifest(texts(manifest_components@)),
{
    let n = manifest_components.len();
    if n < 3 {
        return false;
    }
    let programs = String::from_str("programs");
    manifest_components[n - 3] == programs
}

/// The line of TOML that declares the dependency on the client library.
pub open spec fn trdelnik_dependency_line() -> Seq<char> {
    "trdelnik-client = \"0.6.0\""@
}

/// The line of TOML that declares the dependency on the program `name`, whose
/// manifest directory is `relative_path` below the project's root; the
/// program is used without its entrypoint.
pub open spec fn program_dependency_line(name: Seq<char>, relative_path: Seq<char>) -> Seq<char> {
    name + " = { path = \"../"@ + relative_path + "\", features = [\"no-entrypoint\"] }"@
}

/// The dependency on the client library that every `program_client` crate
/// has: its name and the line that declares it.
pub fn trdelnik_dependency() -> (dep: (String, String))
    ensures
        dep.0@ == "trdelnik-client"@,
        dep.1@ == trdelnik_dependency_line(),
{
    (String::from_str("trdelnik-client"), String::from_str("trdelnik-client = \"0.6.0\""))
}

/// The dependency on the program `name`, whose manifest directory is
/// `relative_path` below the project's root: its name and the line that
/// declares it.
pub fn program_dependency(name: String, relative_path: &str) -> (dep: (String, String))
    ensures
        dep.0 == name,
        dep.1@ == program_dependency_line(name@, relative_path@),
{
    let mut line = name.clone();
    line.append(" = { path = \"../");
    line.append(relative_path);
    line.append("\", features = [\"no-entrypoint\"] }");
    (name, line)
}

/// `dep` is the dependency on the program named `program.0`, whose manifest
/// directory is `program.1` below the project's root.
pub open spec fn is_program_dependency(dep: (String, String), program: (String, String)) -> bool {
    &&& dep.0 == program.0
    &&& dep.1@ == program_dependency_line(program.0@, program.1@)
}

/// Builds all candidates for the `program_client` crate's dependencies, each
/// a name and the line of TOML that declares it: the client library first,
/// then the programs, each given by its name and its manifest directory
/// relative to the project's root.
pub fn program_client_dependencies(programs: Vec<(String, String)>) -> (deps: Vec<(String, String)>)
    ensures
        deps@.len() == programs@.len() + 1,
        deps@[0].0@ == "trdelnik-client"@,
        deps@[0].1@ == trdelnik_dependency_line(),
        forall|i: int|
            0 <= i < programs@.len() ==> is_program_dependency(#[trigger] deps@[i + 1], programs@[i]),
{
    let ghost all = programs@;
    // Reading the length makes its bound by `usize::MAX` known.
    let _n = programs.len();
    let mut deps = Vec::new();
    deps.push(trdelnik_dependency());
    let mut rest = programs;
    let mut k: usize = 0;
    while rest.len() > 0
        invariant
            k + rest@.len() == all.len(),
            all.len() <= usize::MAX,
            rest@ =~= all.subrange(k as int, all.len() as int),
            deps@.len() == k + 1,
            deps@[0].0@ == "trdelnik-client"@,
            deps@[0].1@ == trdelnik_dependency_line(),
            forall|i: int| 0 <= i < k ==> is_program_dependency(#[trigger] deps@[i + 1], all[i]),
        decreases rest.len(),
    {
        let program = rest.remove(0);
        assert(program == all[k as int]);
        let ghost before = deps@;
        let dep = program_dependency(program.0, program.1.as_str());
        deps.push(dep);
        assert(is_program_dependency(deps@[k + 1], all[k as int]));
        assert forall|i: int| 0 <= i < k + 1 implies is_program_dependency(
            #[trigger] deps@[i + 1],
            all[i],
        ) by {
            if i < k {
                assert(deps@[i + 1] == before[i + 1]);
            }
        }
        k = k + 1;
    }
    deps
}

/// A TOML value, such as a parsed document.
#[verifier::external_type_specification]
#[verifier::external_body]
pub struct ExTomlValue(toml::Value);

/// A TOML table.
#[verifier::external_type_specification]
#[verifier::external_body]
#[verifier::reject_recursive_types(K)]
#[verifier::reject_recursive_types(V)]
pub struct ExTomlMap<K, V>(toml::map::Map<K, V>);

/// The document that `toml` parses `text` into (`None` when `text` is not
/// TOML).
pub uninterp spec fn toml_parsed(text: Seq<char>) -> Option<toml::Value>;

/// The text that `toml` serializes `document` into (`None` when it cannot
/// represent it).
pub uninterp spec fn toml_rendered(document: toml::Value) -> Option<Seq<char>>;

/// A copy of the table under `key` of `document` (`None` when there is no
/// value under `key`, or it is not a table).
pub uninterp spec fn toml_table_at(
    document: toml::Value,
    key: Seq<char>,
) -> Option<toml::map::Map<String, toml::Value>>;

/// `document` with the value under `key` replaced by `table`.
pub uninterp spec fn toml_with_table(
    document: toml::Value,
    key: Seq<char>,
    table: toml::map::Map<String, toml::Value>,
) -> toml::Value;

/// The table that `document` is (`None` when it is another kind of value).
pub uninterp spec fn toml_root_table(document: toml::Value) -> Option<
    toml::map::Map<String, toml::Value>,
>;

/// The first entry of `table` in its order (`None` when it is empty).
pub uninterp spec fn toml_first_entry(table: toml::map::Map<String, toml::Value>) -> Option<
    (Seq<char>, toml::Value),
>;

/// `table` after `entry(key).or_insert(value)`.
pub uninterp spec fn toml_table_or_insert(
    table: toml::map::Map<String, toml::Value>,
    key: Seq<char>,
    value: toml::Value,
) -> toml::map::Map<String, toml::Value>;

/// What a TOML table holds: a value under each key.
pub uninterp spec fn toml_entries(table: toml::map::Map<String, toml::Value>) -> Map<
    Seq<char>,
    toml::Value,
>;

/// Parses `text` with `toml::Value::from_str`, dropping the error's
/// details. Claimed: the result is a function of `text`, named
/// `toml_parsed`.
#[verifier::external_body]
fn parse_toml(text: &str) -> (r: Option<toml::Value>)
    ensures
        r == toml_parsed(text@),
{
    text.parse::<toml::Value>().ok()
}

/// Serializes `document` with `toml::to_string`, the function that the
/// `Display` of a value calls. Claimed: the result is a function of
/// `document`, named `toml_rendered`.
#[verifier::external_body]
fn render_toml(document: &toml::Value) -> (r: Option<String>)
    ensures
        match r {
            Some(text) => toml_rendered(*document) == Some(text@),
            None => toml_rendered(*document) is None,
        },
{
    toml::to_string(document).ok()
}

/// Looks up the table under `key` with `toml::Value::get` and
/// `toml::Value::as_table`, and copies it with `Clone`. Claimed: the result
/// is a function of the arguments, named `toml_table_at`.
#[verifier::external_body]
fn table_at(document: &toml::Value, key: &str) -> (r: Option<toml::map::Map<String, toml::Value>>)
    ensures
        r == toml_table_at(*document, key@),
{
    document.get(key).and_then(toml::Value::as_table).cloned()
}

/// Replaces the table under `key` with `table` through `toml::Value`'s
/// `IndexMut`, which panics when there is no value under `key`; the
/// `requires` leaves that out. Claimed: the new document is a function of
/// the arguments, named `toml_with_table`; under `key` it holds `table`, and
/// the tables under the other keys are those of the old document, since
/// `IndexMut` changes only the entry under `key`.
#[verifier::external_body]
fn set_table(document: &mut toml::Value, key: &str, table: toml::map::Map<String, toml::Value>)
    requires
        toml_table_at(*old(document), key@) is Some,
    ensures
        *final(document) == toml_with_table(*old(document), key@, table),
        toml_table_at(*final(document), key@) == Some(table),
        forall|other: Seq<char>|
            other != key@ ==> #[trigger] toml_table_at(*final(document), other) == toml_table_at(
                *old(document),
                other,
            ),
{
    document[key] = toml::Value::Table(table);
}

/// Tells a table from the other kinds of `toml::Value`. Claimed: the result
/// is a function of `document`, named `toml_root_table`.
#[verifier::external_body]
fn root_table(document: toml::Value) -> (r: Option<toml::map::Map<String, toml::Value>>)
    ensures
        r == toml_root_table(document),
{
    match document {
        toml::Value::Table(table) => Some(table),
        _ => None,
    }
}

/// Takes the first entry of `table` with `IntoIterator::into_iter` and
/// `next`. Claimed: the result is a function of `table`, named
/// `toml_first_entry`.
#[verifier::external_body]
fn first_entry(table: toml::map::Map<String, toml::Value>) -> (r: Option<(String, toml::Value)>)
    ensures
        match r {
            Some((key, value)) => toml_first_entry(table) == Some((key@, value)),
            None => toml_first_entry(table) is None,
        },
{
    table.into_iter().next()
}

/// Calls `toml::map::Map::entry(key).or_insert(value)`. Claimed: the new
/// table is a function of the arguments, named `toml_table_or_insert`; it
/// holds what the table held, and `value` under `key` when `key` was not
/// there yet, as the map's source shows.
#[verifier::external_body]
fn table_or_insert(table: &mut toml::map::Map<String, toml::Value>, key: String, value: toml::Value)
    ensures
        *final(table) == toml_table_or_insert(*old(table), key@, value),
        toml_entries(*final(table)) == or_insert_entry(toml_entries(*old(table)), key@, value),
{
    table.entry(key).or_insert(value);
}

/// `entries` with `value` under `key` when `key` is not there yet.
pub open spec fn or_insert_entry(
    entries: Map<Seq<char>, toml::Value>,
    key: Seq<char>,
    value: toml::Value,
) -> Map<Seq<char>, toml::Value> {
    if entries.dom().contains(key) {
        entries
    } else {
        entries.insert(key, value)
    }
}

/// `entries` after inserting each of `added`, in order, where its key is not
/// there yet.
pub open spec fn or_insert_entries(
    entries: Map<Seq<char>, toml::Value>,
    added: Seq<(Seq<char>, toml::Value)>,
) -> Map<Seq<char>, toml::Value>
    decreases added.len(),
{
    if added.len() == 0 {
        entries
    } else {
        or_insert_entry(
            or_insert_entries(entries, added.drop_last()),
            added.last().0,
            added.last().1,
        )
    }
}

/// `table` after merging one dependency line into it: the line's entry is
/// added where its name is new; a line whose document is not a table adds
/// nothing; `None` when the line is not TOML or declares nothing.
pub open spec fn merged_line(
    table: toml::map::Map<String, toml::Value>,
    line: Seq<char>,
) -> Option<toml::map::Map<String, toml::Value>> {
    match toml_parsed(line) {
        None => None,
        Some(document) => match toml_root_table(document) {
            None => Some(table),
            Some(declared) => match toml_first_entry(declared) {
                None => None,
                Some((key, value)) => Some(toml_table_or_insert(table, key, value)),
            },
        },
    }
}

/// `table` after merging the dependency lines into it, one after another;
/// `None` when one of them fails.
pub open spec fn merged_table(
    table: toml::map::Map<String, toml::Value>,
    lines: Seq<Seq<char>>,
) -> Option<toml::map::Map<String, toml::Value>>
    decreases lines.len(),
{
    if lines.len() == 0 {
        Some(table)
    } else {
        match merged_table(table, lines.drop_last()) {
            None => None,
            Some(before) => merged_line(before, lines.last()),
        }
    }
}

/// The entries that the dependency lines declare, in order.
pub open spec fn line_entries(lines: Seq<Seq<char>>) -> Seq<(Seq<char>, toml::Value)>
    decreases lines.len(),
{
    if lines.len() == 0 {
        Seq::empty()
    } else {
        line_entries(lines.drop_last()) + match toml_parsed(lines.last()) {
            Some(document) => match toml_root_table(document) {
                Some(declared) => match toml_first_entry(declared) {
                    Some(entry) => seq![entry],
                    None => Seq::empty(),
                },
                None => Seq::empty(),
            },
            None => Seq::empty(),
        }
    }
}

/// The lines that declare the `program_client` crate's dependencies: the
/// client library first, then each program.
pub open spec fn candidate_lines(programs: Seq<(String, String)>) -> Seq<Seq<char>> {
    seq![trdelnik_dependency_line()] + Seq::new(
        programs.len(),
        |i: int| program_dependency_line(programs[i].0@, programs[i].1@),
    )
}

/// Every program gets its dependency line: the client library's line comes
/// first, then one line per program, in their order, each declaring the
/// program by its name.
pub proof fn lemma_candidate_lines(programs: Seq<(String, String)>)
    ensures
        candidate_lines(programs).len() == programs.len() + 1,
        candidate_lines(programs)[0] == trdelnik_dependency_line(),
        forall|i: int|
            0 <= i < programs.len() ==> #[trigger] candidate_lines(programs)[i + 1]
                == program_dependency_line(programs[i].0@, programs[i].1@),
        forall|i: int|
            0 <= i < programs.len() ==> (#[trigger] candidate_lines(programs)[i + 1]).subrange(
                0,
                programs[i].0@.len() + 3int,
            ) == programs[i].0@ + " = "@,
{
    reveal_strlit(" = ");
    assert forall|i: int| 0 <= i < programs.len() implies (#[trigger] candidate_lines(
        programs,
    )[i + 1]).subrange(0, programs[i].0@.len() + 3int) == programs[i].0@ + " = "@ by {
        let n = programs[i].0@;
        let line = program_dependency_line(n, programs[i].1@);
        assert(candidate_lines(programs)[i + 1] == line);
        reveal_strlit(" = { path = \"../");
        assert(line.subrange(0, n.len() + 3int) =~= n + " = "@);
    }
}

/// Why the `program_client` crate's `Cargo.toml` could not be updated.
#[derive(PartialEq, Eq, Structural, Debug)]
pub enum ManifestError {
    /// The text is not TOML.
    TomlDeserialize,
    /// The document has no `[dependencies]` table.
    NoDependenciesTable,
    /// A dependency line is not TOML, or declares nothing.
    InvalidDependencyLine,
    /// The updated document cannot be written as TOML.
    Unrenderable,
}

/// How updating the `program_client` crate's `Cargo.toml` ends.
pub enum ManifestOutcome {
    Updated(Seq<char>),
    NotToml,
    NoDependenciesTable,
    InvalidDependencyLine,
    Unrenderable,
}

/// How a result of updating `Cargo.toml` ends.
pub open spec fn outcome_of(r: Result<String, ManifestError>) -> ManifestOutcome {
    match r {
        Ok(text) => ManifestOutcome::Updated(text@),
        Err(ManifestError::TomlDeserialize) => ManifestOutcome::NotToml,
        Err(ManifestError::NoDependenciesTable) => ManifestOutcome::NoDependenciesTable,
        Err(ManifestError::InvalidDependencyLine) => ManifestOutcome::InvalidDependencyLine,
        Err(ManifestError::Unrenderable) => ManifestOutcome::Unrenderable,
    }
}

/// The `Cargo.toml` text `text` with the dependency lines merged into its
/// `[dependencies]` table: parsed, merged and serialized again.
pub open spec fn updated_manifest(text: Seq<char>, lines: Seq<Seq<char>>) -> ManifestOutcome {
    match toml_parsed(text) {
        None => ManifestOutcome::NotToml,
        Some(document) => match toml_table_at(document, "dependencies"@) {
            None => ManifestOutcome::NoDependenciesTable,
            Some(table) => match merged_table(table, lines) {
                None => ManifestOutcome::InvalidDependencyLine,
                Some(merged) => match toml_rendered(
                    toml_with_table(document, "dependencies"@, merged),
                ) {
                    None => ManifestOutcome::Unrenderable,
                    Some(updated) => ManifestOutcome::Updated(updated),
                },
            },
        },
    }
}

fn merge_lines(table: &mut toml::map::Map<String, toml::Value>, deps: &Vec<(String, String)>) -> (ok:
    bool)
    ensures
        ok == merged_table(*old(table), deps@.map_values(|d: (String, String)| d.1@)) is Some,
        ok ==> Some(*final(table)) == merged_table(
            *old(table),
            deps@.map_values(|d: (String, String)| d.1@),
        ),
        ok ==> toml_entries(*final(table)) == or_insert_entries(
            toml_entries(*old(table)),
            line_entries(deps@.map_values(|d: (String, String)| d.1@)),
        ),
{
    let ghost lines = deps@.map_values(|d: (String, String)| d.1@);
    let ghost start = *table;
    let mut i: usize = 0;
    while i < deps.len()
        invariant
            i <= deps@.len(),
            start == *old(table),
            lines == deps@.map_values(|d: (String, String)| d.1@),
            merged_table(start, lines.take(i as int)) == Some(*table),
            toml_entries(*table) == or_insert_entries(
                toml_entries(start),
                line_entries(lines.take(i as int)),
            ),
        decreases deps.len() - i,
    {
        let ghost before = *table;
        assert(lines.take(i + 1).drop_last() =~= lines.take(i as int));
        assert(lines.take(i + 1).last() == deps@[i as int].1@);
        match parse_toml(deps[i].1.as_str()) {
            None => {
                assert(merged_table(start, lines.take(i + 1)) is None);
                assert(merged_table(start, lines) is None) by {
                    lemma_merge_fails_on(start, lines, i + 1);
                }
                return false;
            },
            Some(document) => match root_table(document) {
                None => {
                    assert(line_entries(lines.take(i + 1)) =~= line_entries(lines.take(i as int)));
                },
                Some(declared) => match first_entry(declared) {
                    None => {
                        assert(merged_table(start, lines.take(i + 1)) is None);
                        assert(merged_table(start, lines) is None) by {
                            lemma_merge_fails_on(start, lines, i + 1);
                        }
                        return false;
                    },
                    Some((key, value)) => {
                        let ghost entry = (key@, value);
                        table_or_insert(table, key, value);
                        assert(line_entries(lines.take(i + 1)) =~= line_entries(
                            lines.take(i as int),
                        ).push(entry));
                        let ghost added = line_entries(lines.take(i + 1));
                        assert(added.drop_last() =~= line_entries(lines.take(i as int)));
                    },
                },
            },
        }
        i = i + 1;
    }
    assert(lines.take(deps@.len() as int) =~= lines);
    true
}

proof fn lemma_merge_fails_on(
    table: toml::map::Map<String, toml::Value>,
    lines: Seq<Seq<char>>,
    k: int,
)
    requires
        0 <= k <= lines.len(),
        merged_table(table, lines.take(k)) is None,
    ensures
        merged_table(table, lines) is None,
    decreases lines.len() - k,
{
    if k < lines.len() {
        assert(lines.take(k + 1).drop_last() =~= lines.take(k));
        lemma_merge_fails_on(table, lines, k + 1);
    } else {
        assert(lines.take(k) =~= lines);
    }
}

/// Updates the text of the `program_client` crate's `Cargo.toml` with its
/// dependencies on the client library and on the programs (each given by
/// its name and its manifest directory below the project's root): the text
/// is parsed, each dependency line is parsed and its entry inserted into the
/// `[dependencies]` table where its name is not there yet, and the document
/// is serialized again. It fails when the text is not TOML, when it has no
/// `[dependencies]` table, when a dependency line is not TOML or declares
/// nothing, and when the updated document cannot be serialized.
pub fn merge_program_client_manifest(cargo_toml: &str, programs: Vec<(String, String)>) -> (r:
    Result<String, ManifestError>)
    ensures
        outcome_of(r) == updated_manifest(cargo_toml@, candidate_lines(programs@)),
        r matches Ok(text) ==> exists|merged: toml::map::Map<String, toml::Value>|
            {
                &&& toml_entries(merged) == or_insert_entries(
                    toml_entries(toml_table_at(toml_parsed(cargo_toml@)->0, "dependencies"@)->0),
                    line_entries(candidate_lines(programs@)),
                )
                &&& toml_rendered(
                    toml_with_table(toml_parsed(cargo_toml@)->0, "dependencies"@, merged),
                ) == Some(text@)
                &&& toml_table_at(
                    toml_with_table(toml_parsed(cargo_toml@)->0, "dependencies"@, merged),
                    "dependencies"@,
                ) == Some(merged)
                &&& forall|other: Seq<char>|
                    other != "dependencies"@ ==> #[trigger] toml_table_at(
                        toml_with_table(toml_parsed(cargo_toml@)->0, "dependencies"@, merged),
                        other,
                    ) == toml_table_at(toml_parsed(cargo_toml@)->0, other)
            },
        r matches Ok(text) ==> ((forall|i: int|
            0 <= i < line_entries(candidate_lines(programs@)).len() ==> toml_entries(
                toml_table_at(toml_parsed(cargo_toml@)->0, "dependencies"@)->0,
            ).dom().contains(#[trigger] line_entries(candidate_lines(programs@))[i].0))
            ==> exists|merged: toml::map::Map<String, toml::Value>|
            {
                &&& toml_entries(merged) == toml_entries(
                    toml_table_at(toml_parsed(cargo_toml@)->0, "dependencies"@)->0,
                )
                &&& toml_rendered(
                    toml_with_table(toml_parsed(cargo_toml@)->0, "dependencies"@, merged),
                ) == Some(text@)
            }),
{
    let ghost all = programs@;
    let deps = program_client_dependencies(programs);
    let ghost lines = deps@.map_values(|d: (String, String)| d.1@);
    assert(lines =~= candidate_lines(all)) by {
        assert forall|i: int| 0 <= i < lines.len() implies lines[i] == candidate_lines(all)[i] by {
            if i > 0 {
                assert(is_program_dependency(deps@[(i - 1) + 1], all[i - 1]));
            }
        }
    }
    let key = "dependencies";
    let mut document = match parse_toml(cargo_toml) {
        Some(document) => document,
        None => {
            return Err(ManifestError::TomlDeserialize);
        },
    };
    let ghost parsed = document;
    let mut table = match table_at(&document, key) {
        Some(table) => table,
        None => {
            return Err(ManifestError::NoDependenciesTable);
        },
    };
    let ghost original = table;
    if !merge_lines(&mut table, &deps) {
        return Err(ManifestError::InvalidDependencyLine);
    }
    let ghost merged = table;
    set_table(&mut document, key, table);
    match render_toml(&document) {
        Some(text) => {
            assert(toml_rendered(toml_with_table(parsed, "dependencies"@, merged)) == Some(text@));
            proof {
                let old_entries = toml_entries(original);
                let added = line_entries(lines);
                if forall|i: int|
                    0 <= i < added.len() ==> old_entries.dom().contains(#[trigger] added[i].0) {
                    lemma_or_insert_idempotent(old_entries, added);
                }
            }
            Ok(text)
        },
        None => Err(ManifestError::Unrenderable),
    }
}

/// Inserting entries where their keys are new keeps every entry that was
/// there, ends with every key of the added entries, gives a new key the value
/// of its first added entry, and adds nothing when done a second time.
pub proof fn lemma_or_insert_entries(
    entries: Map<Seq<char>, toml::Value>,
    added: Seq<(Seq<char>, toml::Value)>,
)
    ensures
        forall|k: Seq<char>|
            entries.dom().contains(k) ==> #[trigger] or_insert_entries(entries, added).dom().contains(k)
                && or_insert_entries(entries, added)[k] == entries[k],
        forall|k: Seq<char>|
            #[trigger] or_insert_entries(entries, added).dom().contains(k) <==> (entries.dom().contains(k)
                || exists|i: int| 0 <= i < added.len() && #[trigger] added[i].0 == k),
        forall|i: int|
            0 <= i < added.len() && !entries.dom().contains(added[i].0) && (forall|j: int|
                0 <= j < i ==> added[j].0 != added[i].0) ==> or_insert_entries(entries, added)[(
            #[trigger] added[i]).0] == added[i].1,
        or_insert_entries(or_insert_entries(entries, added), added) == or_insert_entries(
            entries,
            added,
        ),
    decreases added.len(),
{
    if added.len() > 0 {
        let rest = added.drop_last();
        lemma_or_insert_entries(entries, rest);
        let before = or_insert_entries(entries, rest);
        let last = added.last();
        assert forall|k: Seq<char>|
            #[trigger] or_insert_entries(entries, added).dom().contains(k) <==> (entries.dom().contains(k)
                || exists|i: int| 0 <= i < added.len() && #[trigger] added[i].0 == k) by {
            if exists|i: int| 0 <= i < added.len() && #[trigger] added[i].0 == k {
                let i = choose|i: int| 0 <= i < added.len() && #[trigger] added[i].0 == k;
                if i < rest.len() {
                    assert(rest[i].0 == k);
                }
            }
            if exists|i: int| 0 <= i < rest.len() && #[trigger] rest[i].0 == k {
                let i = choose|i: int| 0 <= i < rest.len() && #[trigger] rest[i].0 == k;
                assert(added[i].0 == k);
            }
        }
        assert forall|i: int|
            0 <= i < added.len() && !entries.dom().contains(added[i].0) && (forall|j: int|
                0 <= j < i ==> added[j].0 != added[i].0) implies or_insert_entries(entries, added)[(
        #[trigger] added[i]).0] == added[i].1 by {
            if i < rest.len() {
                assert(rest[i] == added[i]);
                assert forall|j: int| 0 <= j < i implies rest[j].0 != rest[i].0 by {
                    assert(rest[j] == added[j]);
                }
                assert(before.dom().contains(rest[i].0));
            } else {
                assert(!before.dom().contains(last.0)) by {
                    if before.dom().contains(last.0) {
                        let j = choose|j: int| 0 <= j < rest.len() && #[trigger] rest[j].0 == last.0;
                        assert(added[j].0 == added[i].0);
                    }
                }
            }
        }
        lemma_or_insert_idempotent(or_insert_entries(entries, added), added);
    }
}

proof fn lemma_or_insert_idempotent(
    entries: Map<Seq<char>, toml::Value>,
    added: Seq<(Seq<char>, toml::Value)>,
)
    requires
        forall|i: int| 0 <= i < added.len() ==> entries.dom().contains(#[trigger] added[i].0),
    ensures
        or_insert_entries(entries, added) == entries,
    decreases added.len(),
{
    if added.len() > 0 {
        let rest = added.drop_last();
        assert forall|i: int| 0 <= i < rest.len() implies entries.dom().contains(#[trigger] rest[i].0) by {
            assert(rest[i] == added[i]);
        }
        lemma_or_insert_idempotent(entries, rest);
        assert(entries.dom().contains(added[added.len() - 1].0));
    }
}

/// An item inside a module of the expanded `program_client` crate.
pub enum ModuleItem {
    /// A `use` statement, as its token rendering.
    Use(String),
    Other,
}

/// A top-level item of the expanded `program_client` crate.
pub enum FileItem {
    /// A module with its items, or `None` for a module declared without them.
    Module(Option<Vec<ModuleItem>>),
    Other,
}

/// What a module item is: the text of a `use` statement, or something else.
pub enum ModuleItemView {
    Use(Seq<char>),
    Other,
}

/// What a top-level item is: a module with what its items are (`None` when
/// it is declared without them), or something else.
pub enum FileItemView {
    Module(Option<Seq<ModuleItemView>>),
    Other,
}

impl View for ModuleItem {
    type V = ModuleItemView;

    open spec fn view(&self) -> ModuleItemView {
        match self {
            ModuleItem::Use(u) => ModuleItemView::Use(u@),
            ModuleItem::Other => ModuleItemView::Other,
        }
    }
}

impl View for FileItem {
    type V = FileItemView;

    open spec fn view(&self) -> FileItemView {
        match self {
            FileItem::Module(Some(content)) => FileItemView::Module(
                Some(content@.map_values(|m: ModuleItem| m@)),
            ),
            FileItem::Module(None) => FileItemView::Module(None),
            FileItem::Other => FileItemView::Other,
        }
    }
}

/// What the items of a file are.
pub open spec fn outline(items: Seq<FileItem>) -> Seq<FileItemView> {
    items.map_values(|i: FileItem| i@)
}

/// What `syn` parses `code` into, item by item: `None` when `code` is not a
/// Rust file; each `use` statement inside a top-level module is given by the
/// `Display` of its tokens.
pub uninterp spec fn rust_file_outline(code: Seq<char>) -> Option<Seq<FileItemView>>;

/// Parses `code` with `syn::parse_file` and tells, for each top-level item,
/// a module (with its items, where it has them) from anything else, and,
/// inside a module, a `use` statement (rendered by the `Display` of its
/// tokens, `quote::ToTokens::into_token_stream`) from anything else. The
/// contract claims only that the result is a function of `code`, named
/// `rust_file_outline`; which texts parse, and how tokens are rendered, is
/// left to `syn` and `proc-macro2`.
#[verifier::external_body]
fn parse_file_outline(code: &str) -> (r: Option<Vec<FileItem>>)
    ensures
        r is None <==> rust_file_outline(code@) is None,
        r matches Some(items) ==> outline(items@) == rust_file_outline(code@)->0,
{
    match syn::parse_file(code) {
        Ok(file) => Some(file.items.into_iter().map(|item| match item {
            syn::Item::Mod(module) => FileItem::Module(module.content.map(|(_, items)| {
                items.into_iter().map(|item| match item {
                    syn::Item::Use(u) => ModuleItem::Use(u.into_token_stream().to_string()),
                    _ => ModuleItem::Other,
                }).collect()
            })),
            _ => FileItem::Other,
        }).collect()),
        Err(_) => None,
    }
}

/// The `use` statements among the items of a module, in order.
pub open spec fn module_uses(items: Seq<ModuleItemView>) -> Seq<Seq<char>>
    decreases items.len(),
{
    if items.len() == 0 {
        Seq::empty()
    } else {
        module_uses(items.drop_last()) + match items.last() {
            ModuleItemView::Use(u) => seq![u],
            ModuleItemView::Other => Seq::empty(),
        }
    }
}

/// The `use` statements of all top-level modules, in order.
pub open spec fn file_uses(items: Seq<FileItemView>) -> Seq<Seq<char>>
    decreases items.len(),
{
    if items.len() == 0 {
        Seq::empty()
    } else {
        file_uses(items.drop_last()) + match items.last() {
            FileItemView::Module(Some(content)) => module_uses(content),
            _ => Seq::empty(),
        }
    }
}

/// Every top-level module comes with its items.
pub open spec fn modules_have_content(items: Seq<FileItemView>) -> bool {
    forall|i: int|
        0 <= i < items.len() ==> !(#[trigger] items[i] matches FileItemView::Module(None))
}

/// The `use` statement that a generated module has when the user kept none.
pub open spec fn default_use() -> Seq<char> {
    "use trdelnik_client :: * ;"@
}

/// The `use` statements that regenerating the `program_client` crate keeps:
/// those of its modules, or the default one when there are none.
pub open spec fn kept_imports(items: Seq<FileItemView>) -> Seq<Seq<char>> {
    if file_uses(items).len() > 0 {
        file_uses(items)
    } else {
        seq![default_use()]
    }
}

fn module_use_statements(content: &Vec<ModuleItem>, uses: &mut Vec<String>)
    ensures
        texts(final(uses)@) == texts(old(uses)@) + module_uses(content@.map_values(
            |m: ModuleItem| m@,
        )),
{
    let mut j: usize = 0;
    let ghost start = texts(uses@);
    let ghost items = content@.map_values(|m: ModuleItem| m@);
    while j < content.len()
        invariant
            j <= content@.len(),
            items == content@.map_values(|m: ModuleItem| m@),
            texts(uses@) == start + module_uses(items.take(j as int)),
        decreases content.len() - j,
    {
        assert(items.take(j + 1).drop_last() =~= items.take(j as int));
        assert(items.take(j + 1).last() == content@[j as int]@);
        match &content[j] {
            ModuleItem::Use(u) => {
                let ghost before = uses@;
                uses.push(u.clone());
                assert(texts(uses@) =~= texts(before).push(u@));
            },
            ModuleItem::Other => {},
        }
        assert(texts(uses@) =~= start + module_uses(items.take(j + 1)));
        j = j + 1;
    }
    assert(items.take(items.len() as int) =~= items);
}

/// Returns the `use` statements that the user wrote inside the modules of the
/// `program_client` crate, so that regenerating the crate keeps them; when
/// there are none, the one statement `use trdelnik_client::*;`.
pub fn use_statements(items: &Vec<FileItem>) -> (uses: Vec<String>)
    requires
        modules_have_content(outline(items@)),
    ensures
        texts(uses@) == kept_imports(outline(items@)),
{
    let mut uses: Vec<String> = Vec::new();
    let ghost all = outline(items@);
    let mut i: usize = 0;
    while i < items.len()
        invariant
            i <= items@.len(),
            all == outline(items@),
            texts(uses@) == file_uses(all.take(i as int)),
        decreases items.len() - i,
    {
        assert(all.take(i + 1).drop_last() =~= all.take(i as int));
        assert(all.take(i + 1).last() == items@[i as int]@);
        match &items[i] {
            FileItem::Module(Some(content)) => {
                module_use_statements(content, &mut uses);
            },
            _ => {},
        }
        assert(texts(uses@) =~= file_uses(all.take(i + 1)));
        i = i + 1;
    }
    assert(all.take(all.len() as int) =~= all);
    if uses.len() == 0 {
        push_text(&mut uses, "use trdelnik_client :: * ;");
        assert(texts(uses@) =~= seq![default_use()]);
    }
    uses
}

/// Why the `use` statements of the expanded `program_client` crate could not
/// be read.
#[derive(PartialEq, Eq, Structural, Debug)]
pub enum ImportsError {
    /// The expanded code is not a Rust file.
    NotRustCode,
    /// A top-level module is declared without its items.
    EmptyModule,
}

fn every_module_has_content(items: &Vec<FileItem>) -> (b: bool)
    ensures
        b == modules_have_content(outline(items@)),
{
    let mut i: usize = 0;
    while i < items.len()
        invariant
            i <= items@.len(),
            forall|j: int|
                0 <= j < i ==> !(#[trigger] outline(items@)[j] matches FileItemView::Module(None)),
        decreases items.len() - i,
    {
        match &items[i] {
            FileItem::Module(None) => {
                assert(outline(items@)[i as int] matches FileItemView::Module(None));
                return false;
            },
            _ => {},
        }
        i = i + 1;
    }
    true
}

impl Commander {
    /// Reads, from the macro-expanded code of the `program_client` crate, the
    /// `use` statements that the user defined inside its modules, so that
    /// regenerating the crate keeps them (`use trdelnik_client::*;` when there
    /// are none). It fails when the code is not a Rust file, and when a
    /// module is declared without its items.
    pub fn parse_program_client_imports(&self, expanded_code: &str) -> (uses: Result<
        Vec<String>,
        ImportsError,
    >)
        ensures
            uses == Err::<Vec<String>, ImportsError>(ImportsError::NotRustCode) <==> rust_file_outline(
                expanded_code@,
            ) is None,
            uses == Err::<Vec<String>, ImportsError>(ImportsError::EmptyModule) <==> (
            rust_file_outline(expanded_code@) matches Some(items) && !modules_have_content(items)),
            uses matches Ok(u) ==> texts(u@) == kept_imports(rust_file_outline(expanded_code@)->0),
    {
        match parse_file_outline(expanded_code) {
            None => Err(ImportsError::NotRustCode),
            Some(items) => {
                if every_module_has_content(&items) {
                    Ok(use_statements(&items))
                } else {
                    Err(ImportsError::EmptyModule)
                }
            },
        }
    }
}

} // verus!
