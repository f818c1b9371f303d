//! The commander of fuzz tests: where a new fuzz test goes and how it is
//! registered with the tests package, and how a fuzz test is run.
use crate::text::push_text;
use crate::text::texts;
use vstd::prelude::*;
use vstd::string::*;

verus! {

/// Why a fuzz test could not be created.
#[derive(PartialEq, Eq, Structural, Debug)]
pub enum Error {
    /// The command was not run in the root of the workspace, which holds the
    /// `trdelnik-tests` package.
    BadWorkspace,
}

/// Creates and runs fuzz tests.
pub struct Commander {}

impl Default for Commander {
    fn default() -> (c: Self) {
        Commander {  }
    }
}

/// `s` ends with `.rs`.
pub open spec fn has_rs_extension(s: Seq<char>) -> bool {
    s.len() >= 3 && s.subrange(s.len() - 3, s.len() as int) == ".rs"@
}

/// The binary of a fuzz test, by which it is registered and run: its name
/// without a trailing `.rs`.
pub open spec fn fuzz_test_binary(name: Seq<char>) -> Seq<char> {
    if has_rs_extension(name) {
        name.subrange(0, name.len() - 3)
    } else {
        name
    }
}

/// The file of a fuzz test: its binary's name with `.rs` appended.
pub open spec fn fuzz_test_file(name: Seq<char>) -> Seq<char> {
    fuzz_test_binary(name) + ".rs"@
}

/// The entry that registers the fuzz test `binary` as a binary of the tests
/// package, built from its file in `fuzz-tests`.
pub open spec fn cargo_bin_entry(binary: Seq<char>) -> Seq<char> {
    "\n[[bin]]\nname = \""@ + binary + "\"\npath = \"fuzz-tests/"@ + binary
        + ".rs\"\ntest = false\ndoc = false\n            "@
}

/// What creating a fuzz test writes: the test's file name, its path in the
/// tests package, the name of the binary it is registered as, and the entry
/// appended to the package's `Cargo.toml`.
pub struct NewFuzzTest {
    pub file_name: String,
    pub test_path: String,
    pub binary_name: String,
    pub cargo_entry: String,
}

/// The arguments of `cargo`, run in the tests package, that run the fuzz test
/// named `name`: its binary.
pub open spec fn run_fuzz_test_command(name: Seq<char>) -> Seq<Seq<char>> {
    seq!["run"@, "--bin"@, fuzz_test_binary(name)]
}

/// Tells whether `name` ends with `.rs`.
pub fn ends_with_rs(name: &str) -> (b: bool)
    ensures
        b == has_rs_extension(name@),
{
    proof {
        reveal_strlit(".rs");
    }
    let n = name.unicode_len();
    if n < 3 {
        return false;
    }
    let a = name.get_char(n - 3);
    let b = name.get_char(n - 2);
    let c = name.get_char(n - 1);
    let r = a == '.' && b == 'r' && c == 's';
    let ghost tail = name@.subrange(n - 3, n as int);
    if r {
        assert(tail =~= ".rs"@);
    } else {
        assert(tail != ".rs"@) by {
            if tail == ".rs"@ {
                assert(tail[0] == '.' && tail[1] == 'r' && tail[2] == 's');
            }
        }
    }
    r
}

fn char_prefix(s: &str, k: usize) -> (r: String)
    requires
        k <= s@.len(),
    ensures
        r@ == s@.subrange(0, k as int),
{
    let mut r = String::new();
    let mut i: usize = 0;
    while i < k
        invariant
            k <= s@.len(),
            i <= k,
            r@ == s@.subrange(0, i as int),
        decreases k - i,
    {
        let c = s.get_char(i);
        r.push(c);
        assert(s@.subrange(0, i + 1) =~= s@.subrange(0, i as int).push(c));
        i = i + 1;
    }
    r
}

/// The binary of the fuzz test named `name`.
pub fn fuzz_test_binary_name(name: &str) -> (binary: String)
    ensures
        binary@ == fuzz_test_binary(name@),
{
    if ends_with_rs(name) {
        char_prefix(name, name.unicode_len() - 3)
    } else {
        String::from_str(name)
    }
}

/// The file of the fuzz test named `name`.
pub fn fuzz_test_file_name(name: String) -> (file: String)
    ensures
        file@ == fuzz_test_file(name@),
{
    let mut file = fuzz_test_binary_name(name.as_str());
    file.append(".rs");
    file
}

/// A fuzz test file always has the `.rs` extension, and naming a test by its
/// file gives the same file and the same binary.
pub proof fn lemma_fuzz_test_file(name: Seq<char>)
    ensures
        has_rs_extension(fuzz_test_file(name)),
        fuzz_test_file(fuzz_test_file(name)) == fuzz_test_file(name),
        fuzz_test_binary(fuzz_test_file(name)) == fuzz_test_binary(name),
{
    reveal_strlit(".rs");
    let binary = fuzz_test_binary(name);
    let file = binary + ".rs"@;
    assert(file.subrange(file.len() - 3, file.len() as int) =~= ".rs"@);
    assert(file.subrange(0, file.len() - 3) =~= binary);
}

/// A fuzz test created under a name runs under the same name: the binary
/// that running it asks `cargo` for is the one that creating it registered.
pub proof fn lemma_created_test_runs(name: Seq<char>)
    ensures
        run_fuzz_test_command(name)[2] == fuzz_test_binary(name),
        cargo_bin_entry(fuzz_test_binary(name)) == "\n[[bin]]\nname = \""@ + run_fuzz_test_command(
            name,
        )[2] + "\"\npath = \"fuzz-tests/"@ + fuzz_test_file(name)
            + "\"\ntest = false\ndoc = false\n            "@,
{
    reveal_strlit(".rs\"\ntest = false\ndoc = false\n            ");
    reveal_strlit("\"\ntest = false\ndoc = false\n            ");
    reveal_strlit(".rs");
    let b = fuzz_test_binary(name);
    assert(b + ".rs\"\ntest = false\ndoc = false\n            "@ =~= (b + ".rs"@)
        + "\"\ntest = false\ndoc = false\n            "@);
    assert(cargo_bin_entry(b) =~= "\n[[bin]]\nname = \""@ + b + "\"\npath = \"fuzz-tests/"@ + (b
        + ".rs"@) + "\"\ntest = false\ndoc = false\n            "@);
}

impl Commander {
    /// Plans the creation of the fuzz test `name`: it fails with
    /// `BadWorkspace` outside the root of the workspace (where the
    /// `trdelnik-tests` package is missing); otherwise the test goes to
    /// `fuzz-tests/<binary>.rs` of the package and is registered there as the
    /// binary `<binary>`, the name without a trailing `.rs`.
    pub fn new_fuzz_test(&self, name: String, tests_package_exists: bool) -> (plan: Result<
        NewFuzzTest,
        Error,
    >)
        ensures
            !tests_package_exists <==> plan == Err::<NewFuzzTest, Error>(Error::BadWorkspace),
            plan matches Ok(p) ==> {
                &&& p.file_name@ == fuzz_test_file(name@)
                &&& p.test_path@ == "fuzz-tests/"@ + fuzz_test_file(name@)
                &&& p.binary_name@ == fuzz_test_binary(name@)
                &&& p.cargo_entry@ == cargo_bin_entry(fuzz_test_binary(name@))
            },
    {
        if !tests_package_exists {
            return Err(Error::BadWorkspace);
        }
        let binary_name = fuzz_test_binary_name(name.as_str());
        let file_name = fuzz_test_file_name(name);
        let mut test_path = String::from_str("fuzz-tests/");
        test_path.append(file_name.as_str());
        let mut cargo_entry = String::from_str("\n[[bin]]\nname = \"");
        cargo_entry.append(binary_name.as_str());
        cargo_entry.append("\"\npath = \"fuzz-tests/");
        cargo_entry.append(binary_name.as_str());
        cargo_entry.append(".rs\"\ntest = false\ndoc = false\n            ");
        Ok(NewFuzzTest { file_name, test_path, binary_name, cargo_entry })
    }

    /// Builds the arguments of `cargo` that run the fuzz test `name`: the
    /// binary that creating the test registered.
    pub fn run_fuzz_test_args(&self, name: &str) -> (args: Vec<String>)
        ensures
            texts(args@) == run_fuzz_test_command(name@),
    {
        let binary = fuzz_test_binary_name(name);
        let mut args = Vec::new();
        push_text(&mut args, "run");
        push_text(&mut args, "--bin");
        push_text(&mut args, binary.as_str());
        assert(texts(args@) =~= run_fuzz_test_command(name@));
        args
    }
}

} // verus!
