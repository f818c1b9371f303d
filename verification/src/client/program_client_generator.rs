//! Generation of the `program_client` crate's `lib.rs` from the description of
//! the Anchor programs of a project.
//!
//! The generated code is the token rendering of one module per program: the
//! tokens are separated by single spaces, except that a multi-character
//! operator (`::`, `->`) and a lifetime (`'static`) are written without inner
//! spaces, and a non-empty brace group is written as `{ ... }`. Identifiers and
//! the program id are checked and rendered by `syn`.
use crate::client::idl::{Idl, IdlAccountGroup, IdlInstruction, IdlProgram};
use crate::text::replace_dashes;
use crate::text::replace_dashes_of;
use quote::ToTokens;
use vstd::prelude::*;
use vstd::string::*;

verus! {

/// What `syn` renders for `text` parsed as an identifier (`None` when `text`
/// is not a single non-keyword identifier).
pub uninterp spec fn rust_ident(text: Seq<char>) -> Option<Seq<char>>;

/// What `syn` renders for `text` parsed as an array expression (`None` when
/// `text` is not one).
pub uninterp spec fn rust_array_expr(text: Seq<char>) -> Option<Seq<char>>;

/// Calls `syn::parse_str::<syn::Ident>` on `text` and renders a parsed
/// identifier with its `Display`. The contract claims only that the result
/// is a function of `text`, named `rust_ident`; which texts parse is left to
/// `syn`.
#[verifier::external_body]
fn parse_ident(text: &str) -> (r: Option<String>)
    ensures
        match r {
            Some(t) => rust_ident(text@) == Some(t@),
            None => rust_ident(text@) is None,
        },
{
    match syn::parse_str::<syn::Ident>(text) {
        Ok(ident) => Some(ident.to_string()),
        Err(_) => None,
    }
}

/// Calls `syn::parse_str::<syn::ExprArray>` on `text` and renders a parsed
/// expression's token stream with its `Display`. The contract claims only
/// that the result is a function of `text`, named `rust_array_expr`.
#[verifier::external_body]
fn parse_array_expr(text: &str) -> (r: Option<String>)
    ensures
        match r {
            Some(t) => rust_array_expr(text@) == Some(t@),
            None => rust_array_expr(text@) is None,
        },
{
    match syn::parse_str::<syn::ExprArray>(text) {
        Ok(array) => Some(array.into_token_stream().to_string()),
        Err(_) => None,
    }
}

/// The first line of every generated file.
pub open spec fn header() -> Seq<char> {
    "// DO NOT EDIT - automatically generated file (except `use` statements inside the `*_instruction` module\n"@
}

/// The program's name as a Rust identifier: its snake-case name with every
/// `-` replaced by `_`.
pub open spec fn program_name(p: IdlProgram) -> Seq<char> {
    replace_dashes(p.name.snake_case@)
}

/// The module of a program is named after its snake-case name with every
/// dash, not only the first, replaced by an underscore, followed by
/// `_instruction`.
pub proof fn lemma_module_ident(p: IdlProgram)
    ensures
        module_ident(p).len() == p.name.snake_case@.len() + 12,
        forall|i: int|
            0 <= i < p.name.snake_case@.len() ==> #[trigger] module_ident(p)[i] == (if p.name.snake_case@[i]
                == '-' {
                '_'
            } else {
                p.name.snake_case@[i]
            }),
        forall|i: int| 0 <= i < p.name.snake_case@.len() ==> #[trigger] module_ident(p)[i] != '-',
        module_ident(p).subrange(p.name.snake_case@.len() as int, module_ident(p).len() as int)
            == "_instruction"@,
{
    reveal_strlit("_instruction");
    crate::text::lemma_replace_dashes(p.name.snake_case@);
    let n = p.name.snake_case@.len();
    assert forall|i: int| 0 <= i < n implies #[trigger] module_ident(p)[i] == program_name(p)[i] by {}
    assert(module_ident(p).subrange(n as int, module_ident(p).len() as int) =~= "_instruction"@);
}

/// The name of the module generated for a program.
pub open spec fn module_ident(p: IdlProgram) -> Seq<char> {
    program_name(p) + "_instruction"@
}

/// The four identifiers generated for an instruction parse.
pub open spec fn instruction_ok(ix: IdlInstruction, acc: IdlAccountGroup) -> bool {
    &&& rust_ident(ix.name.snake_case@) is Some
    &&& rust_ident(ix.name.upper_camel_case@) is Some
    &&& rust_ident(acc.name.upper_camel_case@) is Some
    &&& rust_ident(ix.name.snake_case@ + "_ix"@) is Some
}

/// Every identifier and the id of a program parse, and the module name is an
/// identifier exactly as written.
pub open spec fn program_ok(p: IdlProgram) -> bool {
    &&& rust_ident(program_name(p)) is Some
    &&& rust_ident(module_ident(p)) == Some(module_ident(p))
    &&& rust_array_expr(p.id@) is Some
    &&& forall|k: int|
        0 <= k < p.instruction_account_pairs@.len() ==> #[trigger] instruction_ok(
            p.instruction_account_pairs@[k].0,
            p.instruction_account_pairs@[k].1,
        )
}

/// Every program of the description can be generated.
pub open spec fn idl_ok(idl: Idl) -> bool {
    forall|i: int| 0 <= i < idl.programs@.len() ==> #[trigger] program_ok(idl.programs@[i])
}

/// The two functions generated for an instruction: one that sends it with a
/// client and one that builds it, each preceded by a space.
pub open spec fn instruction_fns_text(
    m: Seq<char>,
    ix: IdlInstruction,
    acc: IdlAccountGroup,
) -> Seq<char> {
    let f = rust_ident(ix.name.snake_case@)->0;
    let s = rust_ident(ix.name.upper_camel_case@)->0;
    let a = rust_ident(acc.name.upper_camel_case@)->0;
    let r = rust_ident(ix.name.snake_case@ + "_ix"@)->0;
    " pub async fn "@ + f + " (client : & Client , parameters : "@ + m + " :: instruction :: "@ + s + " , accounts : "@ + m + " :: accounts :: "@ + a + " , signers : impl IntoIterator < Item = Keypair > + Send + 'static ,) -> Result < EncodedConfirmedTransactionWithStatusMeta , ClientError > { Ok (client . send_instruction (PROGRAM_ID , parameters , accounts , signers ,) . await ?) } pub fn "@ + r + " (parameters : "@ + m + " :: instruction :: "@ + s + " , accounts : "@ + m + " :: accounts :: "@ + a + " ,) -> Instruction { Instruction { program_id : PROGRAM_ID , data : parameters . data () , accounts : accounts . to_account_metas (None) , } }"@
}

/// The functions of all instructions, in order.
pub open spec fn instructions_text(
    m: Seq<char>,
    pairs: Seq<(IdlInstruction, IdlAccountGroup)>,
) -> Seq<char>
    decreases pairs.len(),
{
    if pairs.len() == 0 {
        seq![]
    } else {
        instructions_text(m, pairs.drop_last()) + instruction_fns_text(
            m,
            pairs.last().0,
            pairs.last().1,
        )
    }
}

/// The `use` statements kept inside each generated module, each followed by a
/// space.
pub open spec fn uses_text(uses: Seq<String>) -> Seq<char>
    decreases uses.len(),
{
    if uses.len() == 0 {
        seq![]
    } else {
        uses_text(uses.drop_last()) + uses.last()@ + " "@
    }
}

/// The module generated for a program.
pub open spec fn program_module_text(p: IdlProgram, uses: Seq<String>) -> Seq<char> {
    "pub mod "@ + module_ident(p) + " { "@ + uses_text(uses)
        + "pub static PROGRAM_ID : Pubkey = Pubkey :: new_from_array ("@ + rust_array_expr(p.id@)->0
        + ") ;"@ + instructions_text(rust_ident(program_name(p))->0, p.instruction_account_pairs@)
        + " }"@
}

/// The modules of all programs, in order.
pub open spec fn programs_text(programs: Seq<IdlProgram>, uses: Seq<String>) -> Seq<char>
    decreases programs.len(),
{
    if programs.len() == 0 {
        seq![]
    } else {
        programs_text(programs.drop_last(), uses) + program_module_text(programs.last(), uses)
    }
}

/// Generating for two lists of programs one after another gives the modules
/// of the first list followed by those of the second.
#[verifier::spinoff_prover]
pub proof fn lemma_programs_text_append(
    first: Seq<IdlProgram>,
    second: Seq<IdlProgram>,
    uses: Seq<String>,
)
    ensures
        programs_text(first + second, uses) == programs_text(first, uses) + programs_text(
            second,
            uses,
        ),
    decreases second.len(),
{
    if second.len() == 0 {
        assert(first + second =~= first);
        assert(programs_text(second, uses) =~= Seq::<char>::empty());
        assert(programs_text(first, uses) + programs_text(second, uses) =~= programs_text(first, uses));
    } else {
        lemma_programs_text_append(first, second.drop_last(), uses);
        assert((first + second).drop_last() =~= first + second.drop_last());
        assert((first + second).last() == second.last());
        assert(programs_text(first + second, uses) =~= programs_text(first, uses) + programs_text(
            second,
            uses,
        ));
    }
}

/// The generated `lib.rs`: the header line, then one module per program.
pub open spec fn source_code_text(idl: Idl, uses: Seq<String>) -> Seq<char> {
    header() + programs_text(idl.programs@, uses)
}

fn instruction_fns(module_name: &String, ix: &IdlInstruction, acc: &IdlAccountGroup) -> (t: String)
    requires
        instruction_ok(*ix, *acc),
    ensures
        t@ == instruction_fns_text(module_name@, *ix, *acc),
{
    let f = parse_ident(ix.name.snake_case.as_str()).unwrap();
    let s = parse_ident(ix.name.upper_camel_case.as_str()).unwrap();
    let a = parse_ident(acc.name.upper_camel_case.as_str()).unwrap();
    let mut raw_name = ix.name.snake_case.clone();
    raw_name.append("_ix");
    let r = parse_ident(raw_name.as_str()).unwrap();
    let mut t = String::new();
    t.append(" pub async fn ");
    t.append(f.as_str());
    t.append(" (client : & Client , parameters : ");
    t.append(module_name.as_str());
    t.append(" :: instruction :: ");
    t.append(s.as_str());
    t.append(" , accounts : ");
    t.append(module_name.as_str());
    t.append(" :: accounts :: ");
    t.append(a.as_str());
    t.append(" , signers : impl IntoIterator < Item = Keypair > + Send + 'static ,) -> Result < EncodedConfirmedTransactionWithStatusMeta , ClientError > { Ok (client . send_instruction (PROGRAM_ID , parameters , accounts , signers ,) . await ?) } pub fn ");
    t.append(r.as_str());
    t.append(" (parameters : ");
    t.append(module_name.as_str());
    t.append(" :: instruction :: ");
    t.append(s.as_str());
    t.append(" , accounts : ");
    t.append(module_name.as_str());
    t.append(" :: accounts :: ");
    t.append(a.as_str());
    t.append(" ,) -> Instruction { Instruction { program_id : PROGRAM_ID , data : parameters . data () , accounts : accounts . to_account_metas (None) , } }");
    assert(t@ =~= instruction_fns_text(module_name@, *ix, *acc));
    t
}

fn program_module(p: &IdlProgram, uses: &[String]) -> (t: String)
    requires
        program_ok(*p),
    ensures
        t@ == program_module_text(*p, uses@),
{
    let name = replace_dashes_of(p.name.snake_case.as_str());
    let mut module = name.clone();
    module.append("_instruction");
    let module_name = parse_ident(name.as_str()).unwrap();
    let array = parse_array_expr(p.id.as_str()).unwrap();
    let mut t = String::new();
    t.append("pub mod ");
    t.append(module.as_str());
    t.append(" { ");
    let ghost start = t@;
    let mut j: usize = 0;
    while j < uses.len()
        invariant
            j <= uses@.len(),
            t@ == start + uses_text(uses@.take(j as int)),
        decreases uses.len() - j,
    {
        t.append(uses[j].as_str());
        t.append(" ");
        assert(uses@.take(j + 1).drop_last() =~= uses@.take(j as int));
        assert(t@ =~= start + uses_text(uses@.take(j + 1)));
        j = j + 1;
    }
    assert(uses@.take(uses@.len() as int) =~= uses@);
    t.append("pub static PROGRAM_ID : Pubkey = Pubkey :: new_from_array (");
    t.append(array.as_str());
    t.append(") ;");
    let ghost before = t@;
    let pairs = &p.instruction_account_pairs;
    let mut k: usize = 0;
    while k < pairs.len()
        invariant
            k <= pairs@.len(),
            pairs@ == p.instruction_account_pairs@,
            program_ok(*p),
            module_name@ == rust_ident(program_name(*p))->0,
            t@ == before + instructions_text(module_name@, pairs@.take(k as int)),
        decreases pairs.len() - k,
    {
        assert(instruction_ok(pairs@[k as int].0, pairs@[k as int].1));
        let fns = instruction_fns(&module_name, &pairs[k].0, &pairs[k].1);
        t.append(fns.as_str());
        assert(pairs@.take(k + 1).drop_last() =~= pairs@.take(k as int));
        assert(t@ =~= before + instructions_text(module_name@, pairs@.take(k + 1)));
        k = k + 1;
    }
    assert(pairs@.take(pairs@.len() as int) =~= pairs@);
    t.append(" }");
    assert(t@ =~= program_module_text(*p, uses@));
    t
}

/// Generates the `program_client` crate's `lib.rs` from the description of
/// the programs; `use_modules` are the rendered `use` statements that every
/// generated module keeps.
pub fn generate_source_code(idl: Idl, use_modules: &[String]) -> (code: String)
    requires
        idl_ok(idl),
    ensures
        code@ == source_code_text(idl, use_modules@),
{
    let mut output = String::from_str(
        "// DO NOT EDIT - automatically generated file (except `use` statements inside the `*_instruction` module\n",
    );
    let mut i: usize = 0;
    while i < idl.programs.len()
        invariant
            i <= idl.programs@.len(),
            idl_ok(idl),
            output@ == header() + programs_text(idl.programs@.take(i as int), use_modules@),
        decreases idl.programs.len() - i,
    {
        assert(program_ok(idl.programs@[i as int]));
        let module = program_module(&idl.programs[i], use_modules);
        output.append(module.as_str());
        assert(idl.programs@.take(i + 1).drop_last() =~= idl.programs@.take(i as int));
        assert(output@ =~= header() + programs_text(idl.programs@.take(i + 1), use_modules@));
        i = i + 1;
    }
    assert(idl.programs@.take(idl.programs@.len() as int) =~= idl.programs@);
    output
}

fn check_program(p: &IdlProgram) -> (ok: bool)
    ensures
        ok == program_ok(*p),
{
    let name = replace_dashes_of(p.name.snake_case.as_str());
    if parse_ident(name.as_str()).is_none() {
        return false;
    }
    let mut module = name.clone();
    module.append("_instruction");
    match parse_ident(module.as_str()) {
        Some(rendered) => {
            if !(rendered == module) {
                return false;
            }
        },
        None => {
            return false;
        },
    }
    if parse_array_expr(p.id.as_str()).is_none() {
        return false;
    }
    let pairs = &p.instruction_account_pairs;
    let mut k: usize = 0;
    while k < pairs.len()
        invariant
            k <= pairs@.len(),
            pairs@ == p.instruction_account_pairs@,
            forall|j: int| 0 <= j < k ==> #[trigger] instruction_ok(pairs@[j].0, pairs@[j].1),
        decreases pairs.len() - k,
    {
        let ix = &pairs[k].0;
        let acc = &pairs[k].1;
        let mut raw_name = ix.name.snake_case.clone();
        raw_name.append("_ix");
        if parse_ident(ix.name.snake_case.as_str()).is_none() || parse_ident(
            ix.name.upper_camel_case.as_str(),
        ).is_none() || parse_ident(acc.name.upper_camel_case.as_str()).is_none() || parse_ident(
            raw_name.as_str(),
        ).is_none() {
            assert(!instruction_ok(pairs@[k as int].0, pairs@[k as int].1));
            return false;
        }
        k = k + 1;
    }
    true
}

/// Generates the `program_client` crate's `lib.rs` when every program of the
/// description can be generated, and returns `None` otherwise.
pub fn try_generate_source_code(idl: Idl, use_modules: &[String]) -> (code: Option<String>)
    ensures
        code is Some <==> idl_ok(idl),
        code matches Some(c) ==> c@ == source_code_text(idl, use_modules@),
{
    let mut i: usize = 0;
    while i < idl.programs.len()
        invariant
            i <= idl.programs@.len(),
            forall|j: int| 0 <= j < i ==> #[trigger] program_ok(idl.programs@[j]),
        decreases idl.programs.len() - i,
    {
        if !check_program(&idl.programs[i]) {
            return None;
        }
        i = i + 1;
    }
    Some(generate_source_code(idl, use_modules))
}

} // verus!
