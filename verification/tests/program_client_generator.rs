use quote::ToTokens;
use trdelnik::client::idl::{Idl, IdlAccountGroup, IdlInstruction, IdlName, IdlProgram};
use trdelnik::client::program_client_generator::{generate_source_code, try_generate_source_code};

const HEADER: &str = "// DO NOT EDIT - automatically generated file (except `use` statements inside the `*_instruction` module\n";

const EXPECTED_CLIENT_CODE: &str = r#"// DO NOT EDIT - automatically generated file (except `use` statements inside the `*_instruction` module
pub mod turnstile_instruction {
    use trdelnik_client::*;
    pub static PROGRAM_ID: Pubkey = Pubkey::new_from_array([
        216u8, 55u8, 200u8, 93u8, 189u8, 81u8, 94u8, 109u8, 14u8, 249u8, 244u8, 106u8, 68u8, 214u8,
        222u8, 190u8, 9u8, 25u8, 199u8, 75u8, 79u8, 230u8, 94u8, 137u8, 51u8, 187u8, 193u8, 48u8,
        87u8, 222u8, 175u8, 163u8,
    ]);
    pub async fn initialize(
        client: &Client,
        parameters: turnstile::instruction::Initialize,
        accounts: turnstile::accounts::Initialize,
        signers: impl IntoIterator<Item = Keypair> + Send + 'static,
    ) -> Result<EncodedConfirmedTransactionWithStatusMeta, ClientError> {
        Ok(client
            .send_instruction(PROGRAM_ID, parameters, accounts, signers)
            .await?)
    }
    pub fn initialize_ix(
        parameters: turnstile::instruction::Initialize,
        accounts: turnstile::accounts::Initialize,
    ) -> Instruction {
        Instruction {
            program_id: PROGRAM_ID,
            data: parameters.data(),
            accounts: accounts.to_account_metas(None),
        }
    }
    pub async fn coin(
        client: &Client,
        parameters: turnstile::instruction::Coin,
        accounts: turnstile::accounts::UpdateState,
        signers: impl IntoIterator<Item = Keypair> + Send + 'static,
    ) -> Result<EncodedConfirmedTransactionWithStatusMeta, ClientError> {
        Ok(client
            .send_instruction(PROGRAM_ID, parameters, accounts, signers)
            .await?)
    }
    pub fn coin_ix(
        parameters: turnstile::instruction::Coin,
        accounts: turnstile::accounts::UpdateState,
    ) -> Instruction {
        Instruction {
            program_id: PROGRAM_ID,
            data: parameters.data(),
            accounts: accounts.to_account_metas(None),
        }
    }
    pub async fn push(
        client: &Client,
        parameters: turnstile::instruction::Push,
        accounts: turnstile::accounts::UpdateState,
        signers: impl IntoIterator<Item = Keypair> + Send + 'static,
    ) -> Result<EncodedConfirmedTransactionWithStatusMeta, ClientError> {
        Ok(client
            .send_instruction(PROGRAM_ID, parameters, accounts, signers)
            .await?)
    }
    pub fn push_ix(
        parameters: turnstile::instruction::Push,
        accounts: turnstile::accounts::UpdateState,
    ) -> Instruction {
        Instruction {
            program_id: PROGRAM_ID,
            data: parameters.data(),
            accounts: accounts.to_account_metas(None),
        }
    }
}
"#;

const TURNSTILE_ID: &str = "[216u8, 55u8, 200u8, 93u8, 189u8, 81u8, 94u8, 109u8, 14u8, 249u8, 244u8, 106u8, 68u8, 214u8, 222u8, 190u8, 9u8, 25u8, 199u8, 75u8, 79u8, 230u8, 94u8, 137u8, 51u8, 187u8, 193u8, 48u8, 87u8, 222u8, 175u8, 163u8,]";

fn name(snake_case: &str, upper_camel_case: &str) -> IdlName {
    IdlName {
        snake_case: snake_case.to_string(),
        upper_camel_case: upper_camel_case.to_string(),
    }
}

fn pair(ix: (&str, &str), accounts: &str) -> (IdlInstruction, IdlAccountGroup) {
    (
        IdlInstruction { name: name(ix.0, ix.1) },
        IdlAccountGroup { name: name("", accounts) },
    )
}

fn turnstile() -> IdlProgram {
    IdlProgram {
        name: name("turnstile", "Turnstile"),
        id: TURNSTILE_ID.to_string(),
        instruction_account_pairs: vec![
            pair(("initialize", "Initialize"), "Initialize"),
            pair(("coin", "Coin"), "UpdateState"),
            pair(("push", "Push"), "UpdateState"),
        ],
    }
}

fn rendered_use(code: &str) -> String {
    syn::parse_str::<syn::ItemUse>(code)
        .unwrap()
        .into_token_stream()
        .to_string()
}

#[test]
fn generated_client_matches_expected_code() {
    let idl = Idl { programs: vec![turnstile()] };
    let uses = vec![rendered_use("use trdelnik_client::*;")];
    let code = generate_source_code(idl, &uses);
    assert!(code.starts_with(HEADER));
    let expected = syn::parse_str::<syn::File>(EXPECTED_CLIENT_CODE)
        .unwrap()
        .into_token_stream()
        .to_string();
    // The expected code went through rustfmt, which drops the trailing comma
    // of a call that fits on one line; the generated code keeps it.
    let generated = code[HEADER.len()..].replace("signers ,)", "signers)");
    let first_difference = generated
        .chars()
        .zip(expected.chars())
        .position(|(a, b)| a != b);
    assert!(
        generated == expected,
        "first difference at {:?}: {:?} / {:?}",
        first_difference,
        first_difference.map(|i| generated.chars().skip(i.saturating_sub(40)).take(80).collect::<String>()),
        first_difference.map(|i| expected.chars().skip(i.saturating_sub(40)).take(80).collect::<String>()),
    );
}

#[test]
fn generated_client_has_only_header_without_programs() {
    let code = generate_source_code(Idl { programs: vec![] }, &[]);
    assert_eq!(code, HEADER);
}

#[test]
fn generated_module_renders_id_and_identifiers() {
    let program = IdlProgram {
        name: name("my-program", "MyProgram"),
        id: "[1u8,2u8]".to_string(),
        instruction_account_pairs: vec![pair(("go", "Go"), "Accounts")],
    };
    let code = try_generate_source_code(Idl { programs: vec![program] }, &[]).unwrap();
    let expected = format!(
        "{HEADER}pub mod my_program_instruction {{ pub static PROGRAM_ID : Pubkey = Pubkey :: new_from_array ([1u8 , 2u8]) ; \
pub async fn go (client : & Client , parameters : my_program :: instruction :: Go , accounts : my_program :: accounts :: Accounts , \
signers : impl IntoIterator < Item = Keypair > + Send + 'static ,) -> Result < EncodedConfirmedTransactionWithStatusMeta , ClientError > \
{{ Ok (client . send_instruction (PROGRAM_ID , parameters , accounts , signers ,) . await ?) }} \
pub fn go_ix (parameters : my_program :: instruction :: Go , accounts : my_program :: accounts :: Accounts ,) -> Instruction \
{{ Instruction {{ program_id : PROGRAM_ID , data : parameters . data () , accounts : accounts . to_account_metas (None) , }} }} }}"
    );
    assert_eq!(code, expected);
}

#[test]
fn generated_modules_keep_every_use_statement() {
    let program = IdlProgram {
        name: name("empty", "Empty"),
        id: "[0u8]".to_string(),
        instruction_account_pairs: vec![],
    };
    let uses = vec![
        rendered_use("use trdelnik_client::*;"),
        rendered_use("use std::str::FromStr;"),
    ];
    let code = generate_source_code(Idl { programs: vec![program] }, &uses);
    assert_eq!(
        code,
        format!("{HEADER}pub mod empty_instruction {{ use trdelnik_client :: * ; use std :: str :: FromStr ; pub static PROGRAM_ID : Pubkey = Pubkey :: new_from_array ([0u8]) ; }}")
    );
}

#[test]
fn generation_is_refused_for_names_that_are_not_identifiers() {
    let bad_program = IdlProgram {
        name: name("1program", "Program"),
        id: "[0u8]".to_string(),
        instruction_account_pairs: vec![],
    };
    assert!(try_generate_source_code(Idl { programs: vec![bad_program] }, &[]).is_none());
    let bad_instruction = IdlProgram {
        name: name("program", "Program"),
        id: "[0u8]".to_string(),
        instruction_account_pairs: vec![pair(("fn", "Fn"), "Accounts")],
    };
    assert!(try_generate_source_code(Idl { programs: vec![bad_instruction] }, &[]).is_none());
    let bad_id = IdlProgram {
        name: name("program", "Program"),
        id: "not an array".to_string(),
        instruction_account_pairs: vec![],
    };
    assert!(try_generate_source_code(Idl { programs: vec![bad_id] }, &[]).is_none());
}
