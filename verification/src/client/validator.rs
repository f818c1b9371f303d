//! The local validator: where the programs, ledgers and logs of a test
//! validator are, and how the ports it is offered are searched for.
use crate::fuzz::random::rand_u16_below;
use crate::fuzz::random::rand_u8;
use crate::text::decimal;
use crate::text::push_decimal;
use vstd::prelude::*;
use vstd::string::*;

verus! {

/// How many random ports are tried before giving up.
pub const N_TRIES_FIND_RPC_PORT: u8 = 10;

/// The compiled program `name`, relative to the tests package.
pub open spec fn program_file(name: Seq<char>) -> Seq<char> {
    "../target/deploy/"@ + name + ".so"@
}

/// The ledger directory numbered `n`, relative to the tests package.
pub open spec fn ledger_dir(n: nat) -> Seq<char> {
    "../target/tmp/test-ledger-"@ + decimal(n) + "/"@
}

/// The log file of a validator started at `millis` milliseconds after the
/// Unix epoch.
pub open spec fn validator_log(millis: nat) -> Seq<char> {
    "validator-"@ + decimal(millis) + ".log"@
}

/// The path of the compiled program `program_name`.
pub fn program_path(program_name: &str) -> (path: String)
    ensures
        path@ == program_file(program_name@),
{
    let mut path = String::from_str("../target/deploy/");
    path.append(program_name);
    path.append(".so");
    path
}

/// The ledger directory numbered `n`.
pub fn ledger_path(n: u8) -> (path: String)
    ensures
        path@ == ledger_dir(n as nat),
{
    let mut path = String::from_str("../target/tmp/test-ledger-");
    push_decimal(&mut path, n as u128);
    path.append("/");
    path
}

/// A ledger directory with a random number.
pub fn random_ledger_path() -> (path: String)
    ensures
        exists|n: u8| path@ == #[trigger] ledger_dir(n as nat),
{
    let n = rand_u8();
    ledger_path(n)
}

/// The name of the log file of a validator started at `millis`.
pub fn validator_log_name(millis: u128) -> (name: String)
    ensures
        name@ == validator_log(millis as nat),
{
    let mut name = String::from_str("validator-");
    push_decimal(&mut name, millis);
    name.append(".log");
    name
}

/// A random candidate for the RPC port; the port after it is the websocket
/// port, so both must be free.
pub fn random_rpc_port() -> (port: u16)
    ensures
        10000 <= port < 19999,
{
    rand_u16_below(10000, 19999)
}

/// The RPC port and the websocket port right after it.
pub fn rpc_ports(port: u16) -> (ports: (u16, u16))
    requires
        port < u16::MAX,
    ensures
        ports == (port, (port + 1) as u16),
{
    (port, port + 1)
}

/// A random candidate for the faucet's port.
pub fn random_faucet_port() -> (port: u16)
    ensures
        30000 <= port < 65535,
{
    rand_u16_below(30000, 65535)
}

/// A search for free ports: it draws random candidates, at most
/// `N_TRIES_FIND_RPC_PORT` of them, until one is free.
pub struct PortSearch {
    tries_left: u8,
}

impl PortSearch {
    /// How many candidates the search may still draw.
    pub closed spec fn tries_left(&self) -> u8 {
        self.tries_left
    }

    /// Starts a search.
    pub fn new() -> (search: Self)
        ensures
            search.tries_left() == N_TRIES_FIND_RPC_PORT,
    {
        PortSearch { tries_left: N_TRIES_FIND_RPC_PORT }
    }

    /// Draws the next candidate for the RPC port and the websocket port
    /// after it, or `None` once every try is used up.
    pub fn next_rpc_ports(&mut self) -> (ports: Option<(u16, u16)>)
        ensures
            ports is None <==> old(self).tries_left() == 0,
            ports is None ==> final(self).tries_left() == 0,
            ports matches Some((rpc, websocket)) ==> {
                &&& 10000 <= rpc < 19999
                &&& websocket == rpc + 1
                &&& final(self).tries_left() == old(self).tries_left() - 1
            },
    {
        if self.tries_left == 0 {
            return None;
        }
        self.tries_left = self.tries_left - 1;
        Some(rpc_ports(random_rpc_port()))
    }

    /// Draws the next candidate for the faucet's port, or `None` once every
    /// try is used up.
    pub fn next_faucet_port(&mut self) -> (port: Option<u16>)
        ensures
            port is None <==> old(self).tries_left() == 0,
            port is None ==> final(self).tries_left() == 0,
            port matches Some(p) ==> {
                &&& 30000 <= p < 65535
                &&& final(self).tries_left() == old(self).tries_left() - 1
            },
    {
        if self.tries_left == 0 {
            return None;
        }
        self.tries_left = self.tries_left - 1;
        Some(random_faucet_port())
    }
}

} // verus!
