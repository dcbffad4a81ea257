//! Calls of the interface tool `wg`, and how a run of it ended.
//!
//! The library states what is to be run; the caller runs it and reports the
//! outcome.

use crate::address::Address;
use crate::error::ProvisionError;
use crate::text::text_of;
use vstd::prelude::*;
use vstd::string::*;

verus! {

/// A call of the interface tool: the program, its arguments, what is to be
/// written to its standard input, and whether what it writes to its
/// standard output is to be read.
#[derive(Debug, PartialEq, Eq)]
pub struct Invocation {
    pub program: String,
    pub args: Vec<String>,
    pub input: Option<String>,
    pub capture: bool,
}

/// A call with its texts as sequences of characters.
pub struct InvocationView {
    pub program: Seq<char>,
    pub args: Seq<Seq<char>>,
    pub input: Option<Seq<char>>,
    pub capture: bool,
}

impl View for Invocation {
    type V = InvocationView;

    open spec fn view(&self) -> InvocationView {
        InvocationView {
            program: self.program@,
            args: self.args.deep_view(),
            input: text_of(self.input),
            capture: self.capture,
        }
    }
}

/// How a run of the interface tool ended.
#[derive(Debug, PartialEq, Eq)]
pub enum Outcome {
    /// The tool could not be started.
    NotStarted,
    /// The tool was started, but could not be fed or waited for.
    Interrupted,
    /// The tool ran to its end.
    Exited {
        /// Whether the exit status reports success.
        success: bool,
        /// What the tool wrote to its standard output, where that was to
        /// be read; nothing otherwise.
        stdout: Vec<u8>,
    },
}

/// A call of `/usr/bin/wg`.
pub open spec fn tool_call(
    args: Seq<Seq<char>>,
    input: Option<Seq<char>>,
    capture: bool,
) -> InvocationView {
    InvocationView { program: "/usr/bin/wg"@, args, input, capture }
}

/// `wg genkey` writes a new private key to its standard output, which is
/// read.
pub open spec fn genkey_call_spec() -> InvocationView {
    tool_call(seq!["genkey"@], None, true)
}

/// `wg pubkey` reads a private key from its standard input and writes the
/// public key to its standard output.
pub open spec fn pubkey_call_spec(private_key: Seq<char>) -> InvocationView {
    tool_call(seq!["pubkey"@], Some(private_key), true)
}

/// `wg set wg0 peer <key> allowed-ips <address>/32` adds a peer that may
/// use the one address. What the tool writes is not read.
pub open spec fn register_call_spec(public_key: Seq<char>, address: Address) -> InvocationView {
    tool_call(
        seq!["set"@, "wg0"@, "peer"@, public_key, "allowed-ips"@, address.dotted() + "/32"@],
        None,
        false,
    )
}

/// `wg set wg0 peer <key> remove` removes a peer.
pub open spec fn deregister_call_spec(public_key: Seq<char>) -> InvocationView {
    tool_call(seq!["set"@, "wg0"@, "peer"@, public_key, "remove"@], None, false)
}

fn call(args: Vec<String>, input: Option<String>, capture: bool) -> (call: Invocation)
    ensures
        call@ == tool_call(args.deep_view(), text_of(input), capture),
{
    Invocation { program: String::from_str("/usr/bin/wg"), args, input, capture }
}

/// The call that makes a private key.
pub fn genkey_call() -> (call: Invocation)
    ensures
        call@ == genkey_call_spec(),
{
    let mut args: Vec<String> = Vec::new();
    args.push(String::from_str("genkey"));
    assert(args.deep_view() =~= seq!["genkey"@]);
    call(args, None, true)
}

/// The call that derives the public key from a private key.
pub fn pubkey_call(private_key: &str) -> (call: Invocation)
    ensures
        call@ == pubkey_call_spec(private_key@),
{
    let mut args: Vec<String> = Vec::new();
    args.push(String::from_str("pubkey"));
    assert(args.deep_view() =~= seq!["pubkey"@]);
    call(args, Some(String::from_str(private_key)), true)
}

/// The call that registers a peer with the interface.
pub fn register_call(public_key: &str, address: Address) -> (call: Invocation)
    ensures
        call@ == register_call_spec(public_key@, address),
{
    let mut allowed = address.text();
    allowed.append("/32");
    let mut args: Vec<String> = Vec::new();
    args.push(String::from_str("set"));
    args.push(String::from_str("wg0"));
    args.push(String::from_str("peer"));
    args.push(String::from_str(public_key));
    args.push(String::from_str("allowed-ips"));
    args.push(allowed);
    assert(args.deep_view() =~= seq![
        "set"@,
        "wg0"@,
        "peer"@,
        public_key@,
        "allowed-ips"@,
        address.dotted() + "/32"@,
    ]);
    call(args, None, false)
}

/// The call that removes a peer from the interface.
pub fn deregister_call(public_key: &str) -> (call: Invocation)
    ensures
        call@ == deregister_call_spec(public_key@),
{
    let mut args: Vec<String> = Vec::new();
    args.push(String::from_str("set"));
    args.push(String::from_str("wg0"));
    args.push(String::from_str("peer"));
    args.push(String::from_str(public_key));
    args.push(String::from_str("remove"));
    assert(args.deep_view() =~= seq!["set"@, "wg0"@, "peer"@, public_key@, "remove"@]);
    call(args, None, false)
}

/// Whether a run of the tool counts as done for the interface: it does
/// unless the tool could not be started or waited for. The exit status is
/// not looked at.
pub open spec fn interface_done(outcome: Outcome) -> bool {
    outcome is Exited
}

/// Judges a run that was to change the interface.
pub fn interface_result(outcome: &Outcome) -> (result: Result<(), ProvisionError>)
    ensures
        interface_done(*outcome) ==> result is Ok,
        !interface_done(*outcome) ==> result == Err::<(), ProvisionError>(
            ProvisionError::Interface,
        ),
{
    match outcome {
        Outcome::Exited { .. } => Ok(()),
        _ => Err(ProvisionError::Interface),
    }
}

} // verus!
