//! What can go wrong while a peer is provisioned or removed.

use vstd::prelude::*;

verus! {

/// The two runs of the key tool.
#[derive(Clone, Copy, Debug, PartialEq, Eq, Structural)]
pub enum KeyStep {
    /// `wg genkey`, which makes the private key.
    GenKey,
    /// `wg pubkey`, which derives the public key.
    PubKey,
}

/// Why a run of the key tool gave no key.
#[derive(Clone, Copy, Debug, PartialEq, Eq, Structural)]
pub enum KeyFault {
    /// The tool could not be started.
    Unavailable,
    /// The tool was started, but could not be fed or waited for.
    Interrupted,
    /// The tool ended with a failure status.
    Unsuccessful,
    /// The tool's output is not UTF-8.
    NotText,
    /// The tool's output, trimmed, is not a key.
    NotAKey,
}

/// A failed key generation: the run that failed, and why.
#[derive(Clone, Copy, Debug, PartialEq, Eq, Structural)]
pub struct KeyGenError {
    pub step: KeyStep,
    pub fault: KeyFault,
}

/// The kinds of failure. Each ends the operation it occurs in; nothing is
/// tried again.
#[derive(Clone, Copy, Debug, PartialEq, Eq, Structural)]
pub enum ProvisionError {
    /// The key tool is unavailable or failed.
    KeyGen(KeyGenError),
    /// Every address of the pool is taken.
    PoolExhausted,
    /// The interface tool could not be started or waited for.
    Interface,
    /// The configuration file could not be written.
    Io,
    /// The settings source is malformed.
    ConfigRead,
}

} // verus!
