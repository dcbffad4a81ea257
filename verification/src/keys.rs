//! Key generation through the two runs of the key tool: `wg genkey` makes
//! the private key, `wg pubkey` derives the public key from it.
//!
//! The caller runs the tool; `gen_keys` decides, run by run, what follows.

use crate::error::{KeyFault, KeyGenError, KeyStep};
use crate::interface::{
    genkey_call, genkey_call_spec, pubkey_call, pubkey_call_spec, Invocation, InvocationView,
    Outcome,
};
use crate::text::{trim, trimmed};
use vstd::prelude::*;
use vstd::string::*;
use vstd::utf8::{
    decode_utf8, encode_utf8, encode_utf8_decode_utf8, is_ascii_chars,
    is_ascii_chars_encode_utf8, valid_utf8,
};

verus! {

/// The length of a key as the tool writes it: 32 bytes in base64.
pub const KEY_LENGTH: usize = 44;

/// A text of the shape of a key: 44 ASCII characters.
pub open spec fn is_key(text: Seq<char>) -> bool {
    text.len() == KEY_LENGTH && is_ascii_chars(text)
}

/// How far key generation has come.
#[derive(Debug, PartialEq, Eq)]
pub enum KeyGen {
    /// `wg genkey` is to run.
    Private,
    /// `wg pubkey` is to run, fed with what `wg genkey` wrote.
    Public { private_output: String },
    /// Both keys are there, trimmed.
    Done { private_key: String, public_key: String },
    /// A run failed; no key is given out.
    Failed(KeyGenError),
}

/// The state of key generation with its texts as sequences of characters.
pub enum KeyGenView {
    Private,
    Public { private_output: Seq<char> },
    Done { private_key: Seq<char>, public_key: Seq<char> },
    Failed(KeyGenError),
}

impl View for KeyGen {
    type V = KeyGenView;

    open spec fn view(&self) -> KeyGenView {
        match self {
            KeyGen::Private => KeyGenView::Private,
            KeyGen::Public { private_output } => KeyGenView::Public {
                private_output: private_output@,
            },
            KeyGen::Done { private_key, public_key } => KeyGenView::Done {
                private_key: private_key@,
                public_key: public_key@,
            },
            KeyGen::Failed(error) => KeyGenView::Failed(*error),
        }
    }
}

impl KeyGenView {
    /// Every key held has the shape of a key.
    pub open spec fn wf(self) -> bool {
        match self {
            KeyGenView::Public { private_output } => is_key(trimmed(private_output)),
            KeyGenView::Done { private_key, public_key } => is_key(private_key) && is_key(
                public_key,
            ),
            _ => true,
        }
    }

    /// The run that the state waits for, if any.
    pub open spec fn call(self) -> Option<InvocationView> {
        match self {
            KeyGenView::Private => Some(genkey_call_spec()),
            KeyGenView::Public { private_output } => Some(pubkey_call_spec(private_output)),
            _ => None,
        }
    }
}

/// What a run of the key tool wrote, as text: the run must have ended with
/// success, and its output must be UTF-8.
pub open spec fn output_text(outcome: Outcome) -> Result<Seq<char>, KeyFault> {
    match outcome {
        Outcome::NotStarted => Err(KeyFault::Unavailable),
        Outcome::Interrupted => Err(KeyFault::Interrupted),
        Outcome::Exited { success, stdout } => if !success {
            Err(KeyFault::Unsuccessful)
        } else if !valid_utf8(stdout@) {
            Err(KeyFault::NotText)
        } else {
            Ok(decode_utf8(stdout@))
        },
    }
}

/// What a run of the key tool wrote, where that is a key once it is
/// trimmed.
pub open spec fn key_text(outcome: Outcome) -> Result<Seq<char>, KeyFault> {
    match output_text(outcome) {
        Ok(text) => if is_key(trimmed(text)) {
            Ok(text)
        } else {
            Err(KeyFault::NotAKey)
        },
        Err(fault) => Err(fault),
    }
}

/// The state that follows when the run that a state waits for has ended.
/// The private key reaches `wg pubkey` as `wg genkey` wrote it; both keys
/// are given out trimmed. A state that waits for no run stays as it is.
pub open spec fn key_step(state: KeyGenView, outcome: Outcome) -> KeyGenView {
    match state {
        KeyGenView::Private => match key_text(outcome) {
            Ok(text) => KeyGenView::Public { private_output: text },
            Err(fault) => KeyGenView::Failed(KeyGenError { step: KeyStep::GenKey, fault }),
        },
        KeyGenView::Public { private_output } => match key_text(outcome) {
            Ok(text) => KeyGenView::Done {
                private_key: trimmed(private_output),
                public_key: trimmed(text),
            },
            Err(fault) => KeyGenView::Failed(KeyGenError { step: KeyStep::PubKey, fault }),
        },
        _ => state,
    }
}

/// `String::from_utf8` turns bytes that are UTF-8 into the text that they
/// encode, and refuses all other bytes.
#[verifier::external_body]
fn text_from_utf8(bytes: Vec<u8>) -> (text: Option<String>)
    ensures
        text is Some <==> valid_utf8(bytes@),
        text matches Some(s) ==> encode_utf8(s@) == bytes@,
{
    String::from_utf8(bytes).ok()
}

/// Reads a key out of a run of the key tool: the text that the run wrote,
/// provided that it is a key once trimmed.
pub fn key_output(outcome: Outcome) -> (result: Result<String, KeyFault>)
    ensures
        match result {
            Ok(text) => key_text(outcome) == Ok::<Seq<char>, KeyFault>(text@),
            Err(fault) => key_text(outcome) == Err::<Seq<char>, KeyFault>(fault),
        },
{
    match outcome {
        Outcome::NotStarted => Err(KeyFault::Unavailable),
        Outcome::Interrupted => Err(KeyFault::Interrupted),
        Outcome::Exited { success, stdout } => {
            if !success {
                return Err(KeyFault::Unsuccessful);
            }
            match text_from_utf8(stdout) {
                None => Err(KeyFault::NotText),
                Some(text) => {
                    proof {
                        encode_utf8_decode_utf8(text@);
                    }
                    let key = trim(text.as_str());
                    if key.as_str().is_ascii() && key.as_str().unicode_len() == KEY_LENGTH {
                        Ok(text)
                    } else {
                        Err(KeyFault::NotAKey)
                    }
                },
            }
        },
    }
}

impl KeyGen {
    /// Key generation before its first run.
    pub fn start() -> (state: KeyGen)
        ensures
            state@ == KeyGenView::Private,
    {
        KeyGen::Private
    }

    /// The run that the state waits for, if any.
    pub fn call(&self) -> (call: Option<Invocation>)
        ensures
            match call {
                Some(c) => self@.call() == Some(c@),
                None => self@.call() is None,
            },
    {
        match self {
            KeyGen::Private => Some(genkey_call()),
            KeyGen::Public { private_output } => Some(pubkey_call(private_output.as_str())),
            _ => None,
        }
    }
}

/// One step of key generation: takes the outcome of the run that the state
/// waits for and gives the state that follows.
pub fn gen_keys(state: &KeyGen, outcome: Outcome) -> (next: KeyGen)
    ensures
        next@ == key_step(state@, outcome),
        state@.wf() ==> next@.wf(),
{
    match state {
        KeyGen::Private => match key_output(outcome) {
            Ok(text) => KeyGen::Public { private_output: text },
            Err(fault) => KeyGen::Failed(KeyGenError { step: KeyStep::GenKey, fault }),
        },
        KeyGen::Public { private_output } => match key_output(outcome) {
            Ok(text) => KeyGen::Done {
                private_key: trim(private_output.as_str()),
                public_key: trim(text.as_str()),
            },
            Err(fault) => KeyGen::Failed(KeyGenError { step: KeyStep::PubKey, fault }),
        },
        KeyGen::Done { private_key, public_key } => KeyGen::Done {
            private_key: private_key.clone(),
            public_key: public_key.clone(),
        },
        KeyGen::Failed(error) => KeyGen::Failed(*error),
    }
}

/// A key is 44 characters long, and 44 bytes long in UTF-8.
pub proof fn lemma_key_length(key: Seq<char>)
    requires
        is_key(key),
    ensures
        key.len() == 44,
        encode_utf8(key).len() == 44,
{
    is_ascii_chars_encode_utf8(key);
}

/// Keys that are given out have the length of a key: a step keeps every key
/// held in the shape of a key, whatever the run gave.
pub proof fn lemma_keys_have_key_length(state: KeyGenView, outcome: Outcome)
    requires
        state.wf(),
    ensures
        key_step(state, outcome).wf(),
        key_step(state, outcome) matches KeyGenView::Done { private_key, public_key } ==> {
            &&& private_key.len() == 44
            &&& public_key.len() == 44
            &&& encode_utf8(private_key).len() == 44
            &&& encode_utf8(public_key).len() == 44
        },
{
    match key_step(state, outcome) {
        KeyGenView::Done { private_key, public_key } => {
            lemma_key_length(private_key);
            lemma_key_length(public_key);
        },
        _ => {},
    }
}

} // verus!
