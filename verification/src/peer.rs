//! The peer record.

use crate::address::Address;
use crate::text::text_of;
use vstd::prelude::*;

verus! {

/// A participant of the tunnel. It is made with its owner's identity only;
/// provisioning stamps it with the time at which it begins and fills in
/// keys and address as it goes on.
#[derive(Debug, PartialEq, Eq)]
pub struct Peer {
    /// Identifier of the owning principal.
    pub user_id: u64,
    /// Display name; it names the configuration file.
    pub username: String,
    pub public_key: Option<String>,
    /// Handed to the owner in the rendered configuration, and nowhere else.
    pub private_key: Option<String>,
    /// The address drawn from the pool.
    pub ip: Option<Address>,
    /// The time at which the peer's provisioning began, in milliseconds
    /// since the Unix epoch; 0 as long as none has begun.
    pub date: i64,
}

/// A peer with its texts as sequences of characters.
pub struct PeerView {
    pub user_id: u64,
    pub username: Seq<char>,
    pub public_key: Option<Seq<char>>,
    pub private_key: Option<Seq<char>>,
    pub ip: Option<Address>,
    pub date: i64,
}

impl View for Peer {
    type V = PeerView;

    open spec fn view(&self) -> PeerView {
        PeerView {
            user_id: self.user_id,
            username: self.username@,
            public_key: text_of(self.public_key),
            private_key: text_of(self.private_key),
            ip: self.ip,
            date: self.date,
        }
    }
}

impl Peer {
    /// A peer that has been requested: it has neither keys nor address, and
    /// no time stamp yet.
    pub fn new(user_id: u64, username: String) -> (peer: Peer)
        ensures
            peer@ == (PeerView {
                user_id,
                username: username@,
                public_key: None,
                private_key: None,
                ip: None,
                date: 0,
            }),
    {
        Peer { user_id, username, public_key: None, private_key: None, ip: None, date: 0 }
    }
}

} // verus!
