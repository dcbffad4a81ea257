//! The provisioning of a peer, step by step, and its removal.
//!
//! Adding a peer begins at a time that the caller reads from its clock; the
//! peer is stamped with it. It then goes through the stages in their order:
//! keys, address, registration with the interface, configuration. Each stage waits for one
//! piece of outside work; the caller does the work and reports it as an
//! event. Any failure aborts the provisioning, and nothing is tried again.

use crate::address::in_pool;
use crate::error::ProvisionError;
use crate::interface::{
    deregister_call, deregister_call_spec, interface_done, interface_result, register_call,
    register_call_spec, Invocation, InvocationView, Outcome,
};
use crate::keys::{
    gen_keys, is_key, key_step, lemma_keys_have_key_length, KeyGen, KeyGenView,
};
use crate::peer::{Peer, PeerView};
use crate::pool::{addresses_of, allocation, get_ip, is_lowest_free, lemma_addresses_hold};
use vstd::prelude::*;

verus! {

/// The stages of a provisioning.
#[derive(Clone, Copy, Debug, PartialEq, Eq, Structural)]
pub enum Stage {
    /// The peer is requested; its keys are being generated.
    Requested,
    /// The peer has its keys; its address is to be allocated.
    KeysGenerated,
    /// The peer has its address; it is to be registered with the interface.
    AddressAllocated,
    /// The interface knows the peer; its configuration is to be written.
    InterfaceRegistered,
    /// The configuration is written: the provisioning has succeeded.
    ConfigRendered,
    /// A step failed: the provisioning has ended without success.
    Aborted,
}

impl Stage {
    /// The place of a stage in the order of the stages.
    pub open spec fn rank(self) -> int {
        match self {
            Stage::Requested => 0,
            Stage::KeysGenerated => 1,
            Stage::AddressAllocated => 2,
            Stage::InterfaceRegistered => 3,
            Stage::ConfigRendered => 4,
            Stage::Aborted => 5,
        }
    }
}

/// Outside work that has been done.
#[derive(Debug, PartialEq, Eq)]
pub enum Event {
    /// The run of the tool that was asked for has ended.
    Ran(Outcome),
    /// The peers that the store knows at this moment.
    Peers(Vec<Peer>),
    /// The configuration file was written, or could not be.
    Written(bool),
}

/// Outside work that a provisioning waits for.
#[derive(Debug, PartialEq, Eq)]
pub enum Action {
    /// Run the tool and report how the run ended.
    Run(Invocation),
    /// Fetch all peers from the store and report them.
    ListPeers,
    /// Store the peer, render its configuration, write the file and report
    /// whether it was written.
    WriteConfig,
    /// Nothing: the provisioning has succeeded.
    Finish,
    /// Nothing: the provisioning has failed. The peer is not to be stored.
    GiveUp(ProvisionError),
}

/// An action with its texts as sequences of characters.
pub enum ActionView {
    Run(InvocationView),
    ListPeers,
    WriteConfig,
    Finish,
    GiveUp(ProvisionError),
}

impl View for Action {
    type V = ActionView;

    open spec fn view(&self) -> ActionView {
        match self {
            Action::Run(call) => ActionView::Run(call@),
            Action::ListPeers => ActionView::ListPeers,
            Action::WriteConfig => ActionView::WriteConfig,
            Action::Finish => ActionView::Finish,
            Action::GiveUp(error) => ActionView::GiveUp(*error),
        }
    }
}

/// The provisioning of one peer.
#[derive(Debug)]
pub struct Provisioning {
    peer: Peer,
    stage: Stage,
    reached: Stage,
    keys: KeyGen,
    failure: Option<ProvisionError>,
}

/// What a provisioning holds.
pub struct ProvisioningView {
    /// The peer, as far as it is filled in.
    pub peer: PeerView,
    /// The stage the provisioning is in.
    pub stage: Stage,
    /// The last stage that the peer reached; it stays when a step fails.
    pub reached: Stage,
    /// How far key generation has come.
    pub keys: KeyGenView,
    /// Why the provisioning was aborted, if it was.
    pub failure: Option<ProvisionError>,
}

impl ProvisioningView {
    /// What holds of every provisioning: it is aborted exactly when a
    /// failure is recorded; from `KeysGenerated` on the peer has both keys,
    /// each of the shape of a key; from `AddressAllocated` on it has an
    /// address of the pool.
    pub open spec fn wf(self) -> bool {
        &&& self.reached != Stage::Aborted
        &&& self.stage == Stage::Aborted <==> self.failure is Some
        &&& self.stage != Stage::Aborted ==> self.stage == self.reached
        &&& self.keys.wf()
        &&& self.stage == Stage::Requested ==> self.keys.call() is Some
        &&& self.reached.rank() >= Stage::KeysGenerated.rank() ==> {
            &&& self.peer.private_key matches Some(key) && is_key(key)
            &&& self.peer.public_key matches Some(key) && is_key(key)
        }
        &&& self.reached.rank() >= Stage::AddressAllocated.rank() ==> {
            self.peer.ip matches Some(addr) && in_pool(addr)
        }
    }

    /// The provisioning, aborted for the given reason.
    pub open spec fn aborted(self, error: ProvisionError) -> ProvisioningView {
        ProvisioningView { stage: Stage::Aborted, failure: Some(error), ..self }
    }

    /// The provisioning, one stage further.
    pub open spec fn at(self, stage: Stage) -> ProvisioningView {
        ProvisioningView { stage, reached: stage, ..self }
    }
}

/// A provisioning at its beginning, at the time `now`: the peer is stamped
/// with that time, whatever date it came with.
pub open spec fn initial(peer: PeerView, now: i64) -> ProvisioningView {
    ProvisioningView {
        peer: PeerView { date: now, ..peer },
        stage: Stage::Requested,
        reached: Stage::Requested,
        keys: KeyGenView::Private,
        failure: None,
    }
}

/// The provisioning that follows when an event arrives.
///
/// Each stage takes the event that it waits for: `Requested` the runs of
/// the key tool, `KeysGenerated` the list of peers, `AddressAllocated` the
/// run that registers the peer, `InterfaceRegistered` the writing of the
/// configuration. Any other event leaves the provisioning as it is, and so
/// does every event once it has succeeded or is aborted.
pub open spec fn step(flow: ProvisioningView, event: Event) -> ProvisioningView {
    match flow.stage {
        Stage::Requested => match event {
            Event::Ran(outcome) => {
                let keys = key_step(flow.keys, outcome);
                let tried = ProvisioningView { keys, ..flow };
                match keys {
                    KeyGenView::Done { private_key, public_key } => ProvisioningView {
                        peer: PeerView {
                            private_key: Some(private_key),
                            public_key: Some(public_key),
                            ..flow.peer
                        },
                        ..tried
                    }.at(Stage::KeysGenerated),
                    KeyGenView::Failed(error) => tried.aborted(ProvisionError::KeyGen(error)),
                    _ => tried,
                }
            },
            _ => flow,
        },
        Stage::KeysGenerated => match event {
            Event::Peers(peers) => match allocation(addresses_of(peers@)) {
                Ok(addr) => ProvisioningView {
                    peer: PeerView { ip: Some(addr), ..flow.peer },
                    ..flow
                }.at(Stage::AddressAllocated),
                Err(_) => flow.aborted(ProvisionError::PoolExhausted),
            },
            _ => flow,
        },
        Stage::AddressAllocated => match event {
            Event::Ran(outcome) => if interface_done(outcome) {
                flow.at(Stage::InterfaceRegistered)
            } else {
                flow.aborted(ProvisionError::Interface)
            },
            _ => flow,
        },
        Stage::InterfaceRegistered => match event {
            Event::Written(written) => if written {
                flow.at(Stage::ConfigRendered)
            } else {
                flow.aborted(ProvisionError::Io)
            },
            _ => flow,
        },
        _ => flow,
    }
}

/// The outside work that a provisioning waits for.
pub open spec fn pending(flow: ProvisioningView) -> ActionView {
    match flow.stage {
        Stage::Requested => match flow.keys.call() {
            Some(call) => ActionView::Run(call),
            None => ActionView::Finish,
        },
        Stage::KeysGenerated => ActionView::ListPeers,
        Stage::AddressAllocated => ActionView::Run(
            register_call_spec(flow.peer.public_key->0, flow.peer.ip->0),
        ),
        Stage::InterfaceRegistered => ActionView::WriteConfig,
        Stage::ConfigRendered => ActionView::Finish,
        Stage::Aborted => ActionView::GiveUp(flow.failure->0),
    }
}

impl View for Provisioning {
    type V = ProvisioningView;

    closed spec fn view(&self) -> ProvisioningView {
        ProvisioningView {
            peer: self.peer@,
            stage: self.stage,
            reached: self.reached,
            keys: self.keys@,
            failure: self.failure,
        }
    }
}

impl Provisioning {
    #[verifier::type_invariant]
    spec fn inv(self) -> bool {
        self@.wf()
    }

    /// Begins the provisioning of a peer at the time `now`, in milliseconds
    /// since the Unix epoch, and stamps the peer with it.
    pub fn new(peer: Peer, now: i64) -> (flow: Provisioning)
        ensures
            flow@ == initial(peer@, now),
            flow@.peer.date == now,
            flow@.wf(),
    {
        let peer = Peer {
            user_id: peer.user_id,
            username: peer.username,
            public_key: peer.public_key,
            private_key: peer.private_key,
            ip: peer.ip,
            date: now,
        };
        Provisioning {
            peer,
            stage: Stage::Requested,
            reached: Stage::Requested,
            keys: KeyGen::start(),
            failure: None,
        }
    }

    /// The stage the provisioning is in.
    pub fn stage(&self) -> (stage: Stage)
        ensures
            stage == self@.stage,
            self@.wf(),
    {
        proof {
            use_type_invariant(self);
        }
        self.stage
    }

    /// The last stage that the peer reached.
    pub fn reached(&self) -> (stage: Stage)
        ensures
            stage == self@.reached,
    {
        self.reached
    }

    /// Why the provisioning was aborted, if it was.
    pub fn failure(&self) -> (failure: Option<ProvisionError>)
        ensures
            failure == self@.failure,
    {
        self.failure
    }

    /// The peer, as far as it is filled in.
    pub fn peer(&self) -> (peer: &Peer)
        ensures
            peer@ == self@.peer,
    {
        &self.peer
    }

    /// Ends the provisioning and hands the peer out.
    pub fn into_peer(self) -> (peer: Peer)
        ensures
            peer@ == self@.peer,
    {
        self.peer
    }

    /// The outside work that the provisioning waits for.
    pub fn action(&self) -> (action: Action)
        ensures
            action@ == pending(self@),
    {
        proof {
            use_type_invariant(self);
        }
        match self.stage {
            Stage::Requested => match self.keys.call() {
                Some(call) => Action::Run(call),
                None => Action::Finish,
            },
            Stage::KeysGenerated => Action::ListPeers,
            Stage::AddressAllocated => {
                let key = self.peer.public_key.as_ref().unwrap();
                Action::Run(register_call(key.as_str(), self.peer.ip.unwrap()))
            },
            Stage::InterfaceRegistered => Action::WriteConfig,
            Stage::ConfigRendered => Action::Finish,
            Stage::Aborted => Action::GiveUp(self.failure.unwrap()),
        }
    }

    fn aborted(self, error: ProvisionError) -> (next: Provisioning)
        ensures
            next@ == self@.aborted(error),
    {
        proof {
            use_type_invariant(&self);
        }
        Provisioning {
            peer: self.peer,
            stage: Stage::Aborted,
            reached: self.reached,
            keys: self.keys,
            failure: Some(error),
        }
    }

    fn keys_ran(self, outcome: Outcome) -> (next: Provisioning)
        requires
            self@.stage == Stage::Requested,
        ensures
            next@ == step(self@, Event::Ran(outcome)),
    {
        proof {
            use_type_invariant(&self);
        }
        let keys = gen_keys(&self.keys, outcome);
        match &keys {
            KeyGen::Done { private_key, public_key } => {
                let peer = Peer {
                    user_id: self.peer.user_id,
                    username: self.peer.username,
                    public_key: Some(public_key.clone()),
                    private_key: Some(private_key.clone()),
                    ip: self.peer.ip,
                    date: self.peer.date,
                };
                Provisioning {
                    peer,
                    stage: Stage::KeysGenerated,
                    reached: Stage::KeysGenerated,
                    keys,
                    failure: None,
                }
            },
            KeyGen::Failed(error) => {
                let error = ProvisionError::KeyGen(*error);
                Provisioning {
                    peer: self.peer,
                    stage: Stage::Aborted,
                    reached: self.reached,
                    keys,
                    failure: Some(error),
                }
            },
            _ => Provisioning {
                peer: self.peer,
                stage: self.stage,
                reached: self.reached,
                keys,
                failure: self.failure,
            },
        }
    }

    fn peers_listed(self, peers: &Vec<Peer>) -> (next: Provisioning)
        requires
            self@.stage == Stage::KeysGenerated,
        ensures
            next@ == step(self@, Event::Peers(*peers)),
    {
        proof {
            use_type_invariant(&self);
        }
        match get_ip(peers) {
            Ok(addr) => {
                let peer = Peer {
                    user_id: self.peer.user_id,
                    username: self.peer.username,
                    public_key: self.peer.public_key,
                    private_key: self.peer.private_key,
                    ip: Some(addr),
                    date: self.peer.date,
                };
                Provisioning {
                    peer,
                    stage: Stage::AddressAllocated,
                    reached: Stage::AddressAllocated,
                    keys: self.keys,
                    failure: None,
                }
            },
            Err(error) => self.aborted(error),
        }
    }

    fn advanced(self, stage: Stage) -> (next: Provisioning)
        requires
            self@.stage.rank() >= Stage::AddressAllocated.rank(),
            self@.stage != Stage::Aborted,
            stage.rank() >= Stage::AddressAllocated.rank(),
            stage != Stage::Aborted,
        ensures
            next@ == self@.at(stage),
    {
        proof {
            use_type_invariant(&self);
        }
        Provisioning {
            peer: self.peer,
            stage,
            reached: stage,
            keys: self.keys,
            failure: None,
        }
    }
}

/// One step of a provisioning: takes the event that reports the outside
/// work done and gives the provisioning that follows, with the outside work
/// that it waits for next.
pub fn add_peer(flow: Provisioning, event: Event) -> (result: (Provisioning, Action))
    ensures
        result.0@ == step(flow@, event),
        result.1@ == pending(result.0@),
        result.0@.peer.date == flow@.peer.date,
        result.0@.wf(),
{
    let next = match flow.stage() {
        Stage::Requested => match event {
            Event::Ran(outcome) => flow.keys_ran(outcome),
            _ => flow,
        },
        Stage::KeysGenerated => match event {
            Event::Peers(peers) => flow.peers_listed(&peers),
            _ => flow,
        },
        Stage::AddressAllocated => match event {
            Event::Ran(outcome) => match interface_result(&outcome) {
                Ok(_) => flow.advanced(Stage::InterfaceRegistered),
                Err(error) => flow.aborted(error),
            },
            _ => flow,
        },
        Stage::InterfaceRegistered => match event {
            Event::Written(written) => if written {
                flow.advanced(Stage::ConfigRendered)
            } else {
                flow.aborted(ProvisionError::Io)
            },
            _ => flow,
        },
        _ => flow,
    };
    let action = next.action();
    proof {
        use_type_invariant(&next);
    }
    (next, action)
}

/// Whether the interface knows a peer.
#[derive(Clone, Copy, Debug, PartialEq, Eq, Structural)]
pub enum Membership {
    /// The peer is registered with the interface.
    Active,
    /// The peer has been removed from the interface.
    Deregistered,
}

/// The call that removes a peer from the interface. The peer must have its
/// public key.
pub fn removal_call(peer: &Peer) -> (call: Invocation)
    requires
        peer.public_key is Some,
    ensures
        call@ == deregister_call_spec(peer@.public_key->0),
{
    deregister_call(peer.public_key.as_ref().unwrap().as_str())
}

/// The membership that follows when the run that removes a peer has ended:
/// the peer is deregistered unless the tool could not be started or waited
/// for; then it stays as it was, and the removal can be tried again.
pub open spec fn removal_step(state: Membership, outcome: Outcome) -> Membership {
    if interface_done(outcome) {
        Membership::Deregistered
    } else {
        state
    }
}

/// The one step of a removal: takes the outcome of the run that removes the
/// peer and gives the membership that follows. Whether the interface knew
/// the peer is left to the tool.
pub fn remove_peer(state: Membership, outcome: &Outcome) -> (result: (
    Membership,
    Result<(), ProvisionError>,
))
    ensures
        result.0 == removal_step(state, *outcome),
        interface_done(*outcome) ==> result.1 is Ok,
        !interface_done(*outcome) ==> result.1 == Err::<(), ProvisionError>(
            ProvisionError::Interface,
        ),
{
    match interface_result(outcome) {
        Ok(_) => (Membership::Deregistered, Ok(())),
        Err(error) => (state, Err(error)),
    }
}

/// Every step leaves a provisioning well-formed.
pub proof fn lemma_step_keeps_wf(flow: ProvisioningView, event: Event)
    requires
        flow.wf(),
    ensures
        step(flow, event).wf(),
{
    match event {
        Event::Ran(outcome) => lemma_keys_have_key_length(flow.keys, outcome),
        _ => {},
    }
}

/// No stage is skipped and none comes out of its turn: a step leaves the
/// stage reached as it is or moves it to the next one, and the provisioning
/// is then in that stage, or aborted. Once it has succeeded or is aborted,
/// it stays as it is.
pub proof fn lemma_step_in_order(flow: ProvisioningView, event: Event)
    requires
        flow.wf(),
    ensures
        ({
            let next = step(flow, event);
            &&& next.reached == flow.reached || next.reached.rank() == flow.reached.rank() + 1
            &&& next.stage == next.reached || next.stage == Stage::Aborted
            &&& next.stage == Stage::Aborted ==> next.reached == flow.reached
            &&& flow.stage == Stage::ConfigRendered || flow.stage == Stage::Aborted ==> next == flow
        }),
{
}

/// The failure of a step, if the event reports one: a key that could not
/// be made, an exhausted pool, an interface tool that could not be run, a
/// file that could not be written.
pub open spec fn failure_of(flow: ProvisioningView, event: Event) -> Option<ProvisionError> {
    match (flow.stage, event) {
        (Stage::Requested, Event::Ran(outcome)) => match key_step(flow.keys, outcome) {
            KeyGenView::Failed(error) => Some(ProvisionError::KeyGen(error)),
            _ => None,
        },
        (Stage::KeysGenerated, Event::Peers(peers)) => match allocation(addresses_of(peers@)) {
            Ok(_) => None,
            Err(_) => Some(ProvisionError::PoolExhausted),
        },
        (Stage::AddressAllocated, Event::Ran(outcome)) => if interface_done(outcome) {
            None
        } else {
            Some(ProvisionError::Interface)
        },
        (Stage::InterfaceRegistered, Event::Written(false)) => Some(ProvisionError::Io),
        _ => None,
    }
}

/// A failed step aborts the provisioning, whatever stage it is in, and
/// records the failure. The peer stays as it was and in the stage that it
/// had reached. Nothing else aborts a provisioning.
pub proof fn lemma_failure_aborts(flow: ProvisioningView, event: Event)
    requires
        flow.wf(),
        flow.stage != Stage::Aborted,
    ensures
        step(flow, event).stage == Stage::Aborted <==> failure_of(flow, event) is Some,
        step(flow, event).failure == failure_of(flow, event),
        failure_of(flow, event) is Some ==> step(flow, event).peer == flow.peer && step(
            flow,
            event,
        ).reached == flow.reached,
{
}

/// The time stamp is set once, when the provisioning begins: no step
/// changes it, nor whose peer it is.
pub proof fn lemma_stamp_kept(flow: ProvisioningView, event: Event)
    ensures
        step(flow, event).peer.date == flow.peer.date,
        step(flow, event).peer.user_id == flow.peer.user_id,
        step(flow, event).peer.username == flow.peer.username,
{
}

/// The provisioning that follows a provisioning after the events, in their
/// order.
pub open spec fn run(flow: ProvisioningView, events: Seq<Event>) -> ProvisioningView
    decreases events.len(),
{
    if events.len() == 0 {
        flow
    } else {
        step(run(flow, events.drop_last()), events.last())
    }
}

/// A provisioning that began at the time `now` bears that time whatever
/// events have arrived since, and is well-formed: the peer of a provisioning
/// that has succeeded is stamped with the time at which it began.
pub proof fn lemma_stamp_is_time_of_beginning(peer: PeerView, now: i64, events: Seq<Event>)
    ensures
        run(initial(peer, now), events).wf(),
        run(initial(peer, now), events).peer.date == now,
    decreases events.len(),
{
    if events.len() > 0 {
        lemma_stamp_is_time_of_beginning(peer, now, events.drop_last());
        lemma_step_keeps_wf(run(initial(peer, now), events.drop_last()), events.last());
    }
}

/// Keys are made once: from `KeysGenerated` on no step changes them.
pub proof fn lemma_keys_made_once(flow: ProvisioningView, event: Event)
    requires
        flow.wf(),
        flow.reached.rank() >= Stage::KeysGenerated.rank(),
    ensures
        step(flow, event).peer.private_key == flow.peer.private_key,
        step(flow, event).peer.public_key == flow.peer.public_key,
{
}

/// The interface gets to know a peer only with its public key and its
/// address: the one call that registers a peer is made in the stage
/// `AddressAllocated`, for the peer's own key and address, which is an
/// address of the pool.
pub proof fn lemma_registered_with_key_and_address(flow: ProvisioningView)
    requires
        flow.wf(),
        flow.stage == Stage::AddressAllocated,
    ensures
        flow.peer.public_key is Some,
        flow.peer.ip is Some,
        in_pool(flow.peer.ip->0),
        pending(flow) == ActionView::Run(
            register_call_spec(flow.peer.public_key->0, flow.peer.ip->0),
        ),
{
}

/// The address that a peer is given is an address of the pool that none of
/// the listed peers holds.
pub proof fn lemma_allocated_address_is_new(flow: ProvisioningView, peers: Vec<Peer>)
    requires
        flow.wf(),
        flow.stage == Stage::KeysGenerated,
        step(flow, Event::Peers(peers)).stage == Stage::AddressAllocated,
    ensures
        step(flow, Event::Peers(peers)).peer.ip matches Some(addr) && {
            &&& in_pool(addr)
            &&& forall|i: int| 0 <= i < peers@.len() ==> (#[trigger] peers@[i]).ip != Some(addr)
        },
{
    let taken = addresses_of(peers@);
    let addr = step(flow, Event::Peers(peers)).peer.ip->0;
    assert(is_lowest_free(taken, addr));
    assert forall|i: int| 0 <= i < peers@.len() implies (#[trigger] peers@[i]).ip != Some(
        addr,
    ) by {
        if peers@[i].ip == Some(addr) {
            lemma_addresses_hold(peers@, i);
        }
    }
}

} // verus!
