use gimmewire::address::Address;
use gimmewire::error::{KeyFault, KeyGenError, KeyStep, ProvisionError};
use gimmewire::interface::{
    deregister_call, interface_result, register_call, Invocation, Outcome,
};
use gimmewire::peer::Peer;
use gimmewire::workflow::{
    add_peer, remove_peer, removal_call, Action, Event, Membership, Provisioning, Stage,
};

fn sample_key(fill: char) -> String {
    let mut key: String = std::iter::repeat(fill).take(43).collect();
    key.push('=');
    key
}

fn written(text: &str) -> Outcome {
    Outcome::Exited { success: true, stdout: text.as_bytes().to_vec() }
}

fn quiet(success: bool) -> Outcome {
    Outcome::Exited { success, stdout: Vec::new() }
}

fn wg(args: &[&str], input: Option<&str>) -> Invocation {
    let read = args[0] == "genkey" || args[0] == "pubkey";
    Invocation {
        program: String::from("/usr/bin/wg"),
        args: args.iter().map(|arg| arg.to_string()).collect(),
        input: input.map(String::from),
        capture: read,
    }
}

fn other_peer() -> Peer {
    let mut peer = Peer::new(2, String::from("bob"));
    peer.ip = Some(Address::new(10, 0, 0, 2));
    peer
}

fn alice_with(keys: bool, ip: Option<Address>) -> Peer {
    let mut peer = Peer::new(1, String::from("alice"));
    peer.date = 42;
    if keys {
        peer.private_key = Some(sample_key('s'));
        peer.public_key = Some(sample_key('p'));
    }
    peer.ip = ip;
    peer
}

fn with_keys() -> Provisioning {
    let flow = Provisioning::new(Peer::new(1, String::from("alice")), 42);
    let (flow, _) = add_peer(flow, Event::Ran(written(&format!("{}\n", sample_key('s')))));
    let (flow, _) = add_peer(flow, Event::Ran(written(&format!("{}\n", sample_key('p')))));
    flow
}

fn with_address() -> Provisioning {
    let (flow, _) = add_peer(with_keys(), Event::Peers(vec![other_peer()]));
    flow
}

fn registered() -> Provisioning {
    let (flow, _) = add_peer(with_address(), Event::Ran(quiet(true)));
    flow
}

#[test]
fn new_peer_has_no_time_stamp() {
    let peer = Peer::new(1, String::from("alice"));
    assert_eq!(peer.date, 0);
    assert_eq!(peer.private_key, None);
    assert_eq!(peer.public_key, None);
    assert_eq!(peer.ip, None);
}

#[test]
fn provisioning_stamps_the_peer_with_the_time_it_begins() {
    let mut peer = Peer::new(1, String::from("alice"));
    peer.date = 1_600_000_000_000;
    let now = 1_700_000_000_123;
    let flow = Provisioning::new(peer, now);
    assert_eq!(flow.peer().date, now);

    let (flow, _) = add_peer(flow, Event::Ran(written(&format!("{}\n", sample_key('s')))));
    assert_eq!(flow.peer().date, now);
    let (flow, _) = add_peer(flow, Event::Ran(written(&format!("{}\n", sample_key('p')))));
    assert_eq!(flow.peer().date, now);
    let (flow, _) = add_peer(flow, Event::Peers(vec![other_peer()]));
    assert_eq!(flow.peer().date, now);
    let (flow, _) = add_peer(flow, Event::Ran(quiet(true)));
    assert_eq!(flow.peer().date, now);
    let (flow, action) = add_peer(flow, Event::Written(true));
    assert_eq!(action, Action::Finish);
    assert_eq!(flow.stage(), Stage::ConfigRendered);
    assert_eq!(flow.into_peer().date, now);
}

#[test]
fn aborted_provisioning_keeps_its_time_stamp() {
    let mut peer = Peer::new(1, String::from("alice"));
    peer.date = -5;
    let (flow, _) = add_peer(Provisioning::new(peer, 77), Event::Ran(Outcome::NotStarted));
    assert_eq!(flow.stage(), Stage::Aborted);
    assert_eq!(flow.peer().date, 77);
}

#[test]
fn provisioning_begins_with_genkey() {
    let flow = Provisioning::new(Peer::new(1, String::from("alice")), 42);
    assert_eq!(flow.stage(), Stage::Requested);
    assert_eq!(flow.reached(), Stage::Requested);
    assert_eq!(flow.failure(), None);
    assert_eq!(flow.action(), Action::Run(wg(&["genkey"], None)));
    assert_eq!(flow.peer(), &alice_with(false, None));
}

#[test]
fn provisioning_goes_through_the_stages_in_order() {
    let flow = Provisioning::new(Peer::new(1, String::from("alice")), 42);

    let raw_private = format!("{}\n", sample_key('s'));
    let (flow, action) = add_peer(flow, Event::Ran(written(&raw_private)));
    assert_eq!(flow.stage(), Stage::Requested);
    assert_eq!(action, Action::Run(wg(&["pubkey"], Some(&raw_private))));
    assert_eq!(flow.peer().private_key, None);

    let (flow, action) = add_peer(flow, Event::Ran(written(&format!("{}\n", sample_key('p')))));
    assert_eq!(flow.stage(), Stage::KeysGenerated);
    assert_eq!(action, Action::ListPeers);
    assert_eq!(flow.peer().private_key, Some(sample_key('s')));
    assert_eq!(flow.peer().public_key, Some(sample_key('p')));
    assert_eq!(flow.peer().ip, None);

    let (flow, action) = add_peer(flow, Event::Peers(vec![other_peer()]));
    assert_eq!(flow.stage(), Stage::AddressAllocated);
    assert_eq!(flow.peer().ip, Some(Address::new(10, 0, 0, 3)));
    assert_eq!(
        action,
        Action::Run(wg(
            &["set", "wg0", "peer", &sample_key('p'), "allowed-ips", "10.0.0.3/32"],
            None
        ))
    );

    let (flow, action) = add_peer(flow, Event::Ran(quiet(true)));
    assert_eq!(flow.stage(), Stage::InterfaceRegistered);
    assert_eq!(action, Action::WriteConfig);

    let (flow, action) = add_peer(flow, Event::Written(true));
    assert_eq!(flow.stage(), Stage::ConfigRendered);
    assert_eq!(flow.reached(), Stage::ConfigRendered);
    assert_eq!(action, Action::Finish);
    assert_eq!(flow.failure(), None);

    assert_eq!(flow.into_peer(), alice_with(true, Some(Address::new(10, 0, 0, 3))));
}

#[test]
fn failed_key_generation_aborts() {
    let flow = Provisioning::new(Peer::new(1, String::from("alice")), 42);
    let (flow, action) = add_peer(flow, Event::Ran(Outcome::NotStarted));
    let error = ProvisionError::KeyGen(KeyGenError {
        step: KeyStep::GenKey,
        fault: KeyFault::Unavailable,
    });
    assert_eq!(action, Action::GiveUp(error));
    assert_eq!(flow.stage(), Stage::Aborted);
    assert_eq!(flow.reached(), Stage::Requested);
    assert_eq!(flow.failure(), Some(error));
    assert_eq!(flow.peer(), &alice_with(false, None));
}

#[test]
fn failed_public_key_aborts_without_keys() {
    let flow = Provisioning::new(Peer::new(1, String::from("alice")), 42);
    let (flow, _) = add_peer(flow, Event::Ran(written(&format!("{}\n", sample_key('s')))));
    let (flow, action) = add_peer(flow, Event::Ran(quiet(false)));
    let error = ProvisionError::KeyGen(KeyGenError {
        step: KeyStep::PubKey,
        fault: KeyFault::Unsuccessful,
    });
    assert_eq!(action, Action::GiveUp(error));
    assert_eq!(flow.stage(), Stage::Aborted);
    assert_eq!(flow.peer().private_key, None);
    assert_eq!(flow.peer().public_key, None);
}

#[test]
fn exhausted_pool_aborts() {
    let mut peers = Vec::new();
    for c in 0..255u16 {
        for d in 2..255u16 {
            let mut peer = Peer::new(0, String::new());
            peer.ip = Some(Address::new(10, 0, c as u8, d as u8));
            peers.push(peer);
        }
    }
    let (flow, action) = add_peer(with_keys(), Event::Peers(peers));
    assert_eq!(action, Action::GiveUp(ProvisionError::PoolExhausted));
    assert_eq!(flow.stage(), Stage::Aborted);
    assert_eq!(flow.reached(), Stage::KeysGenerated);
    assert_eq!(flow.peer().ip, None);
}

#[test]
fn register_with_unreachable_tool_fails() {
    let flow = with_address();
    assert_eq!(flow.stage(), Stage::AddressAllocated);
    assert_eq!(flow.peer(), &alice_with(true, Some(Address::new(10, 0, 0, 3))));
    let (flow, action) = add_peer(flow, Event::Ran(Outcome::NotStarted));
    assert_eq!(action, Action::GiveUp(ProvisionError::Interface));
    assert_eq!(flow.failure(), Some(ProvisionError::Interface));
    assert_eq!(flow.stage(), Stage::Aborted);
    assert_eq!(flow.reached(), Stage::AddressAllocated);
    assert_eq!(flow.peer(), &alice_with(true, Some(Address::new(10, 0, 0, 3))));
}

#[test]
fn register_that_cannot_be_waited_for_fails() {
    let (flow, action) = add_peer(with_address(), Event::Ran(Outcome::Interrupted));
    assert_eq!(action, Action::GiveUp(ProvisionError::Interface));
    assert_eq!(flow.reached(), Stage::AddressAllocated);
}

#[test]
fn register_does_not_look_at_the_exit_status() {
    let (flow, action) = add_peer(with_address(), Event::Ran(quiet(false)));
    assert_eq!(flow.stage(), Stage::InterfaceRegistered);
    assert_eq!(action, Action::WriteConfig);
}

#[test]
fn unwritten_configuration_aborts() {
    let (flow, action) = add_peer(registered(), Event::Written(false));
    assert_eq!(action, Action::GiveUp(ProvisionError::Io));
    assert_eq!(flow.stage(), Stage::Aborted);
    assert_eq!(flow.reached(), Stage::InterfaceRegistered);
}

#[test]
fn event_out_of_turn_changes_nothing() {
    let flow = Provisioning::new(Peer::new(1, String::from("alice")), 42);
    let (flow, action) = add_peer(flow, Event::Peers(vec![other_peer()]));
    assert_eq!(flow.stage(), Stage::Requested);
    assert_eq!(action, Action::Run(wg(&["genkey"], None)));
    let (flow, _) = add_peer(flow, Event::Written(true));
    assert_eq!(flow.stage(), Stage::Requested);

    let (flow, action) = add_peer(with_keys(), Event::Ran(quiet(true)));
    assert_eq!(flow.stage(), Stage::KeysGenerated);
    assert_eq!(action, Action::ListPeers);

    let (flow, _) = add_peer(with_address(), Event::Written(true));
    assert_eq!(flow.stage(), Stage::AddressAllocated);

    let (flow, action) = add_peer(registered(), Event::Ran(Outcome::NotStarted));
    assert_eq!(flow.stage(), Stage::InterfaceRegistered);
    assert_eq!(action, Action::WriteConfig);
}

#[test]
fn ended_provisioning_stays_as_it_is() {
    let (done, _) = add_peer(registered(), Event::Written(true));
    let peer = alice_with(true, Some(Address::new(10, 0, 0, 3)));
    let (done, action) = add_peer(done, Event::Ran(Outcome::NotStarted));
    assert_eq!(done.stage(), Stage::ConfigRendered);
    assert_eq!(action, Action::Finish);
    let (done, _) = add_peer(done, Event::Written(false));
    assert_eq!(done.stage(), Stage::ConfigRendered);
    assert_eq!(done.peer(), &peer);

    let (aborted, _) = add_peer(with_address(), Event::Ran(Outcome::NotStarted));
    let (aborted, action) = add_peer(aborted, Event::Ran(quiet(true)));
    assert_eq!(aborted.stage(), Stage::Aborted);
    assert_eq!(action, Action::GiveUp(ProvisionError::Interface));
}

#[test]
fn keys_of_a_peer_that_had_some_are_replaced() {
    let mut peer = Peer::new(1, String::from("alice"));
    peer.private_key = Some(String::from("old"));
    peer.ip = Some(Address::new(10, 0, 9, 9));
    let flow = Provisioning::new(peer, 42);
    let (flow, _) = add_peer(flow, Event::Ran(written(&format!("{}\n", sample_key('s')))));
    let (flow, _) = add_peer(flow, Event::Ran(written(&format!("{}\n", sample_key('p')))));
    assert_eq!(flow.peer().private_key, Some(sample_key('s')));
    let (flow, _) = add_peer(flow, Event::Peers(Vec::new()));
    assert_eq!(flow.peer().ip, Some(Address::new(10, 0, 0, 2)));
}

#[test]
fn register_and_deregister_do_not_read_the_output() {
    assert!(!register_call("key", Address::new(10, 0, 0, 2)).capture);
    assert!(!deregister_call("key").capture);
}

#[test]
fn register_and_deregister_calls() {
    assert_eq!(
        register_call("key", Address::new(10, 0, 12, 200)),
        wg(&["set", "wg0", "peer", "key", "allowed-ips", "10.0.12.200/32"], None)
    );
    assert_eq!(deregister_call("key"), wg(&["set", "wg0", "peer", "key", "remove"], None));
}

#[test]
fn removal_call_names_the_peer_by_its_public_key() {
    let mut peer = Peer::new(1, String::from("alice"));
    peer.public_key = Some(sample_key('p'));
    assert_eq!(
        removal_call(&peer),
        wg(&["set", "wg0", "peer", &sample_key('p'), "remove"], None)
    );
}

#[test]
fn deregister_of_an_absent_peer_completes() {
    // the tool decides what removing an unknown key means; either status is taken
    for success in [true, false] {
        let (state, result) = remove_peer(Membership::Active, &quiet(success));
        assert_eq!(result, Ok(()));
        assert_eq!(state, Membership::Deregistered);
        let (state, result) = remove_peer(Membership::Deregistered, &quiet(success));
        assert_eq!(result, Ok(()));
        assert_eq!(state, Membership::Deregistered);
    }
}

#[test]
fn failed_removal_leaves_the_peer_active() {
    for outcome in [Outcome::NotStarted, Outcome::Interrupted] {
        let (state, result) = remove_peer(Membership::Active, &outcome);
        assert_eq!(result, Err(ProvisionError::Interface));
        assert_eq!(state, Membership::Active);
        let (state, result) = remove_peer(state, &quiet(true));
        assert_eq!(result, Ok(()));
        assert_eq!(state, Membership::Deregistered);
    }
}

#[test]
fn interface_result_of_each_outcome() {
    assert_eq!(interface_result(&Outcome::NotStarted), Err(ProvisionError::Interface));
    assert_eq!(interface_result(&Outcome::Interrupted), Err(ProvisionError::Interface));
    assert_eq!(interface_result(&quiet(true)), Ok(()));
    assert_eq!(interface_result(&quiet(false)), Ok(()));
}
