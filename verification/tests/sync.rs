use multiverse9core::retry::RETRIES;
use multiverse9core::settings::Permissions;
use multiverse9core::sync::{
    observe, sync_reply, sync_request, SyncMove, SyncPass, Verdict, PROTO_SYNC_NA, PROTO_SYNC_OK,
    PROTO_SYNC_REQ,
};

fn peers(names: &[&str]) -> Vec<String> {
    names.iter().map(|n| n.to_string()).collect()
}

#[test]
fn handshake_codes_are_no_command_codes() {
    for code in [PROTO_SYNC_REQ, PROTO_SYNC_OK, PROTO_SYNC_NA] {
        assert!(code > 3);
    }
    assert_ne!(PROTO_SYNC_OK, PROTO_SYNC_NA);
    assert_ne!(PROTO_SYNC_REQ, PROTO_SYNC_OK);
    assert_ne!(PROTO_SYNC_REQ, PROTO_SYNC_NA);
}

#[test]
fn request_is_one_byte() {
    assert_eq!(sync_request(), vec![PROTO_SYNC_REQ]);
}

#[test]
fn reply_follows_the_permission() {
    let open = Permissions { open_metadata: false, open_interactions: true };
    let shut = Permissions { open_metadata: true, open_interactions: false };
    assert_eq!(sync_reply(&open), vec![PROTO_SYNC_OK]);
    assert_eq!(sync_reply(&shut), vec![PROTO_SYNC_NA]);
    assert_eq!(sync_reply(&Permissions::default()), vec![PROTO_SYNC_NA]);
}

#[test]
fn verdict_reads_the_first_byte() {
    assert_eq!(observe(&[PROTO_SYNC_OK]), Verdict::Allowed);
    assert_eq!(observe(&[PROTO_SYNC_NA]), Verdict::Refused);
    assert_eq!(observe(&[1, 1]), Verdict::Unknown);
    assert_eq!(observe(&[]), Verdict::Unknown);
}

#[test]
fn pass_without_peers_rests() {
    let (_, first) = SyncPass::begin(vec![]);
    assert!(matches!(first, SyncMove::Rest));
}

#[test]
fn pass_visits_every_peer_in_turn() {
    let (mut pass, first) = SyncPass::begin(peers(&["a:1", "b:2"]));
    match first {
        SyncMove::Shake { peer, delay } => {
            assert_eq!(peer, "a:1");
            assert_eq!(delay, 0);
        }
        _ => panic!("two peers are configured"),
    }
    match pass.report(true) {
        SyncMove::Shake { peer, delay } => {
            assert_eq!(peer, "b:2");
            assert_eq!(delay, 0);
        }
        _ => panic!("one peer is left"),
    }
    match pass.report(true) {
        SyncMove::Finished { unavailable } => assert!(unavailable.is_empty()),
        _ => panic!("no peer is left"),
    }
    assert_eq!(pass.peers, peers(&["a:1", "b:2"]));
}

#[test]
fn pass_retries_a_peer_with_a_growing_wait() {
    let (mut pass, _) = SyncPass::begin(peers(&["a:1"]));
    for i in 1..4u64 {
        match pass.report(false) {
            SyncMove::Shake { peer, delay } => {
                assert_eq!(peer, "a:1");
                assert_eq!(delay, i);
            }
            _ => panic!("tries are left"),
        }
    }
    match pass.report(true) {
        SyncMove::Finished { unavailable } => assert!(unavailable.is_empty()),
        _ => panic!("the peer was reached"),
    }
}

#[test]
fn pass_notes_a_peer_that_runs_out_of_tries() {
    let (mut pass, _) = SyncPass::begin(peers(&["down:1", "up:2"]));
    for _ in 1..RETRIES {
        assert!(matches!(pass.report(false), SyncMove::Shake { ref peer, .. } if peer == "down:1"));
    }
    match pass.report(false) {
        SyncMove::Shake { peer, delay } => {
            assert_eq!(peer, "up:2");
            assert_eq!(delay, 0);
        }
        _ => panic!("one peer is left"),
    }
    match pass.report(true) {
        SyncMove::Finished { unavailable } => assert_eq!(unavailable, peers(&["down:1"])),
        _ => panic!("no peer is left"),
    }
    match pass.report(true) {
        SyncMove::Finished { unavailable } => assert_eq!(unavailable, peers(&["down:1"])),
        _ => panic!("the pass is over"),
    }
    assert_eq!(pass.peers, peers(&["down:1", "up:2"]));
}
