use multiverse9core::api::{Command, Error, Step};
use multiverse9core::node::Node;
use multiverse9core::protocol::{Handler, Packet, Reaction, FAILURE_MARKER};
use multiverse9core::sdk;
use multiverse9core::settings::{Permissions, Settings};
use std::collections::HashMap;

type Store = HashMap<Vec<u8>, Vec<u8>>;

fn node(open_interactions: bool) -> Node {
    Node::new(Settings {
        name: "multiverse9_test".to_string(),
        redis_uri: "redis://127.0.0.1/".to_string(),
        version: "0.1.0".to_string(),
        perms: Permissions { open_metadata: false, open_interactions },
        addr: "127.0.0.1:0".to_string(),
        nodes: vec![],
    })
}

/// What a node writes back to one message, with an in-memory store. Calls to
/// other nodes are answered by `remote`.
fn serve(
    handler: &Handler,
    message: &[u8],
    store: &mut Store,
    remote: &mut dyn FnMut(&str, &[u8]) -> Result<Vec<u8>, std::io::Error>,
) -> Option<Vec<u8>> {
    match handler.tcp(message) {
        Reaction::Ignore => None,
        Reaction::Reply(bytes) => Some(bytes),
        Reaction::Run { command, codes, packet } => {
            let mut step = command.run(packet);
            let result = loop {
                step = match step {
                    Step::Store(c) => {
                        store.insert(c.key.as_bytes().to_vec(), c.value.clone());
                        c.stored(Ok(()))
                    }
                    Step::Delete(r) => {
                        for key in &r.keys {
                            store.remove(key);
                        }
                        r.deleted(Ok(()))
                    }
                    Step::Lookup(q) => {
                        let value = store.get(q.key.as_bytes()).cloned();
                        q.found(Ok(value))
                    }
                    Step::Call(q) => {
                        let reply = remote(&q.call.addr, &q.call.request).map_err(sdk::Error::Io);
                        q.replied(reply)
                    }
                    Step::Finished(result) => break result,
                };
            };
            Some(Handler::respond(codes, &result))
        }
    }
}

fn no_peers(_addr: &str, _request: &[u8]) -> Result<Vec<u8>, std::io::Error> {
    Err(std::io::Error::new(std::io::ErrorKind::ConnectionRefused, "connection refused"))
}

#[test]
fn packet_splits_code_and_payload() {
    let packet = Packet::parse(&[3, 10, 20, 30]).unwrap();
    assert_eq!(packet.code, 3);
    assert_eq!(packet.buffer, vec![10, 20, 30]);
    let packet = Packet::parse(&[7]).unwrap();
    assert_eq!(packet.code, 7);
    assert_eq!(packet.buffer, Vec::<u8>::new());
    assert!(Packet::parse(&[]).is_none());
}

#[test]
fn empty_message_is_ignored() {
    let handler = Handler::new(&node(false));
    assert!(matches!(handler.tcp(&[]), Reaction::Ignore));
}

#[test]
fn unknown_code_is_answered_one_one() {
    let handler = Handler::new(&node(true));
    for code in 0..=255u8 {
        if code == 1 || code == 2 || code == 3 || code == 0x10 {
            continue;
        }
        match handler.tcp(&[code]) {
            Reaction::Reply(bytes) => assert_eq!(bytes, vec![1, 1]),
            _ => panic!("code {} has no handler", code),
        }
        match handler.tcp(&[code, 0, 1, 2, 3, 255]) {
            Reaction::Reply(bytes) => assert_eq!(bytes, vec![1, 1]),
            _ => panic!("code {} has no handler", code),
        }
    }
}

#[test]
fn known_code_runs_its_handler() {
    let handler = Handler::new(&node(false));
    match handler.tcp(&[1, b'h', b'i']) {
        Reaction::Run { command, codes, packet } => {
            assert_eq!(command, Command::Create);
            assert_eq!(codes, (0, 1));
            assert_eq!(packet.code, 1);
            assert_eq!(packet.buffer, b"hi".to_vec());
        }
        _ => panic!("code 1 is create"),
    }
    assert!(matches!(handler.tcp(&[2]), Reaction::Run { command: Command::Remove, .. }));
    assert!(matches!(handler.tcp(&[3]), Reaction::Run { command: Command::Aggregate, .. }));
}

#[test]
fn handshake_is_answered_by_the_permissions() {
    match Handler::new(&node(true)).tcp(&[0x10]) {
        Reaction::Reply(bytes) => assert_eq!(bytes, vec![0x11]),
        _ => panic!("the handshake is answered at once"),
    }
    match Handler::new(&node(false)).tcp(&[0x10]) {
        Reaction::Reply(bytes) => assert_eq!(bytes, vec![0x12]),
        _ => panic!("the handshake is answered at once"),
    }
}

#[test]
fn response_leads_with_the_status() {
    assert_eq!(Handler::respond((0, 1), &Ok(b"abc".to_vec())), vec![0, b'a', b'b', b'c']);
    assert_eq!(Handler::respond((0, 1), &Ok(vec![])), vec![0]);
    assert_eq!(Handler::respond((0, 1), &Err(Error::EmptyKeys(""))), vec![1, FAILURE_MARKER]);
    assert_eq!(Handler::respond((0, 1), &Err(Error::EmptyKeys(""))), vec![1, 0]);
    assert_eq!(Handler::respond((7, 9), &Err(Error::EmptyBuffer(""))), vec![9, 0]);
}

#[test]
fn failure_leaves_the_connection_usable() {
    let handler = Handler::new(&node(false));
    let mut store = Store::new();
    assert_eq!(serve(&handler, &[1], &mut store, &mut no_peers), Some(vec![1, 0]));
    assert_eq!(serve(&handler, b"\x03short", &mut store, &mut no_peers), Some(vec![1, 0]));
    assert_eq!(serve(&handler, &[2, 0, 0], &mut store, &mut no_peers), Some(vec![1, 0]));
    assert_eq!(serve(&handler, &[3, 0], &mut store, &mut no_peers), Some(vec![1, 0]));
    assert_eq!(serve(&handler, &[], &mut store, &mut no_peers), None);
    let reply = serve(&handler, b"\x01value", &mut store, &mut no_peers).unwrap();
    assert_eq!(reply.len(), 27);
    assert_eq!(reply[0], 0);
}

#[test]
fn remote_part_is_the_reply_of_the_other_node() {
    let k1 = b"01D39ZY06FGSCTVN4T2V9PKHFZ";
    let k2 = b"01D39ZY06FGSCTVN4T2V9PKHG0";
    let here = Handler::new(&node(false));
    let there = Handler::new(&node(false));
    let mut store_here = Store::new();
    store_here.insert(k1.to_vec(), b"V1".to_vec());
    let mut store_there = Store::new();
    store_there.insert(k2.to_vec(), b"V2".to_vec());

    let mut own = vec![3u8];
    own.extend_from_slice(k2);
    own.push(0);
    let direct = serve(&there, &own, &mut store_there, &mut no_peers).unwrap();
    assert_eq!(direct, b"\x0001D39ZY06FGSCTVN4T2V9PKHG0:V2\x00".to_vec());

    let mut message = vec![3u8];
    message.extend_from_slice(k1);
    message.push(0);
    message.extend_from_slice(k2);
    message.extend_from_slice(b"@there:7000");
    let reply = serve(&here, &message, &mut store_here, &mut |addr, request| {
        assert_eq!(addr, "there:7000");
        Ok(serve(&there, request, &mut store_there, &mut no_peers).unwrap())
    })
    .unwrap();
    let mut expected = b"\x0001D39ZY06FGSCTVN4T2V9PKHFZ:V1\x00".to_vec();
    expected.extend_from_slice(&direct);
    assert_eq!(reply, expected);
}
