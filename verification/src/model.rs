use crate::api::{
    advance_step, aggregate_step, create_step, deleted_step, entry, first_step, found_step,
    free_of, lemma_run_len_prefix, lemma_split_after_run, lemma_split_last_run, remove_step,
    joined, lemma_join_then_split, names_a_key, replied_step, separator_free, split_targets,
    stored_step, unknown_key, Failure, ProgressView, StepView,
    ADDRESS_MARK, SEPARATOR,
};
use crate::ident::{is_key_text, lemma_key_bytes, KEY_LEN};
use crate::protocol::{reaction_to, response, ReactionView};
use crate::sdk::request_for;
use crate::settings::Permissions;
use crate::target::{key_part, parse_target, TargetView};
use crate::text::{lemma_read_back, read_text};
use vstd::prelude::*;
use vstd::utf8::*;

verus! {

/// What a store holds: the value under each key.
pub type Store = Map<Seq<u8>, Seq<u8>>;

/// What the other nodes answer: for an address and a request, the reply, or
/// the failure of the call.
pub type Peers = spec_fn(Seq<char>, Seq<u8>) -> Result<Seq<u8>, std::io::Error>;

/// How a handler ended, and the store as it left it.
pub struct Outcome {
    pub result: Result<Seq<u8>, Failure>,
    pub store: Store,
}

/// The value under `key`, if the store holds one.
pub open spec fn lookup(store: Store, key: Seq<u8>) -> Option<Seq<u8>> {
    if store.contains_key(key) {
        Some(store[key])
    } else {
        None
    }
}

/// Number of operations that a step may still ask of its host.
pub open spec fn pending(step: StepView) -> nat {
    match step {
        StepView::Store { .. } => 1,
        StepView::Delete { .. } => 1,
        StepView::Lookup { rest, .. } => rest.remaining.len() + 1,
        StepView::Call { rest, .. } => rest.remaining.len() + 1,
        StepView::Finished(_) => 0,
    }
}

/// How a handler that stands at `step` ends when its host performs every
/// operation on `store` and with `peers`, and the store does not fail.
pub open spec fn outcome(step: StepView, store: Store, peers: Peers) -> Outcome
    decreases pending(step),
{
    match step {
        StepView::Store { key, value } => outcome(
            stored_step(key, Ok(())),
            store.insert(key, value),
            peers,
        ),
        StepView::Delete { keys } => outcome(
            deleted_step(Ok(())),
            store.remove_keys(keys.to_set()),
            peers,
        ),
        StepView::Lookup { key, rest } => outcome(
            found_step(key, rest, Ok(lookup(store, key))),
            store,
            peers,
        ),
        StepView::Call { addr, request, rest } => outcome(
            replied_step(rest, peers(addr, request)),
            store,
            peers,
        ),
        StepView::Finished(result) => Outcome { result, store },
    }
}

/// What a node did with one message: what it wrote back, if anything, and
/// the store as the request left it.
pub struct Served {
    pub reply: Option<Seq<u8>>,
    pub store: Store,
}

/// What a node with these permissions, this store and these peers does with
/// a message. `key` is the key that a create request would store under.
pub open spec fn served(
    perms: Permissions,
    message: Seq<u8>,
    key: Seq<char>,
    store: Store,
    peers: Peers,
) -> Served {
    match reaction_to(perms, message) {
        ReactionView::Ignore => Served { reply: None, store },
        ReactionView::Reply(bytes) => Served { reply: Some(bytes), store },
        ReactionView::Run { command, codes, code, payload } => {
            let end = outcome(first_step(command, payload, key), store, peers);
            Served { reply: Some(response(codes, end.result)), store: end.store }
        },
    }
}

/// What serving `targets` one after the other, in their order, adds to
/// `output`: for a bare key its entry from this node's store, for a key with
/// an address the reply of that node as it came. The first target that does
/// not parse and the first call that fails end it with that error, and
/// nothing of the output is kept.
pub open spec fn gathered(
    targets: Seq<Seq<u8>>,
    output: Seq<u8>,
    store: Store,
    peers: Peers,
) -> Result<Seq<u8>, Failure>
    decreases targets.len(),
{
    if targets.len() == 0 {
        Ok(output)
    } else {
        match parse_target(targets[0]) {
            Err(failure) => Err(failure),
            Ok(target) => match target.address {
                None => gathered(
                    targets.skip(1),
                    output + entry(
                        encode_utf8(target.key),
                        lookup(store, encode_utf8(target.key)),
                    ),
                    store,
                    peers,
                ),
                Some(addr) => match peers(addr, request_for(target.key)) {
                    Ok(reply) => gathered(targets.skip(1), output + reply, store, peers),
                    Err(e) => Err(Failure::Sdk(e)),
                },
            },
        }
    }
}

/// An aggregation that is driven step by step ends with what serving its
/// targets in order gathers, and leaves the store as it was.
pub proof fn lemma_steps_gather(p: ProgressView, store: Store, peers: Peers)
    ensures
        outcome(advance_step(p), store, peers) == (Outcome {
            result: gathered(p.remaining, p.output, store, peers),
            store,
        }),
    decreases p.remaining.len(),
{
    if p.remaining.len() > 0 {
        let rest = ProgressView { remaining: p.remaining.skip(1), output: p.output };
        if let Ok(target) = parse_target(p.remaining[0]) {
            match target.address {
                None => {
                    let key = encode_utf8(target.key);
                    let added = entry(key, lookup(store, key));
                    lemma_steps_gather(
                        ProgressView { remaining: rest.remaining, output: rest.output + added },
                        store,
                        peers,
                    );
                },
                Some(addr) => {
                    let answer = peers(addr, request_for(target.key));
                    assert(outcome(advance_step(p), store, peers) == outcome(
                        replied_step(rest, answer),
                        store,
                        peers,
                    ));
                    if let Ok(reply) = answer {
                        lemma_steps_gather(
                            ProgressView { remaining: rest.remaining, output: rest.output + reply },
                            store,
                            peers,
                        );
                    }
                },
            }
        }
    }
}

/// What an aggregate request ends with: the error of a request without
/// keys, or what serving its targets in order gathers. The store is left as
/// it was.
pub proof fn lemma_aggregate_gathers(payload: Seq<u8>, store: Store, peers: Peers)
    ensures
        outcome(aggregate_step(payload), store, peers) == (Outcome {
            result: if split_targets(payload).len() == 0 {
                Err(Failure::EmptyKeys(Seq::empty()))
            } else {
                gathered(split_targets(payload), Seq::empty(), store, peers)
            },
            store,
        }),
{
    if split_targets(payload).len() > 0 {
        lemma_steps_gather(
            ProgressView { remaining: split_targets(payload), output: Seq::empty() },
            store,
            peers,
        );
    }
}

/// An aggregate request whose first target has a key that does not take 26
/// bytes ends at once with that key as the error: nothing is asked of the
/// store or of another node, and nothing is replied.
pub proof fn lemma_invalid_first_key(payload: Seq<u8>)
    requires
        split_targets(payload).len() > 0,
        encode_utf8(read_text(key_part(split_targets(payload)[0]))).len() != KEY_LEN,
    ensures
        aggregate_step(payload) == StepView::Finished(
            Err(Failure::InvalidKey(read_text(key_part(split_targets(payload)[0])))),
        ),
{
}

/// True for a text that can stand in a target as it is: none of its bytes is
/// the separator or the address mark.
pub open spec fn plain(text: Seq<char>) -> bool {
    free_of(encode_utf8(text), SEPARATOR) && free_of(encode_utf8(text), ADDRESS_MARK)
}

/// True for a text that an aggregate request can name as a key.
pub open spec fn usable_key(key: Seq<char>) -> bool {
    encode_utf8(key).len() == KEY_LEN && plain(key)
}

/// Every generated key can be named in an aggregate request.
pub proof fn lemma_generated_key_is_usable(key: Seq<char>)
    requires
        is_key_text(key),
    ensures
        usable_key(key),
{
    lemma_key_bytes(key);
}

/// A usable key alone is a target that names this node's store.
pub proof fn lemma_bare_key(key: Seq<char>)
    requires
        usable_key(key),
    ensures
        split_targets(encode_utf8(key)) == seq![encode_utf8(key)],
        parse_target(encode_utf8(key)) == Ok::<TargetView, Failure>(
            TargetView { key, address: None },
        ),
{
    let kb = encode_utf8(key);
    lemma_split_last_run(kb);
    lemma_run_len_prefix(kb, Seq::empty(), ADDRESS_MARK);
    assert(kb.take(kb.len() as int) =~= kb);
    lemma_read_back(key);
}

/// A usable key, the address mark and a plain address are a target that
/// names the node at that address, and one that holds no separator.
pub proof fn lemma_key_at_address(key: Seq<char>, addr: Seq<char>)
    requires
        usable_key(key),
        plain(addr),
    ensures
        parse_target(encode_utf8(key) + seq![ADDRESS_MARK] + encode_utf8(addr)) == Ok::<
            TargetView,
            Failure,
        >(TargetView { key, address: Some(addr) }),
        free_of(encode_utf8(key) + seq![ADDRESS_MARK] + encode_utf8(addr), SEPARATOR),
{
    let kb = encode_utf8(key);
    let ab = encode_utf8(addr);
    let t = kb + seq![ADDRESS_MARK] + ab;
    let tail = seq![ADDRESS_MARK] + ab;
    assert(t =~= kb + tail);
    lemma_run_len_prefix(kb, tail, ADDRESS_MARK);
    assert(t.take(kb.len() as int) =~= kb);
    assert(t.skip(kb.len() as int + 1) =~= ab);
    lemma_run_len_prefix(ab, Seq::empty(), ADDRESS_MARK);
    assert(ab.take(ab.len() as int) =~= ab);
    lemma_read_back(key);
    lemma_read_back(addr);
}

/// A create request with a payload ends with the key as its reply and with
/// the payload in the store under that key.
pub proof fn lemma_create_stores(payload: Seq<u8>, key: Seq<char>, store: Store, peers: Peers)
    requires
        payload.len() > 0,
    ensures
        outcome(create_step(payload, key), store, peers) == (Outcome {
            result: Ok(encode_utf8(key)),
            store: store.insert(encode_utf8(key), payload),
        }),
{
    reveal_with_fuel(outcome, 2);
}

/// A create request without a payload is refused, and the store stays as it
/// was.
pub proof fn lemma_create_refuses_nothing(key: Seq<char>, store: Store, peers: Peers)
    ensures
        outcome(create_step(Seq::empty(), key), store, peers) == (Outcome {
            result: Err(Failure::EmptyBuffer(Seq::empty())),
            store,
        }),
{
}

/// An aggregate request for one usable key of this node's store ends with
/// the entry of that key: the key, a colon, the value, or the text
/// `Unknown key` when the store holds none, and a zero byte.
pub proof fn lemma_aggregate_one_local(key: Seq<char>, store: Store, peers: Peers)
    requires
        usable_key(key),
    ensures
        outcome(aggregate_step(encode_utf8(key)), store, peers) == (Outcome {
            result: Ok(entry(encode_utf8(key), lookup(store, encode_utf8(key)))),
            store,
        }),
{
    let kb = encode_utf8(key);
    lemma_bare_key(key);
    lemma_aggregate_gathers(kb, store, peers);
    reveal_with_fuel(gathered, 2);
    assert(Seq::<u8>::empty() + entry(kb, lookup(store, kb)) =~= entry(kb, lookup(store, kb)));
}

/// The value that a create request stored is what a later aggregate request
/// for the key that it replied gives, as long as the store holds it.
pub proof fn lemma_created_value_is_aggregated(
    payload: Seq<u8>,
    key: Seq<char>,
    store: Store,
    later: Store,
    peers: Peers,
)
    requires
        payload.len() > 0,
        is_key_text(key),
        lookup(later, encode_utf8(key)) == lookup(
            outcome(create_step(payload, key), store, peers).store,
            encode_utf8(key),
        ),
    ensures
        outcome(create_step(payload, key), store, peers).result == Ok::<Seq<u8>, Failure>(
            encode_utf8(key),
        ),
        encode_utf8(key).len() == KEY_LEN,
        outcome(aggregate_step(encode_utf8(key)), later, peers).result == Ok::<Seq<u8>, Failure>(
            encode_utf8(key) + seq![0x3au8] + payload + seq![0u8],
        ),
{
    lemma_generated_key_is_usable(key);
    lemma_create_stores(payload, key, store, peers);
    lemma_aggregate_one_local(key, later, peers);
}

/// In a payload made of separators alone no key holds a byte.
pub proof fn lemma_separators_name_nothing(payload: Seq<u8>)
    requires
        forall|i: int| 0 <= i < payload.len() ==> payload[i] == SEPARATOR,
    ensures
        !names_a_key(split_targets(payload)),
    decreases payload.len(),
{
    if payload.len() > 0 {
        let later = split_targets(payload.skip(1));
        lemma_separators_name_nothing(payload.skip(1));
        let all = split_targets(payload);
        assert forall|i: int| 0 <= i < all.len() implies (#[trigger] all[i]).len() == 0 by {
            if i > 0 {
                assert(all[i] == later[i - 1]);
            }
        }
    }
}

/// A remove request in which no key holds a byte, because its payload is
/// empty or holds separators alone, is refused.
pub proof fn lemma_no_key_is_refused(payload: Seq<u8>)
    requires
        forall|i: int| 0 <= i < payload.len() ==> payload[i] == SEPARATOR,
    ensures
        remove_step(payload) == StepView::Finished(Err(Failure::EmptyKeys(Seq::empty()))),
{
    lemma_separators_name_nothing(payload);
}

/// An aggregate request with an empty payload names no target and is
/// refused.
pub proof fn lemma_no_target_is_refused()
    ensures
        aggregate_step(Seq::empty()) == StepView::Finished(
            Err(Failure::EmptyKeys(Seq::empty())),
        ),
{
}

/// An aggregate request with an empty target, which a separator at the
/// start of the payload or behind another one makes, ends at that target
/// with the empty text as the key that is not valid.
pub proof fn lemma_empty_target_is_invalid()
    ensures
        parse_target(Seq::empty()) == Err::<TargetView, Failure>(
            Failure::InvalidKey(Seq::empty()),
        ),
{
    lemma_read_back(Seq::empty());
    assert(encode_utf8(Seq::empty()) =~= Seq::<u8>::empty());
    assert(Seq::<u8>::empty().take(0) =~= Seq::<u8>::empty());
}

/// A remove request in which a key holds a byte succeeds with an empty
/// reply, whether the store held its keys or not. Afterwards the store holds
/// none of them, and every other key as before.
pub proof fn lemma_removed_keys_are_gone(payload: Seq<u8>, store: Store, peers: Peers)
    requires
        names_a_key(split_targets(payload)),
    ensures
        outcome(remove_step(payload), store, peers).result == Ok::<Seq<u8>, Failure>(Seq::empty()),
        forall|key: Seq<u8>| #[trigger]
            split_targets(payload).contains(key) ==> lookup(
                outcome(remove_step(payload), store, peers).store,
                key,
            ) is None,
        forall|key: Seq<u8>|
            !split_targets(payload).contains(key) ==> #[trigger] lookup(
                outcome(remove_step(payload), store, peers).store,
                key,
            ) == lookup(store, key),
{
    reveal_with_fuel(outcome, 2);
}

/// Once a key has been removed, an aggregate request for it gives the text
/// `Unknown key` in place of a value.
pub proof fn lemma_removed_key_is_unknown(key: Seq<char>, store: Store, peers: Peers)
    requires
        usable_key(key),
    ensures
        outcome(
            aggregate_step(encode_utf8(key)),
            outcome(remove_step(encode_utf8(key)), store, peers).store,
            peers,
        ).result == Ok::<Seq<u8>, Failure>(
            encode_utf8(key) + seq![0x3au8] + unknown_key() + seq![0u8],
        ),
{
    let kb = encode_utf8(key);
    lemma_bare_key(key);
    assert(split_targets(kb)[0] == kb);
    lemma_removed_keys_are_gone(kb, store, peers);
    assert(split_targets(kb).contains(kb));
    lemma_aggregate_one_local(key, outcome(remove_step(kb), store, peers).store, peers);
}

/// An aggregate request for a key of this node and then a key of another
/// node ends with the entry of the first key and, behind it, the reply of
/// the other node as it came.
pub proof fn lemma_local_then_remote(
    k1: Seq<char>,
    k2: Seq<char>,
    addr: Seq<char>,
    reply: Seq<u8>,
    store: Store,
    peers: Peers,
)
    requires
        usable_key(k1),
        usable_key(k2),
        plain(addr),
        peers(addr, request_for(k2)) == Ok::<Seq<u8>, std::io::Error>(reply),
    ensures
        outcome(
            aggregate_step(
                encode_utf8(k1) + seq![SEPARATOR] + (encode_utf8(k2) + seq![ADDRESS_MARK]
                    + encode_utf8(addr)),
            ),
            store,
            peers,
        ).result == Ok::<Seq<u8>, Failure>(
            entry(encode_utf8(k1), lookup(store, encode_utf8(k1))) + reply,
        ),
{
    let kb1 = encode_utf8(k1);
    let t2 = encode_utf8(k2) + seq![ADDRESS_MARK] + encode_utf8(addr);
    lemma_bare_key(k1);
    lemma_key_at_address(k2, addr);
    lemma_split_after_run(kb1, t2);
    lemma_split_last_run(t2);
    lemma_aggregate_gathers(kb1 + seq![SEPARATOR] + t2, store, peers);
    reveal_with_fuel(gathered, 3);
}

/// What a node writes back to the request that `request_for` makes for a
/// usable key: the status of success and the entry of the key in its own
/// store. This is the reply that an aggregate request on another node takes
/// over for a target with this node's address.
pub proof fn lemma_request_is_served(
    perms: Permissions,
    key: Seq<char>,
    store: Store,
    peers: Peers,
)
    requires
        usable_key(key),
    ensures
        served(perms, request_for(key), Seq::empty(), store, peers) == (Served {
            reply: Some(seq![0u8] + entry(encode_utf8(key), lookup(store, encode_utf8(key)))),
            store,
        }),
{
    let kb = encode_utf8(key);
    assert(request_for(key).skip(1) =~= kb + seq![SEPARATOR]);
    lemma_bare_key(key);
    lemma_split_after_run(kb, Seq::empty());
    lemma_aggregate_one_local(key, store, peers);
}

/// In the reply to an aggregate request for a key of this node and then a
/// key of another node, what stands behind the entry of the first key is
/// exactly what the other node writes back when it is asked for the second
/// key itself.
pub proof fn lemma_remote_part_is_the_peers_own(
    k1: Seq<char>,
    k2: Seq<char>,
    addr: Seq<char>,
    store: Store,
    peers: Peers,
    their_perms: Permissions,
    their_store: Store,
    their_peers: Peers,
)
    requires
        usable_key(k1),
        usable_key(k2),
        plain(addr),
        served(their_perms, request_for(k2), Seq::empty(), their_store, their_peers).reply
            matches Some(reply) && peers(addr, request_for(k2)) == Ok::<Seq<u8>, std::io::Error>(reply),
    ensures
        outcome(
            aggregate_step(
                encode_utf8(k1) + seq![SEPARATOR] + (encode_utf8(k2) + seq![ADDRESS_MARK]
                    + encode_utf8(addr)),
            ),
            store,
            peers,
        ).result == Ok::<Seq<u8>, Failure>(
            entry(encode_utf8(k1), lookup(store, encode_utf8(k1))) + (seq![0u8] + entry(
                encode_utf8(k2),
                lookup(their_store, encode_utf8(k2)),
            )),
        ),
{
    lemma_request_is_served(their_perms, k2, their_store, their_peers);
    let reply = seq![0u8] + entry(encode_utf8(k2), lookup(their_store, encode_utf8(k2)));
    lemma_local_then_remote(k1, k2, addr, reply, store, peers);
}

/// The keys as the bytes that a payload holds.
pub open spec fn key_bytes(keys: Seq<Seq<char>>) -> Seq<Seq<u8>> {
    Seq::new(keys.len(), |i: int| encode_utf8(keys[i]))
}

/// The entries of `keys` in `store`, one after the other.
pub open spec fn entries(keys: Seq<Seq<char>>, store: Store) -> Seq<u8>
    decreases keys.len(),
{
    if keys.len() == 0 {
        Seq::empty()
    } else {
        entry(encode_utf8(keys[0]), lookup(store, encode_utf8(keys[0]))) + entries(
            keys.skip(1),
            store,
        )
    }
}

/// Serving any number of usable keys of this node adds their entries, in the
/// order of the keys.
pub proof fn lemma_local_keys_gather(
    keys: Seq<Seq<char>>,
    output: Seq<u8>,
    store: Store,
    peers: Peers,
)
    requires
        forall|i: int| 0 <= i < keys.len() ==> usable_key(#[trigger] keys[i]),
    ensures
        gathered(key_bytes(keys), output, store, peers) == Ok::<Seq<u8>, Failure>(
            output + entries(keys, store),
        ),
    decreases keys.len(),
{
    if keys.len() == 0 {
        assert(output + entries(keys, store) =~= output);
    } else {
        let kb = encode_utf8(keys[0]);
        let added = entry(kb, lookup(store, kb));
        lemma_bare_key(keys[0]);
        assert(key_bytes(keys).skip(1) =~= key_bytes(keys.skip(1)));
        lemma_local_keys_gather(keys.skip(1), output + added, store, peers);
        assert((output + added) + entries(keys.skip(1), store) =~= output + entries(keys, store));
    }
}

/// An aggregate request for any number of usable keys of this node, joined
/// by separators, ends with their entries, in the order of the keys.
pub proof fn lemma_aggregate_local_keys(keys: Seq<Seq<char>>, store: Store, peers: Peers)
    requires
        keys.len() > 0,
        forall|i: int| 0 <= i < keys.len() ==> usable_key(#[trigger] keys[i]),
    ensures
        outcome(aggregate_step(joined(key_bytes(keys))), store, peers) == (Outcome {
            result: Ok(entries(keys, store)),
            store,
        }),
{
    let targets = key_bytes(keys);
    assert forall|i: int| 0 <= i < targets.len() implies separator_free(
        #[trigger] targets[i],
    ) by {
        assert(usable_key(keys[i]));
    }
    assert(usable_key(keys[keys.len() - 1]));
    lemma_join_then_split(targets);
    lemma_aggregate_gathers(joined(targets), store, peers);
    lemma_local_keys_gather(keys, Seq::empty(), store, peers);
    assert(Seq::<u8>::empty() + entries(keys, store) =~= entries(keys, store));
}

/// A call that fails ends the request with that failure, whatever was
/// gathered before it and whatever targets come behind it.
pub proof fn lemma_failed_call_fails_request(
    before: Seq<Seq<char>>,
    key: Seq<char>,
    addr: Seq<char>,
    after: Seq<Seq<u8>>,
    failure: std::io::Error,
    output: Seq<u8>,
    store: Store,
    peers: Peers,
)
    requires
        forall|i: int| 0 <= i < before.len() ==> usable_key(#[trigger] before[i]),
        usable_key(key),
        plain(addr),
        peers(addr, request_for(key)) == Err::<Seq<u8>, std::io::Error>(failure),
    ensures
        gathered(
            key_bytes(before) + seq![encode_utf8(key) + seq![ADDRESS_MARK] + encode_utf8(addr)]
                + after,
            output,
            store,
            peers,
        ) == Err::<Seq<u8>, Failure>(Failure::Sdk(failure)),
    decreases before.len(),
{
    let target = encode_utf8(key) + seq![ADDRESS_MARK] + encode_utf8(addr);
    let targets = key_bytes(before) + seq![target] + after;
    if before.len() == 0 {
        lemma_key_at_address(key, addr);
        assert(targets[0] == target);
    } else {
        let kb = encode_utf8(before[0]);
        lemma_bare_key(before[0]);
        assert(targets[0] == kb);
        assert(targets.skip(1) =~= key_bytes(before.skip(1)) + seq![target] + after);
        lemma_failed_call_fails_request(
            before.skip(1),
            key,
            addr,
            after,
            failure,
            output + entry(kb, lookup(store, kb)),
            store,
            peers,
        );
    }
}

} // verus!
