use crate::ident::{is_key_text, new_key};
use crate::protocol::Packet;
use crate::sdk;
use crate::target::{parse_target, Target};
use crate::text::{append, bytes_of};
use vstd::prelude::*;
use vstd::string::StringExecFns;
use vstd::utf8::*;

verus! {

/// Command code of a create request.
pub const CREATE: u8 = 1;

/// Command code of a remove request.
pub const REMOVE: u8 = 2;

/// Command code of an aggregate request.
pub const AGGREGATE: u8 = 3;

/// The code that stands for every unknown command in the table of response
/// codes. No client sends it.
pub const UNKNOWN: u8 = 0;

/// Why a request was not served.
#[derive(Debug)]
pub enum Error {
    /// A call to another node failed.
    Sdk(sdk::Error),
    /// A target's key does not have the length of a key.
    InvalidKey(String),
    /// The request names no key.
    EmptyKeys(&'static str),
    /// The storage backend failed.
    Redis(redis::RedisError),
    /// The request holds nothing to store.
    EmptyBuffer(&'static str),
}

/// An error as its contracts see it: the failure of a stream or of the
/// storage backend as it is, a text by its characters.
pub enum Failure {
    Sdk(std::io::Error),
    InvalidKey(Seq<char>),
    EmptyKeys(Seq<char>),
    Redis(redis::RedisError),
    EmptyBuffer(Seq<char>),
}

impl View for Error {
    type V = Failure;

    open spec fn view(&self) -> Failure {
        match self {
            Error::Sdk(e) => Failure::Sdk(e.cause()),
            Error::InvalidKey(text) => Failure::InvalidKey(text@),
            Error::EmptyKeys(text) => Failure::EmptyKeys(text@),
            Error::Redis(e) => Failure::Redis(*e),
            Error::EmptyBuffer(text) => Failure::EmptyBuffer(text@),
        }
    }
}

impl Error {
    /// The error as text: the text that it carries, or what the failure that
    /// it carries displays as.
    pub fn to_string(&self) -> (text: String)
        ensures
            match self@ {
                Failure::Sdk(e) => vstd::string::to_string_from_display_ensures::<std::io::Error>(
                    &e,
                    text,
                ),
                Failure::InvalidKey(carried) => text@ == carried,
                Failure::EmptyKeys(carried) => text@ == carried,
                Failure::Redis(e) => vstd::string::to_string_from_display_ensures::<
                    redis::RedisError,
                >(&e, text),
                Failure::EmptyBuffer(carried) => text@ == carried,
            },
    {
        match self {
            Error::Sdk(e) => e.to_string(),
            Error::InvalidKey(text) => text.clone(),
            Error::EmptyKeys(text) => String::from_str(text),
            Error::Redis(e) => e.to_string(),
            Error::EmptyBuffer(text) => String::from_str(text),
        }
    }
}

/// The status codes of a command: the one that leads a reply when the handler
/// succeeded, and the one for when it failed.
pub type HandlerOutputCodes = (u8, u8);

/// What a handler ends with: the payload of the reply, or the error.
pub type HandlerResult = Result<Vec<u8>, Error>;

/// The byte that separates targets in a request payload.
pub const SEPARATOR: u8 = 0;

/// The byte that separates a key from the address of the node that holds it.
pub const ADDRESS_MARK: u8 = 0x40;

/// Length of the leading run of `s` that does not hold the byte `stop`.
pub open spec fn run_len(s: Seq<u8>, stop: u8) -> nat
    decreases s.len(),
{
    if s.len() == 0 || s[0] == stop {
        0
    } else {
        1 + run_len(s.skip(1), stop)
    }
}

/// True when no byte of `s` is `stop`.
pub open spec fn free_of(s: Seq<u8>, stop: u8) -> bool {
    forall|i: int| 0 <= i < s.len() ==> s[i] != stop
}

/// The targets that a payload names: the runs between its separators, in
/// order, empty ones among them. Only the run behind the last separator is
/// left out when it is empty, so that a separator at the end closes the last
/// target and opens no other.
pub open spec fn split_targets(s: Seq<u8>) -> Seq<Seq<u8>>
    decreases s.len(),
{
    let n = run_len(s, SEPARATOR) as int;
    if n >= s.len() {
        if s.len() == 0 {
            Seq::empty()
        } else {
            seq![s]
        }
    } else {
        seq![s.take(n)] + split_targets(s.skip(n + 1))
    }
}

/// The targets put together again, with one separator between each two.
pub open spec fn joined(targets: Seq<Seq<u8>>) -> Seq<u8>
    decreases targets.len(),
{
    if targets.len() == 0 {
        Seq::empty()
    } else if targets.len() == 1 {
        targets[0]
    } else {
        targets[0] + seq![SEPARATOR] + joined(targets.skip(1))
    }
}

/// True when one of the keys holds a byte.
pub open spec fn names_a_key(keys: Seq<Seq<u8>>) -> bool {
    exists|i: int| 0 <= i < keys.len() && (#[trigger] keys[i]).len() > 0
}

/// The views of a vector of byte strings.
pub open spec fn byte_views(v: Seq<Vec<u8>>) -> Seq<Seq<u8>> {
    Seq::new(v.len(), |i: int| v[i]@)
}

/// True when no byte of `s` is the separator.
pub open spec fn separator_free(s: Seq<u8>) -> bool {
    free_of(s, SEPARATOR)
}

/// The leading run ends at the first `stop`, or at the end, and holds none.
pub proof fn lemma_run_len_bound(s: Seq<u8>, stop: u8)
    ensures
        run_len(s, stop) <= s.len(),
        run_len(s, stop) < s.len() ==> s[run_len(s, stop) as int] == stop,
        free_of(s.take(run_len(s, stop) as int), stop),
    decreases s.len(),
{
    if s.len() > 0 && s[0] != stop {
        lemma_run_len_bound(s.skip(1), stop);
        let n = run_len(s, stop) as int;
        let t = s.take(n);
        assert forall|i: int| 0 <= i < t.len() implies t[i] != stop by {
            if i > 0 {
                assert(t[i] == s.skip(1).take(n - 1)[i - 1]);
            }
        }
    }
}

/// The leading run of a sequence that begins with bytes other than `stop`
/// goes on behind them.
pub proof fn lemma_run_len_prefix(c: Seq<u8>, r: Seq<u8>, stop: u8)
    requires
        free_of(c, stop),
    ensures
        run_len(c + r, stop) == c.len() + run_len(r, stop),
    decreases c.len(),
{
    if c.len() > 0 {
        assert((c + r).skip(1) =~= c.skip(1) + r);
        lemma_run_len_prefix(c.skip(1), r, stop);
    }
}

/// A separator-free run followed by a separator is a target, empty or not,
/// and the targets of what follows come behind it.
pub proof fn lemma_split_after_run(c: Seq<u8>, r: Seq<u8>)
    requires
        separator_free(c),
    ensures
        split_targets(c + seq![SEPARATOR] + r) == seq![c] + split_targets(r),
{
    let s = c + seq![SEPARATOR] + r;
    let tail = seq![SEPARATOR] + r;
    assert(s =~= c + tail);
    lemma_run_len_prefix(c, tail, SEPARATOR);
    let n = c.len() as int;
    assert(s.skip(n + 1) =~= r);
    assert(s.take(n) =~= c);
}

/// A separator-free run alone is one target, or none if it is empty.
pub proof fn lemma_split_last_run(c: Seq<u8>)
    requires
        separator_free(c),
    ensures
        split_targets(c) == if c.len() == 0 {
            Seq::<Seq<u8>>::empty()
        } else {
            seq![c]
        },
{
    lemma_run_len_prefix(c, Seq::empty(), SEPARATOR);
}

/// No target of a payload holds a separator.
pub proof fn lemma_targets_are_runs(s: Seq<u8>)
    ensures
        forall|i: int|
            0 <= i < split_targets(s).len() ==> separator_free(#[trigger] split_targets(s)[i]),
    decreases s.len(),
{
    lemma_run_len_bound(s, SEPARATOR);
    let n = run_len(s, SEPARATOR) as int;
    let all = split_targets(s);
    if n >= s.len() {
        assert(s.take(n) =~= s);
    } else {
        lemma_targets_are_runs(s.skip(n + 1));
        assert forall|i: int| 0 <= i < all.len() implies separator_free(#[trigger] all[i]) by {
            if i > 0 {
                assert(all[i] == split_targets(s.skip(n + 1))[i - 1]);
            }
        }
    }
}

/// Only the empty payload names no target.
pub proof fn lemma_no_target_means_empty(s: Seq<u8>)
    ensures
        split_targets(s).len() == 0 <==> s.len() == 0,
{
    lemma_run_len_bound(s, SEPARATOR);
}

/// The targets of a payload, joined by separators, are the payload again,
/// less the separator at its end if it ends with one.
pub proof fn lemma_split_then_join(s: Seq<u8>)
    ensures
        joined(split_targets(s)) == if s.len() > 0 && s.last() == SEPARATOR {
            s.drop_last()
        } else {
            s
        },
    decreases s.len(),
{
    lemma_run_len_bound(s, SEPARATOR);
    let n = run_len(s, SEPARATOR) as int;
    if n >= s.len() {
        assert(s.take(n) =~= s);
    } else {
        let head = s.take(n);
        let rest = s.skip(n + 1);
        let later = split_targets(rest);
        lemma_split_then_join(rest);
        lemma_no_target_means_empty(rest);
        assert((seq![head] + later).skip(1) =~= later);
        if rest.len() == 0 {
            assert(s.drop_last() =~= head);
        } else if rest.last() == SEPARATOR {
            assert(s.drop_last() =~= head + seq![SEPARATOR] + rest.drop_last());
        } else {
            assert(s =~= head + seq![SEPARATOR] + rest);
        }
    }
}

/// Targets that hold no separator, the last of them not empty, are what
/// their joining names.
pub proof fn lemma_join_then_split(targets: Seq<Seq<u8>>)
    requires
        forall|i: int| 0 <= i < targets.len() ==> separator_free(#[trigger] targets[i]),
        targets.len() > 0 ==> targets.last().len() > 0,
    ensures
        split_targets(joined(targets)) == targets,
    decreases targets.len(),
{
    if targets.len() == 1 {
        lemma_split_last_run(targets[0]);
        assert(targets =~= seq![targets[0]]);
    } else if targets.len() > 1 {
        let rest = targets.skip(1);
        assert(rest.last() == targets.last());
        lemma_join_then_split(rest);
        lemma_split_after_run(targets[0], joined(rest));
        assert(seq![targets[0]] + rest =~= targets);
    }
}

/// Extracts the targets from a request payload. A zero byte ends a target,
/// also an empty one; what stands behind the last zero byte is one more
/// target unless it is empty, and a payload without a zero byte is a single
/// target.
pub fn buf_extract_targets(buffer: &[u8]) -> (targets: Vec<Vec<u8>>)
    ensures
        byte_views(targets@) == split_targets(buffer@),
        forall|i: int| 0 <= i < targets@.len() ==> separator_free((#[trigger] targets@[i])@),
{
    proof {
        lemma_targets_are_runs(buffer@);
    }
    let mut targets: Vec<Vec<u8>> = Vec::new();
    let mut current_target: Vec<u8> = Vec::new();
    let mut i: usize = 0;
    proof {
        assert(buffer@.skip(0) =~= buffer@);
    }
    while i < buffer.len()
        invariant
            i <= buffer.len(),
            separator_free(current_target@),
            split_targets(buffer@) == byte_views(targets@) + split_targets(
                current_target@ + buffer@.skip(i as int),
            ),
        decreases buffer.len() - i,
    {
        let chunk = buffer[i];
        let ghost rest = buffer@.skip(i as int + 1);
        let ghost before = byte_views(targets@);
        let ghost run = current_target@;
        if chunk == SEPARATOR {
            proof {
                assert(run + buffer@.skip(i as int) =~= run + seq![SEPARATOR] + rest);
                lemma_split_after_run(run, rest);
            }
            targets.push(current_target);
            current_target = Vec::new();
            assert(byte_views(targets@) =~= before + seq![run]);
            assert(current_target@ + rest =~= rest);
        } else {
            current_target.push(chunk);
            assert(current_target@ + rest =~= run + buffer@.skip(i as int));
        }
        i += 1;
    }
    proof {
        lemma_split_last_run(current_target@);
    }
    let ghost before = byte_views(targets@);
    if current_target.len() > 0 {
        let ghost run = current_target@;
        targets.push(current_target);
        assert(byte_views(targets@) =~= before + seq![run]);
    }
    assert forall|i: int| 0 <= i < targets@.len() implies separator_free(
        (#[trigger] targets@[i])@,
    ) by {
        assert(byte_views(targets@)[i] == targets@[i]@);
    }
    targets
}

/// The handlers that a request code can name.
#[derive(Clone, Copy, Debug, PartialEq, Eq, Structural)]
pub enum Command {
    Create,
    Remove,
    Aggregate,
}

/// The table of handlers: the handler that each request code names.
pub open spec fn handler_table(code: u8) -> Option<Command> {
    if code == CREATE {
        Some(Command::Create)
    } else if code == REMOVE {
        Some(Command::Remove)
    } else if code == AGGREGATE {
        Some(Command::Aggregate)
    } else {
        None
    }
}

/// The table of response codes: for each request code the status that leads
/// the reply of a handler that succeeded and of one that failed. Under
/// `UNKNOWN` it holds the pair that answers every code without a handler.
pub open spec fn code_table(code: u8) -> Option<HandlerOutputCodes> {
    if code == UNKNOWN {
        Some((1u8, 1u8))
    } else if code == CREATE || code == REMOVE || code == AGGREGATE {
        Some((0u8, 1u8))
    } else {
        None
    }
}

/// Looks a request code up in the table of handlers.
pub fn handler_lookup(code: u8) -> (handler: Option<Command>)
    ensures
        handler == handler_table(code),
{
    if code == CREATE {
        Some(Command::Create)
    } else if code == REMOVE {
        Some(Command::Remove)
    } else if code == AGGREGATE {
        Some(Command::Aggregate)
    } else {
        None
    }
}

/// Looks a request code up in the table of response codes.
pub fn code_lookup(code: u8) -> (codes: Option<HandlerOutputCodes>)
    ensures
        codes == code_table(code),
{
    if code == UNKNOWN {
        Some((1, 1))
    } else if code == CREATE || code == REMOVE || code == AGGREGATE {
        Some((0, 1))
    } else {
        None
    }
}

/// The two tables hold the same codes, but for `UNKNOWN`, which only the
/// table of response codes holds.
pub proof fn lemma_tables_agree(code: u8)
    ensures
        handler_table(code) is Some <==> code_table(code) is Some && code != UNKNOWN,
{
}

/// The reply to a request whose code names no handler: the pair that the
/// table of response codes holds under `UNKNOWN`, whatever the payload.
pub fn unknown_command(p: Packet) -> (reply: Vec<u8>)
    ensures
        reply@ == seq![1u8, 1u8],
{
    let mut reply: Vec<u8> = Vec::new();
    match code_lookup(UNKNOWN) {
        Some(codes) => {
            reply.push(codes.0);
            reply.push(codes.1);
        },
        None => {},
    }
    reply
}

/// The text that stands for the value of a key that the store does not hold.
pub open spec fn unknown_key() -> Seq<u8> {
    seq![85u8, 110u8, 107u8, 110u8, 111u8, 119u8, 110u8, 32u8, 107u8, 101u8, 121u8]
}

/// The entry of one local key in an aggregate reply: the key, a colon, the
/// value or the text `Unknown key`, and a zero byte.
pub open spec fn entry(key: Seq<u8>, value: Option<Seq<u8>>) -> Seq<u8> {
    key + seq![0x3au8] + (match value {
        Some(bytes) => bytes,
        None => unknown_key(),
    }) + seq![SEPARATOR]
}

/// How far an aggregation has come: the targets still to be served and the
/// reply gathered so far.
#[derive(Debug)]
pub struct Progress {
    pub targets: Vec<Vec<u8>>,
    pub next: usize,
    pub output: Vec<u8>,
}

/// An aggregation under way, as its contracts see it: the targets that are
/// still to be served and the reply gathered so far.
pub struct ProgressView {
    pub remaining: Seq<Seq<u8>>,
    pub output: Seq<u8>,
}

impl View for Progress {
    type V = ProgressView;

    open spec fn view(&self) -> ProgressView {
        ProgressView {
            remaining: if self.next <= self.targets@.len() {
                byte_views(self.targets@).skip(self.next as int)
            } else {
                Seq::empty()
            },
            output: self.output@,
        }
    }
}

/// A value waiting to be written to the store under a new key.
#[derive(Debug)]
pub struct Creation {
    pub key: String,
    pub value: Vec<u8>,
}

/// Keys waiting to be deleted from the store, in one batch.
#[derive(Debug)]
pub struct Removal {
    pub keys: Vec<Vec<u8>>,
}

/// A key waiting to be looked up in this node's store.
#[derive(Debug)]
pub struct LocalQuery {
    pub key: String,
    pub rest: Progress,
}

/// A call waiting to be made to another node.
#[derive(Debug)]
pub struct RemoteQuery {
    pub call: sdk::Call,
    pub rest: Progress,
}

/// What a handler needs from its host before it can go on, or how it ended.
/// The host performs the one operation that the step names and hands the
/// outcome to the step's own method, which gives the next step.
#[derive(Debug)]
pub enum Step {
    /// Write `value` under `key`.
    Store(Creation),
    /// Delete all of `keys` in one call.
    Delete(Removal),
    /// Read the value under `key`.
    Lookup(LocalQuery),
    /// Send `request` to the node at `addr` and read its reply.
    Call(RemoteQuery),
    /// The handler is done.
    Finished(HandlerResult),
}

/// A step as its contracts see it: keys and values as the bytes that the
/// store is handed, the rest by its view.
pub enum StepView {
    Store { key: Seq<u8>, value: Seq<u8> },
    Delete { keys: Seq<Seq<u8>> },
    Lookup { key: Seq<u8>, rest: ProgressView },
    Call { addr: Seq<char>, request: Seq<u8>, rest: ProgressView },
    Finished(Result<Seq<u8>, Failure>),
}

/// The result of a handler, with its reply or its error by their views.
pub open spec fn result_view(r: HandlerResult) -> Result<Seq<u8>, Failure> {
    match r {
        Ok(bytes) => Ok(bytes@),
        Err(e) => Err(e@),
    }
}

impl View for Step {
    type V = StepView;

    open spec fn view(&self) -> StepView {
        match self {
            Step::Store(c) => StepView::Store { key: encode_utf8(c.key@), value: c.value@ },
            Step::Delete(r) => StepView::Delete { keys: byte_views(r.keys@) },
            Step::Lookup(q) => StepView::Lookup { key: encode_utf8(q.key@), rest: q.rest@ },
            Step::Call(q) => StepView::Call {
                addr: q.call.addr@,
                request: q.call.request@,
                rest: q.rest@,
            },
            Step::Finished(r) => StepView::Finished(result_view(*r)),
        }
    }
}

/// What the store answered to a read: the value if it holds one, or its
/// failure.
pub open spec fn found_view(outcome: Result<Option<Vec<u8>>, redis::RedisError>) -> Result<
    Option<Seq<u8>>,
    redis::RedisError,
> {
    match outcome {
        Ok(Some(bytes)) => Ok(Some(bytes@)),
        Ok(None) => Ok(None),
        Err(e) => Err(e),
    }
}

/// What a call to another node ended with: the reply, or the failure of the
/// stream.
pub open spec fn reply_view(outcome: sdk::SdkResult) -> Result<Seq<u8>, std::io::Error> {
    match outcome {
        Ok(bytes) => Ok(bytes@),
        Err(e) => Err(e.cause()),
    }
}

/// First step of a create request that would store its payload under `key`.
pub open spec fn create_step(payload: Seq<u8>, key: Seq<char>) -> StepView {
    if payload.len() == 0 {
        StepView::Finished(Err(Failure::EmptyBuffer(Seq::empty())))
    } else {
        StepView::Store { key: encode_utf8(key), value: payload }
    }
}

/// The step after the store answered the write under `key`.
pub open spec fn stored_step(key: Seq<u8>, outcome: Result<(), redis::RedisError>) -> StepView {
    match outcome {
        Ok(_) => StepView::Finished(Ok(key)),
        Err(e) => StepView::Finished(Err(Failure::Redis(e))),
    }
}

/// First step of a remove request: the keys are the targets of the payload,
/// and a payload in which no key holds a byte is refused.
pub open spec fn remove_step(payload: Seq<u8>) -> StepView {
    let keys = split_targets(payload);
    if names_a_key(keys) {
        StepView::Delete { keys }
    } else {
        StepView::Finished(Err(Failure::EmptyKeys(Seq::empty())))
    }
}

/// The step after the store answered the delete.
pub open spec fn deleted_step(outcome: Result<(), redis::RedisError>) -> StepView {
    match outcome {
        Ok(_) => StepView::Finished(Ok(Seq::empty())),
        Err(e) => StepView::Finished(Err(Failure::Redis(e))),
    }
}

/// The step that serves the next target of an aggregation: a read from this
/// node's store for a bare key, a call for a key with an address, the end of
/// the request with its error for a key of the wrong length, and the reply
/// when no target is left.
pub open spec fn advance_step(p: ProgressView) -> StepView {
    if p.remaining.len() == 0 {
        StepView::Finished(Ok(p.output))
    } else {
        let rest = ProgressView { remaining: p.remaining.skip(1), output: p.output };
        match parse_target(p.remaining[0]) {
            Err(failure) => StepView::Finished(Err(failure)),
            Ok(target) => match target.address {
                Some(addr) => StepView::Call { addr, request: sdk::request_for(target.key), rest },
                None => StepView::Lookup { key: encode_utf8(target.key), rest },
            },
        }
    }
}

/// First step of an aggregate request.
pub open spec fn aggregate_step(payload: Seq<u8>) -> StepView {
    let targets = split_targets(payload);
    if targets.len() == 0 {
        StepView::Finished(Err(Failure::EmptyKeys(Seq::empty())))
    } else {
        advance_step(ProgressView { remaining: targets, output: Seq::empty() })
    }
}

/// The step after the store answered the read of `key`.
pub open spec fn found_step(
    key: Seq<u8>,
    rest: ProgressView,
    outcome: Result<Option<Seq<u8>>, redis::RedisError>,
) -> StepView {
    match outcome {
        Ok(value) => advance_step(
            ProgressView { remaining: rest.remaining, output: rest.output + entry(key, value) },
        ),
        Err(e) => StepView::Finished(Err(Failure::Redis(e))),
    }
}

/// The step after the call to another node ended.
pub open spec fn replied_step(
    rest: ProgressView,
    outcome: Result<Seq<u8>, std::io::Error>,
) -> StepView {
    match outcome {
        Ok(bytes) => advance_step(
            ProgressView { remaining: rest.remaining, output: rest.output + bytes },
        ),
        Err(e) => StepView::Finished(Err(Failure::Sdk(e))),
    }
}

fn unknown_key_bytes() -> (bytes: Vec<u8>)
    ensures
        bytes@ == unknown_key(),
{
    vec![85u8, 110u8, 107u8, 110u8, 111u8, 119u8, 110u8, 32u8, 107u8, 101u8, 121u8]
}

impl Progress {
    /// Serves the next target, or ends the request when none is left.
    pub fn advance(self) -> (step: Step)
        ensures
            step@ == advance_step(self@),
    {
        if self.next >= self.targets.len() {
            return Step::Finished(Ok(self.output));
        }
        let parsed = Target::parse(self.targets[self.next].as_slice());
        let ghost before = self@;
        let rest = Progress { targets: self.targets, next: self.next + 1, output: self.output };
        assert(rest@.remaining =~= before.remaining.skip(1));
        match parsed {
            Err(e) => Step::Finished(Err(e)),
            Ok(target) => match target.address {
                Some(addr) => Step::Call(RemoteQuery { call: sdk::aggregate(addr, target.key), rest }),
                None => Step::Lookup(LocalQuery { key: target.key, rest }),
            },
        }
    }
}

impl Creation {
    /// Takes the store's answer to the write: the reply is the key.
    pub fn stored(self, outcome: Result<(), redis::RedisError>) -> (step: Step)
        ensures
            step@ == stored_step(encode_utf8(self.key@), outcome),
    {
        match outcome {
            Ok(_) => Step::Finished(Ok(bytes_of(&self.key))),
            Err(e) => Step::Finished(Err(Error::Redis(e))),
        }
    }
}

impl Removal {
    /// Takes the store's answer to the delete: the reply is empty.
    pub fn deleted(self, outcome: Result<(), redis::RedisError>) -> (step: Step)
        ensures
            step@ == deleted_step(outcome),
    {
        match outcome {
            Ok(_) => Step::Finished(Ok(Vec::new())),
            Err(e) => Step::Finished(Err(Error::Redis(e))),
        }
    }
}

impl LocalQuery {
    /// Takes the store's answer to the read, adds the key's entry to the
    /// reply and goes on to the next target.
    pub fn found(self, outcome: Result<Option<Vec<u8>>, redis::RedisError>) -> (step: Step)
        ensures
            step@ == found_step(encode_utf8(self.key@), self.rest@, found_view(outcome)),
    {
        match outcome {
            Ok(value) => {
                let ghost before = self.rest@;
                let buffer = match value {
                    Some(bytes) => bytes,
                    None => unknown_key_bytes(),
                };
                let mut rest = self.rest;
                let key = bytes_of(&self.key);
                append(&mut rest.output, key.as_slice());
                rest.output.push(0x3a);
                append(&mut rest.output, buffer.as_slice());
                rest.output.push(SEPARATOR);
                assert(rest@.output =~= before.output + entry(key@, found_view(outcome)->Ok_0));
                rest.advance()
            },
            Err(e) => Step::Finished(Err(Error::Redis(e))),
        }
    }
}

impl RemoteQuery {
    /// Takes what the call ended with, adds the other node's reply to this
    /// one as it stands and goes on to the next target.
    pub fn replied(self, outcome: sdk::SdkResult) -> (step: Step)
        ensures
            step@ == replied_step(self.rest@, reply_view(outcome)),
    {
        match outcome {
            Ok(bytes) => {
                let mut rest = self.rest;
                append(&mut rest.output, bytes.as_slice());
                rest.advance()
            },
            Err(e) => Step::Finished(Err(Error::Sdk(e))),
        }
    }
}

/// Handles a create request that would store under `key`: the payload is
/// to be written under that key, and an empty payload is refused.
pub fn create_with(p: Packet, key: String) -> (step: Step)
    ensures
        step@ == create_step(p.buffer@, key@),
        step matches Step::Store(c) ==> c.key@ == key@,
{
    if p.buffer.len() == 0 {
        proof {
            reveal_strlit("");
        }
        assert(""@ =~= Seq::<char>::empty());
        return Step::Finished(Err(Error::EmptyBuffer("")));
    }
    Step::Store(Creation { key, value: p.buffer })
}

/// Handles a create request: the payload is stored under a new key, and the
/// key is the reply. An empty payload is refused before any key is made.
pub fn create(p: Packet) -> (step: Step)
    ensures
        p.buffer@.len() == 0 ==> step@ == create_step(p.buffer@, Seq::empty()),
        p.buffer@.len() > 0 ==> (step matches Step::Store(c) && is_key_text(c.key@) && step@
            == create_step(p.buffer@, c.key@)),
{
    if p.buffer.len() == 0 {
        return create_with(p, String::new());
    }
    // Generating a unique ID for the data
    let id = new_key();
    create_with(p, id)
}

/// Whether one of the keys holds a byte.
fn holds_a_key(keys: &Vec<Vec<u8>>) -> (found: bool)
    ensures
        found == names_a_key(byte_views(keys@)),
{
    let mut i: usize = 0;
    while i < keys.len()
        invariant
            i <= keys.len(),
            forall|j: int| 0 <= j < i ==> (#[trigger] byte_views(keys@)[j]).len() == 0,
        decreases keys.len() - i,
    {
        if keys[i].len() > 0 {
            assert(byte_views(keys@)[i as int].len() > 0);
            return true;
        }
        i += 1;
    }
    false
}

/// Handles a remove request: the keys that the payload names are deleted from
/// this node's store, in one batch. A payload in which no key holds a byte is
/// refused.
pub fn remove(p: Packet) -> (step: Step)
    ensures
        step@ == remove_step(p.buffer@),
{
    // Only keys of this node are removed.
    let keys = buf_extract_targets(p.buffer.as_slice());
    if !holds_a_key(&keys) {
        proof {
            reveal_strlit("");
        }
        assert(""@ =~= Seq::<char>::empty());
        return Step::Finished(Err(Error::EmptyKeys("")));
    }
    Step::Delete(Removal { keys })
}

/// Handles an aggregate request: the targets that the payload names are
/// served one after the other, in their order, and the reply is what they
/// gave, joined. An empty payload names none and is refused; the first target
/// whose key is not valid, an empty one too, and the first failure of the
/// store or of a call, ends the request with that error and without a reply.
pub fn aggregate(p: Packet) -> (step: Step)
    ensures
        step@ == aggregate_step(p.buffer@),
{
    let targets = buf_extract_targets(p.buffer.as_slice());
    if targets.len() == 0 {
        proof {
            reveal_strlit("");
        }
        assert(""@ =~= Seq::<char>::empty());
        return Step::Finished(Err(Error::EmptyKeys("")));
    }
    let progress = Progress { targets, next: 0, output: Vec::new() };
    assert(progress@.remaining =~= split_targets(p.buffer@));
    progress.advance()
}

/// First step of the handler `command` on `payload`. `key` is the key that a
/// create request would store under.
pub open spec fn first_step(command: Command, payload: Seq<u8>, key: Seq<char>) -> StepView {
    match command {
        Command::Create => create_step(payload, key),
        Command::Remove => remove_step(payload),
        Command::Aggregate => aggregate_step(payload),
    }
}

impl Command {
    /// Starts the handler on a request.
    pub fn run(self, p: Packet) -> (step: Step)
        ensures
            self == Command::Create && p.buffer@.len() > 0 ==> (step matches Step::Store(c)
                && is_key_text(c.key@) && step@ == first_step(self, p.buffer@, c.key@)),
            !(self == Command::Create && p.buffer@.len() > 0) ==> step@ == first_step(
                self,
                p.buffer@,
                Seq::empty(),
            ),
    {
        match self {
            Command::Create => create(p),
            Command::Remove => remove(p),
            Command::Aggregate => aggregate(p),
        }
    }
}

} // verus!
