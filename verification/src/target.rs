use crate::api::{free_of, lemma_run_len_prefix, run_len, Error, Failure, ADDRESS_MARK};
use crate::ident::KEY_LEN;
use crate::text::{read_text, text_of};
use vstd::prelude::*;
use vstd::slice::slice_subrange;
use vstd::utf8::*;

verus! {

/// One unit of an aggregate request: a key, and the address of the node that
/// holds it when that is not this node.
#[derive(Debug)]
pub struct Target {
    pub key: String,
    pub address: Option<String>,
}

/// A target as its contracts see it.
pub struct TargetView {
    pub key: Seq<char>,
    pub address: Option<Seq<char>>,
}

impl View for Target {
    type V = TargetView;

    open spec fn view(&self) -> TargetView {
        TargetView {
            key: self.key@,
            address: match self.address {
                Some(text) => Some(text@),
                None => None,
            },
        }
    }
}

/// The bytes of a target that stand before its first address mark.
pub open spec fn key_part(t: Seq<u8>) -> Seq<u8> {
    t.take(run_len(t, ADDRESS_MARK) as int)
}

/// The bytes of a target between its first address mark and the next one, if
/// it has a mark at all.
pub open spec fn address_part(t: Seq<u8>) -> Option<Seq<u8>> {
    let n = run_len(t, ADDRESS_MARK) as int;
    if n < t.len() {
        let rest = t.skip(n + 1);
        Some(rest.take(run_len(rest, ADDRESS_MARK) as int))
    } else {
        None
    }
}

/// A target made of a key and an address that were already read as text: the
/// key must take 26 bytes.
pub open spec fn checked_target(key: Seq<char>, address: Option<Seq<char>>) -> Result<
    TargetView,
    Failure,
> {
    if encode_utf8(key).len() == KEY_LEN {
        Ok(TargetView { key, address })
    } else {
        Err(Failure::InvalidKey(key))
    }
}

/// What a target of a request stands for.
pub open spec fn parse_target(t: Seq<u8>) -> Result<TargetView, Failure> {
    checked_target(
        read_text(key_part(t)),
        match address_part(t) {
            Some(bytes) => Some(read_text(bytes)),
            None => None,
        },
    )
}

/// The result of reading a target, with the target or the error by their
/// views.
pub open spec fn target_result_view(r: Result<Target, Error>) -> Result<TargetView, Failure> {
    match r {
        Ok(target) => Ok(target@),
        Err(e) => Err(e@),
    }
}

/// Index at which the run that starts at `from` and holds no `stop` ends.
fn run_end(bytes: &[u8], from: usize, stop: u8) -> (end: usize)
    requires
        from <= bytes@.len(),
    ensures
        from <= end <= bytes@.len(),
        end - from == run_len(bytes@.skip(from as int), stop),
{
    let mut end = from;
    while end < bytes.len() && bytes[end] != stop
        invariant
            from <= end <= bytes@.len(),
            free_of(bytes@.subrange(from as int, end as int), stop),
        decreases bytes.len() - end,
    {
        end += 1;
    }
    proof {
        let run = bytes@.subrange(from as int, end as int);
        let rest = bytes@.skip(end as int);
        assert(bytes@.skip(from as int) =~= run + rest);
        lemma_run_len_prefix(run, rest, stop);
    }
    end
}

impl Target {
    /// Checks a key and an address that were already read as text.
    pub fn new(key: String, address: Option<String>) -> (result: Result<Target, Error>)
        ensures
            target_result_view(result) == checked_target(
                key@,
                match address {
                    Some(text) => Some(text@),
                    None => None,
                },
            ),
    {
        if key.as_str().as_bytes().len() != KEY_LEN {
            return Err(Error::InvalidKey(key));
        }
        Ok(Target { key, address })
    }

    /// Reads one target of an aggregate request: the key, then, behind an
    /// address mark, the address of the node to ask.
    pub fn parse(target: &[u8]) -> (result: Result<Target, Error>)
        ensures
            target_result_view(result) == parse_target(target@),
    {
        let key_end = run_end(target, 0, ADDRESS_MARK);
        assert(target@.skip(0) =~= target@);
        let key = text_of(slice_subrange(target, 0, key_end));
        let address = if key_end < target.len() {
            let end = run_end(target, key_end + 1, ADDRESS_MARK);
            assert(target@.subrange(key_end as int + 1, end as int) =~= target@.skip(
                key_end as int + 1,
            ).take(end - key_end - 1));
            Some(text_of(slice_subrange(target, key_end + 1, end)))
        } else {
            None
        };
        Target::new(key, address)
    }
}

} // verus!
