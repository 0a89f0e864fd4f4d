//! The assembler: the fetched segments put together in plan order.
//!
//! The order of the output is the order of the plan, whatever the order in
//! which the segments came in or were written to temporary storage.

use crate::fetcher::{fetch_names, SegmentFetcher};
use crate::keyed::TextMap;
use crate::planner::{SegmentPlan, SegmentPlanView};
use crate::utils::{ErrorKind, ErrorView, TwitchClientError};
use vstd::prelude::*;
use vstd::string::StringExecFns;

verus! {

/// The number of bytes that the assembler moves at a time.
pub const CHUNK_SIZE: usize = 1024;

/// What the message of the error for a segment that is not in temporary
/// storage begins with; the name of the segment's file follows.
pub const MISSING_PART: &'static str = "Failed to open chunk file : ";

/// The files in temporary storage: the bytes kept under each name.
pub type TempStore = TextMap<Vec<u8>>;

/// The first of `names` that `store` does not hold, if there is one.
pub open spec fn first_missing(names: Seq<Seq<char>>, store: Map<Seq<char>, Vec<u8>>) -> Option<
    Seq<char>,
>
    decreases names.len(),
{
    if names.len() == 0 {
        None
    } else {
        match first_missing(names.drop_last(), store) {
            Some(name) => Some(name),
            None => if store.contains_key(names.last()) {
                None
            } else {
                Some(names.last())
            },
        }
    }
}

/// The bytes that `store` keeps under the names `names`, one file after the
/// other in the order of `names`.
pub open spec fn concatenated(names: Seq<Seq<char>>, store: Map<Seq<char>, Vec<u8>>) -> Seq<u8>
    decreases names.len(),
{
    if names.len() == 0 {
        Seq::<u8>::empty()
    } else {
        concatenated(names.drop_last(), store) + store[names.last()]@
    }
}

/// What assembling the files `names` out of `store` gives: their bytes in
/// the order of `names`, or the error for the first that is not there.
pub open spec fn assembly_outcome(names: Seq<Seq<char>>, store: Map<Seq<char>, Vec<u8>>) -> Result<
    Seq<u8>,
    ErrorView,
> {
    match first_missing(names, store) {
        Some(name) => Err(ErrorView { kind: ErrorKind::Assembly, details: MISSING_PART@ + name }),
        None => Ok(concatenated(names, store)),
    }
}

/// Puts `bytes` at the end of `out`, a chunk at a time.
pub fn append_chunked(out: &mut Vec<u8>, bytes: &Vec<u8>)
    ensures
        final(out)@ == old(out)@ + bytes@,
{
    let ghost before = out@;
    let mut done: usize = 0;
    assert(before + bytes@.subrange(0, 0) == before);
    while done < bytes.len()
        invariant
            done <= bytes.len(),
            out@ == before + bytes@.subrange(0, done as int),
        decreases bytes.len() - done,
    {
        let end: usize = if bytes.len() - done > CHUNK_SIZE {
            done + CHUNK_SIZE
        } else {
            bytes.len()
        };
        let mut i: usize = done;
        while i < end
            invariant
                done <= i <= end <= bytes.len(),
                out@ == before + bytes@.subrange(0, i as int),
            decreases end - i,
        {
            out.push(bytes[i]);
            assert(bytes@.subrange(0, i + 1) == bytes@.subrange(0, i as int).push(bytes@[i as int]));
            i += 1;
        }
        done = end;
    }
    assert(bytes@.subrange(0, bytes.len() as int) == bytes@);
}

/// The assembler of fetched segments.
pub struct Assembler;

impl Assembler {
    /// The bytes of the segments of `plan`, taken from `store` under the
    /// names under which the fetcher keeps them, in plan order. Fails for
    /// the first segment of the plan that `store` does not hold.
    pub fn assemble(plan: &SegmentPlan, store: &TempStore) -> (r: Result<
        Vec<u8>,
        TwitchClientError,
    >)
        requires
            store.wf(),
        ensures
            match r {
                Ok(out) => assembly_outcome(fetch_names(plan@), store@) == Ok::<Seq<u8>, ErrorView>(
                    out@,
                ),
                Err(e) => assembly_outcome(fetch_names(plan@), store@) == Err::<Seq<u8>, ErrorView>(
                    e@,
                ),
            },
    {
        let names = SegmentFetcher::temp_names(plan);
        let ghost all = fetch_names(plan@);
        let mut i: usize = 0;
        assert(all.take(0) == Seq::<Seq<char>>::empty());
        while i < names.len()
            invariant
                i <= names.len(),
                store.wf(),
                all == fetch_names(plan@),
                names@.len() == all.len(),
                forall|k: int| 0 <= k < names@.len() ==> (#[trigger] names@[k])@ == all[k],
                first_missing(all.take(i as int), store@) == None::<Seq<char>>,
            decreases names.len() - i,
        {
            proof {
                assert(all.take(i + 1).drop_last() == all.take(i as int));
                assert(all.take(i + 1).last() == names@[i as int]@);
            }
            if !store.contains_key(names[i].as_str()) {
                proof {
                    lemma_first_missing_extends(all, i + 1, store@);
                }
                let message = String::from_str(MISSING_PART).concat(names[i].as_str());
                return Err(TwitchClientError::with_kind(ErrorKind::Assembly, message));
            }
            i += 1;
        }
        assert(all.take(names.len() as int) == all);
        let mut out: Vec<u8> = Vec::new();
        let mut i: usize = 0;
        while i < names.len()
            invariant
                i <= names.len(),
                store.wf(),
                all == fetch_names(plan@),
                names@.len() == all.len(),
                forall|k: int| 0 <= k < names@.len() ==> (#[trigger] names@[k])@ == all[k],
                first_missing(all, store@) == None::<Seq<char>>,
                out@ == concatenated(all.take(i as int), store@),
            decreases names.len() - i,
        {
            proof {
                assert(all.take(i + 1).drop_last() == all.take(i as int));
                assert(all.take(i + 1).last() == names@[i as int]@);
                lemma_none_missing(all, i as int, store@);
            }
            match store.get(names[i].as_str()) {
                Some(bytes) => {
                    append_chunked(&mut out, bytes);
                },
                None => {},
            }
            i += 1;
        }
        assert(all.take(names.len() as int) == all);
        Ok(out)
    }
}

/// A file missing among the first `n` names is the first file missing
/// among all of them.
proof fn lemma_first_missing_extends(names: Seq<Seq<char>>, n: int, store: Map<Seq<char>, Vec<u8>>)
    requires
        0 <= n <= names.len(),
        first_missing(names.take(n), store) is Some,
    ensures
        first_missing(names, store) == first_missing(names.take(n), store),
    decreases names.len(),
{
    if n < names.len() {
        assert(names.drop_last().take(n) == names.take(n));
        lemma_first_missing_extends(names.drop_last(), n, store);
    } else {
        assert(names.take(n) == names);
    }
}

/// Where no file is missing, the store holds each of the names.
pub proof fn lemma_none_missing(names: Seq<Seq<char>>, k: int, store: Map<Seq<char>, Vec<u8>>)
    requires
        first_missing(names, store) is None,
        0 <= k < names.len(),
    ensures
        store.contains_key(names[k]),
    decreases names.len(),
{
    if k < names.len() - 1 {
        lemma_none_missing(names.drop_last(), k, store);
    }
}

/// The bytes of a list of files are the bytes of its first files followed
/// by the bytes of the rest.
pub proof fn lemma_concatenated_split(
    first: Seq<Seq<char>>,
    rest: Seq<Seq<char>>,
    store: Map<Seq<char>, Vec<u8>>,
)
    ensures
        concatenated(first + rest, store) == concatenated(first, store) + concatenated(rest, store),
    decreases rest.len(),
{
    if rest.len() == 0 {
        assert(first + rest == first);
    } else {
        lemma_concatenated_split(first, rest.drop_last(), store);
        assert((first + rest).drop_last() == first + rest.drop_last());
    }
}

/// The assembled output does not depend on the order in which two files
/// were written to temporary storage.
pub proof fn lemma_assembly_ignores_write_order(
    names: Seq<Seq<char>>,
    store: Map<Seq<char>, Vec<u8>>,
    a: Seq<char>,
    x: Vec<u8>,
    b: Seq<char>,
    y: Vec<u8>,
)
    requires
        a != b,
    ensures
        assembly_outcome(names, store.insert(a, x).insert(b, y)) == assembly_outcome(
            names,
            store.insert(b, y).insert(a, x),
        ),
{
    assert(store.insert(a, x).insert(b, y) =~= store.insert(b, y).insert(a, x));
}

} // verus!
