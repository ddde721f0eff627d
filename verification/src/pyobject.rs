//! Objects as a frame sees them: handles, and plain snapshots of what they hold.
use vstd::prelude::*;

use crate::bytecode::CodeObject;

verus! {

/// A handle to an object. Two handles name the same object exactly when they are equal.
#[derive(Clone, Copy, Debug, PartialEq, Eq, Structural)]
pub struct PyObjectRef {
    pub id: usize,
}

/// What a call gives back: a value, or the exception that it raised.
pub type PyResult = Result<PyObjectRef, PyObjectRef>;

/// A snapshot of the part of an object's payload that a frame looks at.
#[derive(Debug)]
#[allow(inconsistent_fields)]
pub enum PyObjectKind {
    NoneValue,
    Integer { value: i32 },
    /// The bits of an IEEE 754 double.
    Float { bits: u64 },
    String { value: String },
    List,
    Code { code: CodeObject },
    /// A scope, with the object that holds its variables.
    Scope { locals: PyObjectRef },
    Other,
}

/// The exception types that a frame itself tests for or raises.
#[derive(Clone, Copy, Debug, PartialEq, Eq, Structural)]
pub enum ExceptionType {
    BaseException,
    StopIteration,
    NameError,
    TypeError,
    ValueError,
}

/// The arguments of a call.
#[derive(Debug)]
pub struct PyFuncArgs {
    pub args: Vec<PyObjectRef>,
    pub kwargs: Vec<(String, PyObjectRef)>,
}

/// The text of the names in a list of named values, with the values.
pub open spec fn named(pairs: Seq<(String, PyObjectRef)>) -> Seq<(Seq<char>, PyObjectRef)> {
    pairs.map_values(|p: (String, PyObjectRef)| (p.0@, p.1))
}

/// The keyword arguments that the names give to the last values: the last name comes first.
pub open spec fn keyword_args(
    values: Seq<PyObjectRef>,
    names: Seq<Seq<char>>,
) -> Seq<(Seq<char>, PyObjectRef)>
    recommends
        names.len() <= values.len(),
{
    Seq::new(
        names.len(),
        |i: int| (names[names.len() - 1 - i], values[values.len() - 1 - i]),
    )
}

/// The text of each name.
pub open spec fn texts(names: Seq<String>) -> Seq<Seq<char>> {
    names.map_values(|n: String| n@)
}

impl PyFuncArgs {
    /// Takes the last values as the keyword arguments of the given names.
    pub fn new(args: Vec<PyObjectRef>, kwarg_names: Vec<String>) -> (all: PyFuncArgs)
        requires
            kwarg_names@.len() <= args@.len(),
        ensures
            all.args@ == args@.take(args@.len() - kwarg_names@.len()),
            named(all.kwargs@) == keyword_args(args@, texts(kwarg_names@)),
    {
        let mut args = args;
        let ghost values = args@;
        let mut kwargs: Vec<(String, PyObjectRef)> = Vec::new();
        let mut left: usize = kwarg_names.len();
        while left > 0
            invariant
                left <= kwarg_names@.len() <= values.len(),
                kwargs@.len() == kwarg_names@.len() - left,
                args@ == values.take(values.len() - kwargs@.len()),
                forall|i: int|
                    0 <= i < kwargs@.len() ==> (#[trigger] kwargs@[i]).0@ == kwarg_names@[kwarg_names@.len()
                        - 1 - i]@ && kwargs@[i].1 == values[values.len() - 1 - i],
            decreases left,
        {
            left = left - 1;
            match args.pop() {
                Some(value) => kwargs.push((kwarg_names[left].clone(), value)),
                None => {},
            }
        }
        assert(named(kwargs@) =~= keyword_args(values, texts(kwarg_names@)));
        PyFuncArgs { args, kwargs }
    }
}

/// The dictionary that a list of entries stands for: of two entries with one key, the later counts.
pub open spec fn dict_of(entries: Seq<(String, PyObjectRef)>) -> Map<Seq<char>, PyObjectRef>
    decreases entries.len(),
{
    if entries.len() == 0 {
        Map::empty()
    } else {
        dict_of(entries.drop_last()).insert(entries.last().0@, entries.last().1)
    }
}

/// No key occurs twice.
pub open spec fn distinct_keys(entries: Seq<(String, PyObjectRef)>) -> bool {
    forall|i: int, j: int|
        0 <= i < j < entries.len() ==> (#[trigger] entries[i]).0@ != (#[trigger] entries[j]).0@
}

proof fn lemma_dict_update(
    entries: Seq<(String, PyObjectRef)>,
    at: int,
    key: String,
    value: PyObjectRef,
)
    requires
        distinct_keys(entries),
        0 <= at < entries.len(),
        entries[at].0@ == key@,
    ensures
        dict_of(entries.update(at, (key, value))) == dict_of(entries).insert(key@, value),
    decreases entries.len(),
{
    let changed = entries.update(at, (key, value));
    if at == entries.len() - 1 {
        assert(changed.drop_last() =~= entries.drop_last());
        assert(dict_of(changed) =~= dict_of(entries).insert(key@, value));
    } else {
        lemma_dict_update(entries.drop_last(), at, key, value);
        assert(changed.drop_last() =~= entries.drop_last().update(at, (key, value)));
        assert(entries[at].0@ != entries.last().0@);
        assert(dict_of(changed) =~= dict_of(entries).insert(key@, value));
    }
}

/// Puts an entry into a dictionary that is kept as a list without repeated keys.
pub fn insert_entry(entries: &mut Vec<(String, PyObjectRef)>, key: String, value: PyObjectRef)
    requires
        distinct_keys(old(entries)@),
    ensures
        distinct_keys(final(entries)@),
        dict_of(final(entries)@) == dict_of(old(entries)@).insert(key@, value),
{
    let mut at: usize = 0;
    while at < entries.len()
        invariant
            *entries == *old(entries),
            at <= entries@.len(),
            forall|i: int| 0 <= i < at ==> (#[trigger] entries@[i]).0@ != key@,
            distinct_keys(entries@),
        decreases entries@.len() - at,
    {
        if entries[at].0 == key {
            proof {
                lemma_dict_update(entries@, at as int, key, value);
            }
            entries.set(at, (key, value));
            return;
        }
        at = at + 1;
    }
    assert(entries@.push((key, value)).drop_last() =~= entries@);
    entries.push((key, value));
}

} // verus!
