//! What each instruction asks of the machine, and what it makes of the answers.
//!
//! The laws speak of the frame and of the record alone: of the values on the stack by their
//! places, and of the exchanges by what was asked and answered. They hold of every run that has
//! a record, so each one leaves out only the effects that no run has.
use vstd::prelude::*;

use crate::bytecode::{
    BinaryOperator, CodeObject, ComparisonOperator, Constant, FunctionOpArg, Instruction, Label,
    UnaryOperator,
};
use crate::frame::{Block, Fault};
use crate::pyobject::{ExceptionType, PyObjectKind, PyObjectRef};
use crate::semantics;
use crate::semantics::{FrameState, Outcome, Step};
use crate::text;
use crate::vm::{Event, ImportDirectory, Reply, Request};

verus! {

// ---------------------------------------------------------------------------------------------
// Ways to speak of an effect.

/// A frame with another stack.
pub open spec fn with_stack(frame: FrameState, stack: Seq<PyObjectRef>) -> FrameState {
    FrameState { stack, ..frame }
}

/// A frame without its topmost values.
pub open spec fn without(frame: FrameState, count: int) -> FrameState {
    with_stack(frame, frame.stack.subrange(0, frame.stack.len() - count))
}

/// The value that has the given number of values above it.
pub open spec fn under(frame: FrameState, above: int) -> PyObjectRef {
    frame.stack[frame.stack.len() - 1 - above]
}

/// Whether the request stands in the record at the place.
pub open spec fn asked(log: Seq<Event>, at: int, request: Request) -> bool {
    0 <= at < log.len() && log[at].request == request
}

/// Whether the run goes on with the frame.
pub open spec fn goes_on(step: Step, frame: FrameState, at: int) -> bool {
    &&& step.outcome == Outcome::Next
    &&& step.frame == frame
    &&& step.at == at
}

/// Whether the exception is raised.
pub open spec fn raises(step: Step, frame: FrameState, exception: PyObjectRef, at: int) -> bool {
    &&& step.outcome == Outcome::Done(Err(exception))
    &&& step.frame == frame
    &&& step.at == at
}

/// Whether the one request was made and the object that came back lies on the stack.
pub open spec fn pushes_object(
    step: Step,
    frame: FrameState,
    log: Seq<Event>,
    at: int,
    request: Request,
) -> bool {
    &&& asked(log, at, request)
    &&& match log[at].reply {
        Reply::Object(object) => goes_on(
            step,
            with_stack(frame, frame.stack.push(object)),
            at + 1,
        ),
        _ => false,
    }
}

/// Whether the one request was made, and the value that came back lies on the stack or the
/// exception that came back is raised.
pub open spec fn pushes_value(
    step: Step,
    frame: FrameState,
    log: Seq<Event>,
    at: int,
    request: Request,
) -> bool {
    &&& asked(log, at, request)
    &&& match log[at].reply {
        Reply::Result(Ok(value)) => goes_on(
            step,
            with_stack(frame, frame.stack.push(value)),
            at + 1,
        ),
        Reply::Result(Err(exception)) => raises(step, frame, exception, at + 1),
        _ => false,
    }
}

/// Whether the one request was made, and nothing came of it or the exception that came back is
/// raised.
pub open spec fn drops_value(
    step: Step,
    frame: FrameState,
    log: Seq<Event>,
    at: int,
    request: Request,
) -> bool {
    &&& asked(log, at, request)
    &&& match log[at].reply {
        Reply::Result(Ok(_)) => goes_on(step, frame, at + 1),
        Reply::Result(Err(exception)) => raises(step, frame, exception, at + 1),
        _ => false,
    }
}

/// Whether a new exception was asked for and is raised.
pub open spec fn raises_new(
    step: Step,
    frame: FrameState,
    log: Seq<Event>,
    at: int,
    exc_type: ExceptionType,
    message: Seq<char>,
) -> bool {
    &&& asked(log, at, Request::NewException { exc_type, message })
    &&& match log[at].reply {
        Reply::Object(exception) => raises(step, frame, exception, at + 1),
        _ => false,
    }
}

/// Whether the run goes on at the label's place, or the label has none.
pub open spec fn lands(step: Step, frame: FrameState, label: Label, at: int) -> bool {
    if frame.code.label_map@.dom().contains(label) {
        goes_on(step, FrameState { lasti: frame.code.label_map@[label] as int, ..frame }, at)
    } else {
        step.outcome == Outcome::Fault(Fault::UnknownLabel) && step.at == at
    }
}

// ---------------------------------------------------------------------------------------------
// Frames and contracts.

/// Values are pushed and taken off at one end of the stack, blocks at one end of theirs.
pub proof fn law_frame_parts(
    frame: FrameState,
    value: PyObjectRef,
    values: Seq<PyObjectRef>,
    block: Block,
    count: int,
    target: int,
)
    requires
        0 <= count <= frame.stack.len(),
    ensures
        frame.push(value) == with_stack(frame, frame.stack.push(value)),
        frame.extend(values) == with_stack(frame, frame.stack + values),
        frame.drop(count) == without(frame, count),
        frame.top(count) == frame.stack.subrange(
            frame.stack.len() - count,
            frame.stack.len() as int,
        ),
        count < frame.stack.len() ==> frame.nth(count) == under(frame, count),
        frame.push_block(block) == (FrameState { blocks: frame.blocks.push(block), ..frame }),
        frame.push_block(block).pop_block() == frame,
        frame.blocks.len() == 0 ==> frame.pop_block() == frame,
        frame.goto(target) == (FrameState { lasti: target, ..frame }),
{
    assert(frame.stack.take(frame.stack.len() - count) =~= frame.stack.subrange(
        0,
        frame.stack.len() - count,
    ));
    assert(frame.stack.skip(frame.stack.len() - count) =~= frame.stack.subrange(
        frame.stack.len() - count,
        frame.stack.len() as int,
    ));
    assert(frame.push_block(block).pop_block().blocks =~= frame.blocks);
}

proof fn lemma_parts(frame: FrameState, count: int)
    requires
        0 <= count <= frame.stack.len(),
    ensures
        frame.drop(count) == without(frame, count),
        frame.top(count) == frame.stack.subrange(
            frame.stack.len() - count,
            frame.stack.len() as int,
        ),
{
    law_frame_parts(
        frame,
        PyObjectRef { id: 0 },
        seq![],
        Block::TryExcept { handler: 0 },
        count,
        0,
    );
}

/// What a function leaves behind and returns is the effect, to the last part of it.
pub proof fn law_agreement_is_equality(
    step: Step,
    frame: FrameState,
    result: crate::frame::StepResult,
    at: int,
)
    ensures
        semantics::agrees(step, frame, result, at) ==> {
            &&& step.at == at
            &&& match result {
                Ok(None) => step.outcome == Outcome::Next && step.frame == frame,
                Ok(Some(done)) => step.outcome == Outcome::Done(done) && step.frame == frame,
                Err(fault) => step.outcome == Outcome::Fault(fault),
            }
        },
{
}

/// A record that goes on from another begins with it.
pub proof fn law_later_record_begins_with_the_earlier(log: Seq<Event>, earlier: Seq<Event>)
    ensures
        crate::vm::continues(log, earlier) <==> earlier.len() <= log.len() && log.subrange(
            0,
            earlier.len() as int,
        ) == earlier,
{
    if crate::vm::continues(log, earlier) {
        assert(log.subrange(0, earlier.len() as int) =~= earlier);
    }
    if earlier.len() <= log.len() && log.subrange(0, earlier.len() as int) == earlier {
        assert forall|i: int| 0 <= i < earlier.len() implies #[trigger] log[i] == earlier[i] by {
            assert(log.subrange(0, earlier.len() as int)[i] == log[i]);
        }
    }
}

/// An instruction is executed from the place where the frame stands, and the frame then stands
/// behind it.
pub proof fn law_next_instruction_is_executed(frame: FrameState, log: Seq<Event>, at: int)
    ensures
        0 <= frame.lasti < frame.code.instructions@.len() ==> semantics::execute_next(
            frame,
            log,
            at,
        ) == semantics::execute(
            FrameState { lasti: frame.lasti + 1, ..frame },
            frame.code.instructions@[frame.lasti],
            log,
            at,
        ),
        !(0 <= frame.lasti < frame.code.instructions@.len()) ==> semantics::execute_next(
            frame,
            log,
            at,
        ).outcome == Outcome::Fault(Fault::NoInstruction),
{
}

// ---------------------------------------------------------------------------------------------
// The stack.

/// A value is taken off, or doubled. Nothing is asked.
pub proof fn law_pop_and_duplicate(frame: FrameState, log: Seq<Event>, at: int)
    requires
        frame.stack.len() >= 1,
    ensures
        goes_on(semantics::execute(frame, Instruction::Pop, log, at), without(frame, 1), at),
        goes_on(
            semantics::execute(frame, Instruction::Duplicate, log, at),
            with_stack(frame, frame.stack.push(frame.stack.last())),
            at,
        ),
        goes_on(semantics::execute(frame, Instruction::Pass, log, at), frame, at),
{
    law_frame_parts(frame, frame.stack.last(), seq![], Block::TryExcept { handler: 0 }, 1, 0);
    assert(without(frame, 1).stack =~= frame.drop(1).stack);
}

/// After a rotation the value that was on top lies below the others, which keep their order, and
/// what lies deeper is kept.
pub proof fn law_rotate_places(frame: FrameState, amount: usize, log: Seq<Event>, at: int)
    requires
        2 <= amount <= frame.stack.len(),
    ensures
        ({
            let step = semantics::execute(frame, Instruction::Rotate { amount }, log, at);
            let all = frame.stack;
            let base = all.len() - amount;
            &&& goes_on(step, with_stack(frame, step.frame.stack), at)
            &&& step.frame.stack.len() == all.len()
            &&& forall|i: int| 0 <= i < base ==> step.frame.stack[i] == #[trigger] all[i]
            &&& step.frame.stack[base] == all[all.len() - 1]
            &&& forall|i: int|
                base <= i < all.len() - 1 ==> step.frame.stack[i + 1] == #[trigger] all[i]
        }),
{
    let step = semantics::execute(frame, Instruction::Rotate { amount }, log, at);
    assert(with_stack(frame, step.frame.stack) == step.frame);
}

/// A collection is made of the topmost values, the deepest first, and takes their place.
pub proof fn law_collection_of_top(frame: FrameState, size: usize, log: Seq<Event>, at: int)
    requires
        size <= frame.stack.len(),
    ensures
        ({
            let elements = frame.stack.subrange(
                frame.stack.len() - size,
                frame.stack.len() as int,
            );
            let rest = without(frame, size as int);
            let list = semantics::execute(frame, Instruction::BuildList { size }, log, at);
            let set_step = semantics::execute(frame, Instruction::BuildSet { size }, log, at);
            let tuple = semantics::execute(frame, Instruction::BuildTuple { size }, log, at);
            &&& list.outcome is Stuck || pushes_object(
                list,
                rest,
                log,
                at,
                Request::NewList { elements },
            )
            &&& set_step.outcome is Stuck || pushes_object(
                set_step,
                rest,
                log,
                at,
                Request::NewSet { elements },
            )
            &&& tuple.outcome is Stuck || pushes_object(
                tuple,
                rest,
                log,
                at,
                Request::NewTuple { elements },
            )
        }),
{
    lemma_parts(frame, size as int);
}

/// An item goes into the collection that has exactly the given number of values above it, and is
/// taken off.
pub proof fn law_item_goes_into_its_collection(
    frame: FrameState,
    i: usize,
    log: Seq<Event>,
    at: int,
)
    requires
        i < frame.stack.len(),
    ensures
        ({
            let append = semantics::execute(frame, Instruction::ListAppend { i }, log, at);
            let insert = semantics::execute(frame, Instruction::SetAdd { i }, log, at);
            let collection = frame.stack[frame.stack.len() - 1 - i];
            let item = frame.stack[frame.stack.len() - 1];
            &&& append.outcome is Stuck || drops_value(
                append,
                without(frame, 1),
                log,
                at,
                Request::CallMethod { obj: collection, name: "append"@, args: seq![item] },
            )
            &&& insert.outcome is Stuck || drops_value(
                insert,
                without(frame, 1),
                log,
                at,
                Request::CallMethod { obj: collection, name: "add"@, args: seq![item] },
            )
        }),
{
    lemma_parts(frame, 1);
}

/// However many values were pushed onto a collection, an item goes to that collection.
pub proof fn law_item_goes_to_what_was_pushed(
    frame: FrameState,
    collection: PyObjectRef,
    values: Seq<PyObjectRef>,
    log: Seq<Event>,
    at: int,
)
    requires
        0 < values.len() <= usize::MAX,
    ensures
        ({
            let full = with_stack(frame, frame.stack.push(collection) + values);
            let i = values.len() as usize;
            let append = semantics::execute(full, Instruction::ListAppend { i }, log, at);
            let insert = semantics::execute(full, Instruction::SetAdd { i }, log, at);
            &&& append.outcome is Stuck || log[at].request == (Request::CallMethod {
                obj: collection,
                name: "append"@,
                args: seq![values.last()],
            })
            &&& insert.outcome is Stuck || log[at].request == (Request::CallMethod {
                obj: collection,
                name: "add"@,
                args: seq![values.last()],
            })
        }),
{
    let full = with_stack(frame, frame.stack.push(collection) + values);
    law_item_goes_into_its_collection(full, values.len() as usize, log, at);
}

/// A pair goes into the dictionary below it: the key is on top and the value under it.
pub proof fn law_pair_goes_into_its_dictionary(
    frame: FrameState,
    i: usize,
    log: Seq<Event>,
    at: int,
)
    requires
        i + 1 < frame.stack.len(),
    ensures
        ({
            let step = semantics::execute(frame, Instruction::MapAdd { i }, log, at);
            step.outcome is Stuck || drops_value(
                step,
                without(frame, 2),
                log,
                at,
                Request::CallMethod {
                    obj: frame.stack[frame.stack.len() - 2 - i],
                    name: "__setitem__"@,
                    args: seq![
                        frame.stack[frame.stack.len() - 1],
                        frame.stack[frame.stack.len() - 2],
                    ],
                },
            )
        }),
{
    lemma_parts(frame, 2);
}

/// The text that the record says an object holds.
pub open spec fn answered_text(log: Seq<Event>, at: int) -> Seq<char> {
    match log[at].reply {
        Reply::Kind(PyObjectKind::String { value }) => value@,
        _ => Seq::empty(),
    }
}

/// Whether the keys of the topmost pairs were asked for, the topmost first, and are strings.
pub open spec fn keys_asked(
    stack: Seq<PyObjectRef>,
    size: int,
    log: Seq<Event>,
    at: int,
) -> bool {
    forall|k: int|
        0 <= k < size ==> {
            &&& #[trigger] asked(
                log,
                at + k,
                Request::Kind { obj: stack[stack.len() - 2 - 2 * k] },
            )
            &&& log[at + k].reply matches Reply::Kind(PyObjectKind::String { .. })
        }
}

/// Whether no deeper pair has the key of a pair.
pub open spec fn deepest(size: int, log: Seq<Event>, at: int, k: int) -> bool {
    forall|deeper: int|
        k < deeper < size ==> #[trigger] answered_text(log, at + deeper) != answered_text(
            log,
            at + k,
        )
}

/// Whether the last answer says that a key is no string.
pub open spec fn key_refused(
    stack: Seq<PyObjectRef>,
    size: int,
    log: Seq<Event>,
    at: int,
    after: int,
) -> bool {
    &&& at < after <= at + size
    &&& asked(
        log,
        after - 1,
        Request::Kind { obj: stack[stack.len() - 2 - 2 * (after - 1 - at)] },
    )
    &&& log[after - 1].reply is Kind
    &&& !(log[after - 1].reply matches Reply::Kind(PyObjectKind::String { .. }))
}

/// Whether each key of the topmost pairs stands in a dictionary with the value of its deepest pair.
pub open spec fn holds_pairs(
    found: Map<Seq<char>, PyObjectRef>,
    stack: Seq<PyObjectRef>,
    size: int,
    log: Seq<Event>,
    at: int,
) -> bool {
    forall|k: int|
        0 <= k < size && #[trigger] deepest(size, log, at, k) ==> found.dom().contains(
            answered_text(log, at + k),
        ) && found[answered_text(log, at + k)] == stack[stack.len() - 1 - 2 * k]
}

/// Whether a dictionary holds the same as another one for all keys that the pairs do not have.
pub open spec fn keeps_others(
    found: Map<Seq<char>, PyObjectRef>,
    entries: Map<Seq<char>, PyObjectRef>,
    size: int,
    log: Seq<Event>,
    at: int,
) -> bool {
    forall|key: Seq<char>|
        (forall|k: int| 0 <= k < size ==> #[trigger] answered_text(log, at + k) != key) ==> (
        #[trigger] found.dom().contains(key) <==> entries.dom().contains(key)) && (
        entries.dom().contains(key) ==> found[key] == entries[key])
}

#[verifier::spinoff_prover]
proof fn lemma_pairs(
    stack: Seq<PyObjectRef>,
    size: nat,
    entries: Map<Seq<char>, PyObjectRef>,
    log: Seq<Event>,
    at: int,
)
    requires
        2 * size <= stack.len(),
    ensures
        semantics::pairs(stack, size, entries, log, at) matches Some((Ok(found), after)) ==> {
            &&& after == at + size
            &&& keys_asked(stack, size as int, log, at)
            &&& holds_pairs(found, stack, size as int, log, at)
            &&& keeps_others(found, entries, size as int, log, at)
        },
        semantics::pairs(stack, size, entries, log, at) matches Some((Err(fault), after))
            ==> fault == Fault::KeyNotString && key_refused(stack, size as int, log, at, after),
    decreases size,
{
    if size > 0 {
        match semantics::kind_reply(log, at, stack[stack.len() - 2]) {
            Some(PyObjectKind::String { value }) => {
                let rest = stack.take(stack.len() - 2);
                let more = entries.insert(value@, stack.last());
                lemma_pairs(rest, (size - 1) as nat, more, log, at + 1);
                match semantics::pairs(rest, (size - 1) as nat, more, log, at + 1) {
                    Some((Ok(found), after)) => {
                        assert(answered_text(log, at) == value@);
                        assert forall|k: int| 0 <= k < size implies {
                            &&& #[trigger] asked(
                                log,
                                at + k,
                                Request::Kind { obj: stack[stack.len() - 2 - 2 * k] },
                            )
                            &&& log[at + k].reply matches Reply::Kind(PyObjectKind::String { .. })
                        } by {
                            if k > 0 {
                                assert(asked(
                                    log,
                                    at + 1 + (k - 1),
                                    Request::Kind { obj: rest[rest.len() - 2 - 2 * (k - 1)] },
                                ));
                            }
                        }
                        assert forall|k: int|
                            0 <= k < size && #[trigger] deepest(size as int, log, at, k) implies
                            found.dom().contains(answered_text(log, at + k)) && found[answered_text(
                            log,
                            at + k,
                        )] == stack[stack.len() - 1 - 2 * k] by {
                            if k == 0 {
                                assert forall|j: int| 0 <= j < size - 1 implies
                                    #[trigger] answered_text(log, at + 1 + j) != value@ by {
                                    assert(answered_text(log, at + (j + 1)) != answered_text(
                                        log,
                                        at + 0,
                                    ));
                                }
                                assert(more.dom().contains(value@));
                                assert(found.dom().contains(value@));
                            } else {
                                assert forall|deeper: int|
                                    k - 1 < deeper < size - 1 implies #[trigger] answered_text(
                                    log,
                                    at + 1 + deeper,
                                ) != answered_text(log, at + 1 + (k - 1)) by {
                                    assert(answered_text(log, at + (deeper + 1)) != answered_text(
                                        log,
                                        at + k,
                                    ));
                                }
                                assert(deepest(size - 1, log, at + 1, k - 1));
                                assert(at + 1 + (k - 1) == at + k);
                                assert(rest[rest.len() - 1 - 2 * (k - 1)] == stack[stack.len() - 1
                                    - 2 * k]);
                            }
                        }
                        assert(keys_asked(stack, size as int, log, at));
                        assert forall|key: Seq<char>|
                            (forall|k: int|
                                0 <= k < size ==> #[trigger] answered_text(log, at + k) != key)
                            implies (#[trigger] found.dom().contains(key)
                            <==> entries.dom().contains(key)) && (entries.dom().contains(key)
                            ==> found[key] == entries[key]) by {
                            assert(answered_text(log, at + 0) != key);
                            assert forall|j: int| 0 <= j < size - 1 implies
                                #[trigger] answered_text(log, at + 1 + j) != key by {
                                assert(answered_text(log, at + (j + 1)) != key);
                            }
                        }
                        assert(holds_pairs(found, stack, size as int, log, at));
                        assert(keeps_others(found, entries, size as int, log, at));
                    },
                    _ => {},
                }
            },
            _ => {},
        }
    }
}

/// A dictionary is made of the topmost pairs. Each key is asked for, and stands in the dictionary
/// with the value of its deepest pair; nothing else stands there.
pub proof fn law_dictionary_of_pairs(frame: FrameState, size: usize, log: Seq<Event>, at: int)
    requires
        2 * size <= frame.stack.len(),
    ensures
        ({
            let step = semantics::execute(frame, Instruction::BuildMap { size }, log, at);
            let made = at + size;
            &&& step.outcome is Stuck || step.outcome == Outcome::Next || (step.outcome
                == Outcome::Fault(Fault::KeyNotString) && key_refused(
                frame.stack,
                size as int,
                log,
                at,
                step.at,
            ))
            &&& step.outcome == Outcome::Next ==> {
                &&& keys_asked(frame.stack, size as int, log, at)
                &&& 0 <= made < log.len()
                &&& log[made].request matches Request::NewDict { entries } && {
                    &&& pushes_object(
                        step,
                        without(frame, 2 * size),
                        log,
                        made,
                        Request::NewDict { entries },
                    )
                    &&& holds_pairs(entries, frame.stack, size as int, log, at)
                    &&& keeps_others(entries, Map::empty(), size as int, log, at)
                }
            }
        }),
{
    lemma_pairs(frame.stack, size as nat, Map::empty(), log, at);
    lemma_parts(frame, 2 * size);
}

/// The bound of a slice that the record says an object stands for.
pub open spec fn answered_bound(log: Seq<Event>, at: int) -> Option<i32> {
    match log[at].reply {
        Reply::Kind(PyObjectKind::Integer { value }) => Some(value),
        _ => None,
    }
}

/// Whether the record says that an object is an integer or `None`.
pub open spec fn is_bound(log: Seq<Event>, at: int) -> bool {
    match log[at].reply {
        Reply::Kind(PyObjectKind::Integer { .. }) => true,
        Reply::Kind(PyObjectKind::NoneValue) => true,
        _ => false,
    }
}

/// A slice is made of the topmost two or three values, the start deepest. A bound that is `None`
/// is open, and so is a step that is not there.
pub proof fn law_slice_of_top(frame: FrameState, size: usize, log: Seq<Event>, at: int)
    requires
        size == 2 || size == 3,
        size <= frame.stack.len(),
    ensures
        ({
            let step = semantics::execute(frame, Instruction::BuildSlice { size }, log, at);
            let base = frame.stack.len() - size;
            let last = step.at - 1;
            &&& step.outcome is Stuck || step.outcome == Outcome::Next || (step.outcome
                == Outcome::Fault(Fault::BadSliceBound) && at <= last < at + size && asked(
                log,
                last,
                Request::Kind { obj: frame.stack[base + last - at] },
            ) && !is_bound(log, last))
            &&& step.outcome == Outcome::Next ==> {
                &&& is_bound(log, at) && is_bound(log, at + 1) && (size == 3 ==> is_bound(
                    log,
                    at + 2,
                ))
                &&& asked(log, at, Request::Kind { obj: frame.stack[base] })
                &&& asked(log, at + 1, Request::Kind { obj: frame.stack[base + 1] })
                &&& size == 3 ==> asked(
                    log,
                    at + 2,
                    Request::Kind { obj: frame.stack[base + 2] },
                )
                &&& pushes_object(
                    step,
                    without(frame, size as int),
                    log,
                    at + size,
                    Request::NewSlice {
                        start: answered_bound(log, at),
                        stop: answered_bound(log, at + 1),
                        step: if size == 3 {
                            answered_bound(log, at + 2)
                        } else {
                            None
                        },
                    },
                )
            }
        }),
{
    reveal_with_fuel(semantics::bounds, 4);
    lemma_parts(frame, size as int);
}

/// Unpacking a sequence puts its elements onto the stack, the first one on top. Where their number
/// is said and is another one, a `ValueError` is raised.
pub proof fn law_unpack_puts_first_on_top(
    frame: FrameState,
    size: usize,
    log: Seq<Event>,
    at: int,
)
    requires
        frame.stack.len() >= 1,
    ensures
        ({
            let all = semantics::execute(frame, Instruction::Unpack, log, at);
            let some = semantics::execute(frame, Instruction::UnpackSequence { size }, log, at);
            let rest = without(frame, 1);
            &&& all.outcome is Stuck || (asked(
                log,
                at,
                Request::Elements { obj: frame.stack.last() },
            ) && match log[at].reply {
                Reply::Objects(Some(elements)) => unpacks(all, rest, elements, at + 1),
                _ => all.outcome == Outcome::Fault(Fault::NotSequence),
            })
            &&& some.outcome is Stuck || (asked(
                log,
                at,
                Request::Elements { obj: frame.stack.last() },
            ) && match log[at].reply {
                Reply::Objects(Some(elements)) => if elements.len() == size {
                    unpacks(some, rest, elements, at + 1)
                } else {
                    raises_new(
                        some,
                        rest,
                        log,
                        at + 1,
                        ExceptionType::ValueError,
                        "Wrong number of values to unpack"@,
                    )
                },
                _ => some.outcome == Outcome::Fault(Fault::NotSequence),
            })
        }),
{
    lemma_parts(frame, 1);
}

/// Whether the run goes on with elements on the stack, the first one on top.
pub open spec fn unpacks(
    step: Step,
    frame: FrameState,
    elements: Seq<PyObjectRef>,
    at: int,
) -> bool {
    let stack = step.frame.stack;
    &&& goes_on(step, with_stack(frame, stack), at)
    &&& stack.len() == frame.stack.len() + elements.len()
    &&& forall|i: int| 0 <= i < frame.stack.len() ==> stack[i] == #[trigger] frame.stack[i]
    &&& forall|i: int|
        0 <= i < elements.len() ==> stack[stack.len() - 1 - i] == #[trigger] elements[i]
}

/// Unpacking with a starred target puts the first elements on top, below them a list of the middle
/// ones, and below it the last ones. Too few elements raise a `ValueError`.
pub proof fn law_unpack_with_star(
    frame: FrameState,
    before: usize,
    after: usize,
    log: Seq<Event>,
    at: int,
)
    requires
        frame.stack.len() >= 1,
        before + after <= usize::MAX,
    ensures
        ({
            let step = semantics::execute(
                frame,
                Instruction::UnpackEx { before, after },
                log,
                at,
            );
            let rest = without(frame, 1);
            let needed = before + after;
            step.outcome is Stuck || (asked(log, at, Request::Elements { obj: frame.stack.last() })
                && match log[at].reply {
                Reply::Objects(Some(elements)) => if elements.len() < needed {
                    raises_new(
                        step,
                        rest,
                        log,
                        at + 1,
                        ExceptionType::ValueError,
                        "Not enough values to unpack (expected at least "@ + text::decimal(
                            needed as nat,
                        ) + ", got "@ + text::decimal(elements.len()),
                    )
                } else {
                    &&& asked(
                        log,
                        at + 1,
                        Request::NewList {
                            elements: elements.subrange(before as int, elements.len() - after),
                        },
                    )
                    &&& log[at + 1].reply matches Reply::Object(middle) && {
                        let stack = step.frame.stack;
                        &&& goes_on(step, with_stack(rest, stack), at + 2)
                        &&& stack.len() == rest.stack.len() + needed + 1
                        &&& forall|i: int|
                            0 <= i < rest.stack.len() ==> stack[i] == #[trigger] rest.stack[i]
                        &&& forall|i: int|
                            0 <= i < before ==> stack[stack.len() - 1 - i]
                                == #[trigger] elements[i]
                        &&& stack[stack.len() - 1 - before] == middle
                        &&& forall|i: int|
                            elements.len() - after <= i < elements.len() ==> stack[rest.stack.len()
                                + elements.len() - 1 - i] == #[trigger] elements[i]
                    }
                },
                _ => step.outcome == Outcome::Fault(Fault::NotSequence),
            })
        }),
{
    lemma_parts(frame, 1);
}

// ---------------------------------------------------------------------------------------------
// Constants, names and attributes.

/// A constant becomes the object that holds it.
pub proof fn law_constant_becomes_object(
    frame: FrameState,
    value: Constant,
    log: Seq<Event>,
    at: int,
)
    ensures
        ({
            let step = semantics::execute(frame, Instruction::LoadConst { value }, log, at);
            step.outcome is Stuck || match value {
                Constant::Integer { value } => pushes_object(
                    step,
                    frame,
                    log,
                    at,
                    Request::NewInt { value },
                ),
                Constant::Float { bits } => pushes_object(
                    step,
                    frame,
                    log,
                    at,
                    Request::NewFloat { bits },
                ),
                Constant::String { value } => pushes_object(
                    step,
                    frame,
                    log,
                    at,
                    Request::NewStr { value: value@ },
                ),
                Constant::Boolean { value } => pushes_object(
                    step,
                    frame,
                    log,
                    at,
                    Request::NewBool { value },
                ),
                Constant::Code { code } => pushes_object(
                    step,
                    frame,
                    log,
                    at,
                    Request::NewCode { code: *code },
                ),
                Constant::NoneValue => pushes_object(
                    step,
                    frame,
                    log,
                    at,
                    Request::NoneObject,
                ),
                Constant::Tuple { .. } => step.outcome == Outcome::Next,
            }
        }),
{
}

/// The effect of loading constants one after the other.
pub open spec fn loaded(
    frame: FrameState,
    values: Seq<Constant>,
    count: nat,
    log: Seq<Event>,
    at: int,
) -> Step
    decreases count,
{
    if count == 0 {
        Step { frame, outcome: Outcome::Next, at }
    } else {
        let before = loaded(frame, values, (count - 1) as nat, log, at);
        if before.outcome == Outcome::Next {
            semantics::execute(
                before.frame,
                Instruction::LoadConst { value: values[count - 1] },
                log,
                before.at,
            )
        } else {
            before
        }
    }
}

proof fn lemma_loaded(
    frame: FrameState,
    values: Seq<Constant>,
    count: nat,
    log: Seq<Event>,
    at: int,
)
    requires
        count <= values.len(),
    ensures
        semantics::constants(values, count, log, at) matches Some((objects, after)) ==> {
            &&& objects.len() == count
            &&& loaded(frame, values, count, log, at) == (Step {
                frame: with_stack(frame, frame.stack + objects),
                outcome: Outcome::Next,
                at: after,
            })
        },
    decreases count,
{
    if count == 0 {
        assert(frame.stack + Seq::<PyObjectRef>::empty() =~= frame.stack);
    } else {
        lemma_loaded(frame, values, (count - 1) as nat, log, at);
        match semantics::constants(values, (count - 1) as nat, log, at) {
            Some((objects, after)) => match semantics::constant(values[count - 1], log, after) {
                Some((object, _)) => {
                    assert((frame.stack + objects).push(object) =~= frame.stack + objects.push(
                        object,
                    ));
                },
                None => {},
            },
            None => {},
        }
    }
}

/// A tuple constant is what comes of loading its elements and building a tuple of them.
pub proof fn law_tuple_constant_is_built(
    frame: FrameState,
    elements: Vec<Constant>,
    size: usize,
    log: Seq<Event>,
    at: int,
)
    requires
        size == elements@.len(),
    ensures
        ({
            let step = semantics::execute(
                frame,
                Instruction::LoadConst { value: Constant::Tuple { elements } },
                log,
                at,
            );
            let parts = loaded(frame, elements@, size as nat, log, at);
            step.outcome is Stuck || (parts.outcome == Outcome::Next && step == semantics::execute(
                parts.frame,
                Instruction::BuildTuple { size },
                log,
                parts.at,
            ))
        }),
{
    lemma_loaded(frame, elements@, size as nat, log, at);
    let value = Constant::Tuple { elements };
    match semantics::constants(elements@, elements@.len(), log, at) {
        Some((objects, after)) => {
            let parts = loaded(frame, elements@, size as nat, log, at);
            lemma_parts(parts.frame, size as int);
            assert(parts.frame.top(size as int) =~= objects);
            assert(parts.frame.drop(size as int).stack =~= frame.stack);
            assert(semantics::constant(value, log, at) == (match semantics::object_reply(
                log,
                after,
                Request::NewTuple { elements: objects },
            ) {
                Some(object) => Some((object, after + 1)),
                None => None,
            }));
        },
        None => {
            assert(semantics::constant(value, log, at) is None);
        },
    }
}

/// A module is imported by its name, from where the file of the code lies.
pub proof fn law_import_asks_for_module(
    frame: FrameState,
    name: String,
    symbol: Option<String>,
    log: Seq<Event>,
    at: int,
)
    ensures
        ({
            let step = semantics::execute(frame, Instruction::Import { name, symbol }, log, at);
            let directory = match frame.code.source_path {
                Some(path) => ImportDirectory::ContainingFile { path },
                None => ImportDirectory::Current,
            };
            step.outcome is Stuck || pushes_value(
                step,
                frame,
                log,
                at,
                Request::Import { directory, module: name@, symbol },
            )
        }),
{
}

/// A name is looked up in the frame's scope first.
pub proof fn law_load_name_begins_in_scope(
    frame: FrameState,
    name: String,
    log: Seq<Event>,
    at: int,
)
    ensures
        semantics::execute(frame, Instruction::LoadName { name }, log, at) == semantics::lookup(
            frame,
            name@,
            frame.locals,
            usize::MAX as nat,
            log,
            at,
        ),
        semantics::load_name(frame, name@, log, at) == semantics::lookup(
            frame,
            name@,
            frame.locals,
            usize::MAX as nat,
            log,
            at,
        ),
{
}

/// A scope is asked whether it binds the name. Where it does, what it binds it to is pushed. Where
/// it does not, the same goes for the scope around it, and where there is none, a `NameError` is
/// raised. Scopes that are nested too deeply are a fault.
pub proof fn law_lookup_goes_outwards(
    frame: FrameState,
    name: Seq<char>,
    scope: PyObjectRef,
    depth: nat,
    log: Seq<Event>,
    at: int,
)
    ensures
        ({
            let step = semantics::lookup(frame, name, scope, depth, log, at);
            if depth == 0 {
                step.outcome == Outcome::Fault(Fault::ScopesTooDeep)
            } else {
                step.outcome is Stuck || (asked(log, at, Request::ContainsKey { scope, name })
                    && match log[at].reply {
                    Reply::Flag(true) => asked(log, at + 1, Request::GetItem { scope, name })
                        && match log[at + 1].reply {
                        Reply::MaybeObject(Some(object)) => goes_on(
                            step,
                            with_stack(frame, frame.stack.push(object)),
                            at + 2,
                        ),
                        _ => step.outcome == Outcome::Fault(Fault::NameVanished),
                    },
                    Reply::Flag(false) => asked(log, at + 1, Request::HasParent { scope })
                        && match log[at + 1].reply {
                        Reply::Flag(true) => asked(log, at + 2, Request::GetParent { scope })
                            && match log[at + 2].reply {
                            Reply::Object(parent) => step == semantics::lookup(
                                frame,
                                name,
                                parent,
                                (depth - 1) as nat,
                                log,
                                at + 3,
                            ),
                            _ => false,
                        },
                        Reply::Flag(false) => raises_new(
                            step,
                            frame,
                            log,
                            at + 2,
                            ExceptionType::NameError,
                            "Has not attribute '"@ + name + "'"@,
                        ),
                        _ => false,
                    },
                    _ => false,
                })
            }
        }),
{
}

/// A name is bound in the frame's scope to the topmost value, which is taken off.
pub proof fn law_store_name_binds_top(
    frame: FrameState,
    name: String,
    log: Seq<Event>,
    at: int,
)
    requires
        frame.stack.len() >= 1,
    ensures
        ({
            let step = semantics::execute(frame, Instruction::StoreName { name }, log, at);
            &&& step == semantics::store_name(frame, name@, log, at)
            &&& step.outcome is Stuck || (asked(
                log,
                at,
                Request::SetItem {
                    scope: frame.locals,
                    name: name@,
                    value: frame.stack[frame.stack.len() - 1],
                },
            ) && goes_on(step, without(frame, 1), at + 1))
        }),
{
    lemma_parts(frame, 1);
}

/// A name is deleted from the object that holds the variables of the frame's scope.
pub proof fn law_delete_name_asks_the_variables(
    frame: FrameState,
    name: String,
    log: Seq<Event>,
    at: int,
)
    ensures
        ({
            let step = semantics::execute(frame, Instruction::DeleteName { name }, log, at);
            step.outcome is Stuck || (asked(log, at, Request::Kind { obj: frame.locals })
                && match log[at].reply {
                Reply::Kind(PyObjectKind::Scope { locals }) => asked(
                    log,
                    at + 1,
                    Request::NewStr { value: name@ },
                ) && match log[at + 1].reply {
                    Reply::Object(key) => drops_value(
                        step,
                        frame,
                        log,
                        at + 2,
                        Request::CallMethod {
                            obj: locals,
                            name: "__delitem__"@,
                            args: seq![key],
                        },
                    ),
                    _ => false,
                },
                _ => step.outcome == Outcome::Fault(Fault::NotScope),
            })
        }),
{
}

/// An attribute is read from the topmost value.
pub proof fn law_load_attr_reads_top(
    frame: FrameState,
    name: String,
    log: Seq<Event>,
    at: int,
)
    requires
        frame.stack.len() >= 1,
    ensures
        ({
            let step = semantics::execute(frame, Instruction::LoadAttr { name }, log, at);
            step.outcome is Stuck || pushes_value(
                step,
                without(frame, 1),
                log,
                at,
                Request::GetAttribute { obj: frame.stack[frame.stack.len() - 1], name: name@ },
            )
        }),
{
    lemma_parts(frame, 1);
}

/// An attribute of the topmost value is set to the value under it.
pub proof fn law_store_attr_sets_on_top(
    frame: FrameState,
    name: String,
    log: Seq<Event>,
    at: int,
)
    requires
        frame.stack.len() >= 2,
    ensures
        ({
            let step = semantics::execute(frame, Instruction::StoreAttr { name }, log, at);
            step.outcome is Stuck || (asked(
                log,
                at,
                Request::SetAttr {
                    obj: frame.stack[frame.stack.len() - 1],
                    name: name@,
                    value: frame.stack[frame.stack.len() - 2],
                },
            ) && goes_on(step, without(frame, 2), at + 1))
        }),
{
    lemma_parts(frame, 2);
}

/// An attribute is deleted by a method of the topmost value, which is given its name.
pub proof fn law_delete_attr_asks_top(
    frame: FrameState,
    name: String,
    log: Seq<Event>,
    at: int,
)
    requires
        frame.stack.len() >= 1,
    ensures
        ({
            let step = semantics::execute(frame, Instruction::DeleteAttr { name }, log, at);
            step.outcome is Stuck || (asked(log, at, Request::NewStr { value: name@ })
                && match log[at].reply {
                Reply::Object(key) => drops_value(
                    step,
                    without(frame, 1),
                    log,
                    at + 1,
                    Request::CallMethod {
                        obj: frame.stack[frame.stack.len() - 1],
                        name: "__delattr__"@,
                        args: seq![key],
                    },
                ),
                _ => false,
            })
        }),
{
    lemma_parts(frame, 1);
}

/// Assigning to a subscript: the index is on top, the object under it, the value under both. Only
/// a list takes the assignment; for another object a `TypeError` names object and index.
pub proof fn law_store_subscript_takes_lists(frame: FrameState, log: Seq<Event>, at: int)
    requires
        frame.stack.len() >= 3,
    ensures
        ({
            let step = semantics::execute(frame, Instruction::StoreSubscript, log, at);
            let index = frame.stack[frame.stack.len() - 1];
            let obj = frame.stack[frame.stack.len() - 2];
            let value = frame.stack[frame.stack.len() - 3];
            let rest = without(frame, 3);
            step.outcome is Stuck || (asked(log, at, Request::Kind { obj }) && match log[at].reply {
                Reply::Kind(PyObjectKind::List) => drops_value(
                    step,
                    rest,
                    log,
                    at + 1,
                    Request::ListSetItem { list: obj, index, value },
                ),
                _ => {
                    &&& asked(log, at + 1, Request::DebugText { obj })
                    &&& asked(log, at + 2, Request::DebugText { obj: index })
                    &&& log[at + 1].reply matches Reply::Text(obj_text)
                    &&& log[at + 2].reply matches Reply::Text(index_text)
                    &&& raises_new(
                        step,
                        rest,
                        log,
                        at + 3,
                        ExceptionType::TypeError,
                        "TypeError: __setitem__ assign type "@ + obj_text + " with index "@
                            + index_text + " is not supported (yet?)"@,
                    )
                },
            })
        }),
{
    lemma_parts(frame, 3);
}

/// A subscript is deleted by a method of the object under the index.
pub proof fn law_delete_subscript_asks_object(frame: FrameState, log: Seq<Event>, at: int)
    requires
        frame.stack.len() >= 2,
    ensures
        ({
            let step = semantics::execute(frame, Instruction::DeleteSubscript, log, at);
            step.outcome is Stuck || drops_value(
                step,
                without(frame, 2),
                log,
                at,
                Request::CallMethod {
                    obj: frame.stack[frame.stack.len() - 2],
                    name: "__delitem__"@,
                    args: seq![frame.stack[frame.stack.len() - 1]],
                },
            )
        }),
{
    lemma_parts(frame, 2);
}

// ---------------------------------------------------------------------------------------------
// Operators.

/// The method of the left operand that applies an operator, for those that have one.
pub open spec fn operator_method(op: BinaryOperator) -> Option<Seq<char>> {
    match op {
        BinaryOperator::MatrixMultiply => Some("__matmul__"@),
        BinaryOperator::FloorDivide => Some("__floordiv__"@),
        BinaryOperator::Subscript => Some("__getitem__"@),
        BinaryOperator::Lshift => Some("__lshift__"@),
        BinaryOperator::Rshift => Some("__rshift__"@),
        BinaryOperator::Power => None,
        BinaryOperator::Multiply => None,
        BinaryOperator::Divide => None,
        BinaryOperator::Modulo => None,
        BinaryOperator::Add => None,
        BinaryOperator::Subtract => None,
        BinaryOperator::And => None,
        BinaryOperator::Xor => None,
        BinaryOperator::Or => None,
    }
}

/// An operator is applied to the deeper value as its left operand and the topmost one as its right
/// operand: by a method of the left operand, or by the machine, which is told this very operator.
pub proof fn law_operator_is_applied(
    frame: FrameState,
    op: BinaryOperator,
    log: Seq<Event>,
    at: int,
)
    requires
        frame.stack.len() >= 2,
    ensures
        ({
            let step = semantics::execute(frame, Instruction::BinaryOperation { op }, log, at);
            let a = frame.stack[frame.stack.len() - 2];
            let b = frame.stack[frame.stack.len() - 1];
            step.outcome is Stuck || pushes_value(
                step,
                without(frame, 2),
                log,
                at,
                match operator_method(op) {
                    Some(name) => Request::CallMethod { obj: a, name, args: seq![b] },
                    None => Request::Arithmetic { op, a, b },
                },
            )
        }),
{
    lemma_parts(frame, 2);
}

/// Different operators never make the same request.
pub proof fn law_operators_ask_differently(
    frame: FrameState,
    one: BinaryOperator,
    other: BinaryOperator,
    log: Seq<Event>,
    at: int,
)
    requires
        frame.stack.len() >= 2,
        !(semantics::execute(frame, Instruction::BinaryOperation { op: one }, log, at).outcome
            is Stuck),
        !(semantics::execute(frame, Instruction::BinaryOperation { op: other }, log, at).outcome
            is Stuck),
    ensures
        one == other,
{
    law_operator_is_applied(frame, one, log, at);
    law_operator_is_applied(frame, other, log, at);
    reveal_strlit("__matmul__");
    reveal_strlit("__floordiv__");
    reveal_strlit("__getitem__");
    reveal_strlit("__lshift__");
    reveal_strlit("__rshift__");
    assert("__matmul__"@.len() == 10);
    assert("__floordiv__"@.len() == 12);
    assert("__getitem__"@.len() == 11);
    assert("__lshift__"@.len() == 10);
    assert("__rshift__"@.len() == 10);
    assert("__matmul__"@[2] == 'm');
    assert("__lshift__"@[2] == 'l');
    assert("__rshift__"@[2] == 'r');
}

/// Negation of a number gives the number with the other sign; of any value, `not` gives the other
/// truth.
pub proof fn law_unary_operators(frame: FrameState, log: Seq<Event>, at: int)
    requires
        frame.stack.len() >= 1,
    ensures
        ({
            let minus = semantics::execute(
                frame,
                Instruction::UnaryOperation { op: UnaryOperator::Minus },
                log,
                at,
            );
            let not = semantics::execute(
                frame,
                Instruction::UnaryOperation { op: UnaryOperator::Not },
                log,
                at,
            );
            let obj = frame.stack[frame.stack.len() - 1];
            let rest = without(frame, 1);
            &&& minus.outcome is Stuck || (asked(log, at, Request::Kind { obj })
                && match log[at].reply {
                Reply::Kind(PyObjectKind::Integer { value }) => if value == i32::MIN {
                    minus.outcome == Outcome::Fault(Fault::IntegerOverflow)
                } else {
                    &&& 0 <= at + 1 < log.len()
                    &&& log[at + 1].request matches Request::NewInt { value: negated } && negated
                        + value == 0 && pushes_object(
                        minus,
                        rest,
                        log,
                        at + 1,
                        Request::NewInt { value: negated },
                    )
                },
                Reply::Kind(PyObjectKind::Float { bits }) => pushes_object(
                    minus,
                    rest,
                    log,
                    at + 1,
                    Request::NewFloat { bits: bits ^ 0x8000_0000_0000_0000u64 },
                ),
                _ => minus.outcome == Outcome::Fault(Fault::NotNumeric),
            })
            &&& not.outcome is Stuck || (asked(log, at, Request::Truth { obj })
                && match log[at].reply {
                Reply::Truth(Ok(value)) => pushes_object(
                    not,
                    rest,
                    log,
                    at + 1,
                    Request::NewBool { value: !value },
                ),
                Reply::Truth(Err(exception)) => raises(not, rest, exception, at + 1),
                _ => false,
            })
        }),
{
    lemma_parts(frame, 1);
}

/// The method of the left operand that makes a comparison, for those that have one.
pub open spec fn comparison_method(op: ComparisonOperator) -> Option<Seq<char>> {
    match op {
        ComparisonOperator::Equal => Some("__eq__"@),
        ComparisonOperator::NotEqual => Some("__ne__"@),
        ComparisonOperator::Less => Some("__lt__"@),
        ComparisonOperator::LessOrEqual => Some("__le__"@),
        ComparisonOperator::Greater => Some("__gt__"@),
        ComparisonOperator::GreaterOrEqual => Some("__ge__"@),
        _ => None,
    }
}

/// Values are compared by a method of the deeper one, which is given the topmost one. Identity is
/// told from the objects themselves, and membership by a method of the topmost value.
pub proof fn law_comparison_is_made(
    frame: FrameState,
    op: ComparisonOperator,
    log: Seq<Event>,
    at: int,
)
    requires
        frame.stack.len() >= 2,
    ensures
        ({
            let step = semantics::execute(frame, Instruction::CompareOperation { op }, log, at);
            let a = frame.stack[frame.stack.len() - 2];
            let b = frame.stack[frame.stack.len() - 1];
            let rest = without(frame, 2);
            let contains = Request::CallMethod { obj: b, name: "__contains__"@, args: seq![a] };
            &&& step == semantics::compare(frame, op, log, at)
            &&& step.outcome is Stuck || match op {
                ComparisonOperator::Is => pushes_object(
                    step,
                    rest,
                    log,
                    at,
                    Request::NewBool { value: a.id == b.id },
                ),
                ComparisonOperator::IsNot => pushes_object(
                    step,
                    rest,
                    log,
                    at,
                    Request::NewBool { value: a.id != b.id },
                ),
                ComparisonOperator::In => asked(log, at, contains) && match log[at].reply {
                    Reply::Result(Ok(found)) => goes_on(
                        step,
                        with_stack(rest, rest.stack.push(found)),
                        at + 1,
                    ),
                    _ => no_container(step, rest, b, log, at + 1),
                },
                ComparisonOperator::NotIn => asked(log, at, contains) && match log[at].reply {
                    Reply::Result(Ok(found)) => asked(
                        log,
                        at + 1,
                        Request::BoolValue { obj: found },
                    ) && match log[at + 1].reply {
                        Reply::MaybeFlag(Some(value)) => pushes_object(
                            step,
                            rest,
                            log,
                            at + 2,
                            Request::NewBool { value: !value },
                        ),
                        _ => step.outcome == Outcome::Fault(Fault::NotBoolean),
                    },
                    _ => no_container(step, rest, b, log, at + 1),
                },
                _ => pushes_value(
                    step,
                    rest,
                    log,
                    at,
                    Request::CallMethod {
                        obj: a,
                        name: comparison_method(op)->0,
                        args: seq![b],
                    },
                ),
            }
        }),
{
    lemma_parts(frame, 2);
}

/// Whether a `TypeError` says that the type of an object has no membership test.
pub open spec fn no_container(
    step: Step,
    frame: FrameState,
    obj: PyObjectRef,
    log: Seq<Event>,
    at: int,
) -> bool {
    &&& asked(log, at, Request::TypeOf { obj })
    &&& log[at].reply matches Reply::Object(typ)
    &&& asked(log, at + 1, Request::TypeName { typ })
    &&& log[at + 1].reply matches Reply::Text(name)
    &&& raises_new(
        step,
        frame,
        log,
        at + 2,
        ExceptionType::TypeError,
        name + " has no __contains__ method"@,
    )
}

// ---------------------------------------------------------------------------------------------
// Functions, output and scopes.

/// A function is made of the code under its name, in the frame's scope. The defaults lie under the
/// code where there are any, and are `None` where there are none.
pub proof fn law_function_is_made(
    frame: FrameState,
    flags: FunctionOpArg,
    log: Seq<Event>,
    at: int,
)
    requires
        frame.stack.len() >= 3,
    ensures
        ({
            let step = semantics::execute(frame, Instruction::MakeFunction { flags }, log, at);
            let code = frame.stack[frame.stack.len() - 2];
            step.outcome is Stuck || if flags.bits & 1u8 == 1u8 {
                pushes_object(
                    step,
                    without(frame, 3),
                    log,
                    at,
                    Request::NewFunction {
                        code,
                        scope: frame.locals,
                        defaults: frame.stack[frame.stack.len() - 3],
                    },
                )
            } else {
                &&& asked(log, at, Request::NoneObject)
                &&& log[at].reply matches Reply::Object(defaults)
                &&& pushes_object(
                    step,
                    without(frame, 2),
                    log,
                    at + 1,
                    Request::NewFunction { code, scope: frame.locals, defaults },
                )
            }
        }),
{
    lemma_parts(frame, 2);
    lemma_parts(frame, 3);
}

/// Where a function has no defaults, its code and its name are all that lies on the stack for it.
pub proof fn law_function_without_defaults_is_made(
    frame: FrameState,
    flags: FunctionOpArg,
    log: Seq<Event>,
    at: int,
)
    requires
        frame.stack.len() >= 2,
        flags.bits & 1u8 != 1u8,
    ensures
        ({
            let step = semantics::execute(frame, Instruction::MakeFunction { flags }, log, at);
            step.outcome is Stuck || (asked(log, at, Request::NoneObject) && match log[at].reply {
                Reply::Object(defaults) => pushes_object(
                    step,
                    without(frame, 2),
                    log,
                    at + 1,
                    Request::NewFunction {
                        code: frame.stack[frame.stack.len() - 2],
                        scope: frame.locals,
                        defaults,
                    },
                ),
                _ => false,
            })
        }),
{
    lemma_parts(frame, 2);
}

/// A function lies under its arguments, which are given in the order in which they were pushed.
pub proof fn law_function_is_called(
    frame: FrameState,
    count: usize,
    log: Seq<Event>,
    at: int,
)
    requires
        count < frame.stack.len(),
    ensures
        ({
            let step = semantics::execute(frame, Instruction::CallFunction { count }, log, at);
            let first = frame.stack.len() - count;
            step.outcome is Stuck || pushes_value(
                step,
                without(frame, count + 1),
                log,
                at,
                Request::Invoke {
                    func: frame.stack[first - 1],
                    args: frame.stack.subrange(first, frame.stack.len() as int),
                    kwargs: seq![],
                },
            )
        }),
{
    lemma_parts(frame, count as int);
    lemma_parts(frame, count + 1);
}

/// Whether the texts of objects were asked for in order, and all are strings.
pub open spec fn texts_asked(objects: Seq<PyObjectRef>, log: Seq<Event>, at: int) -> bool {
    forall|k: int|
        0 <= k < objects.len() ==> {
            &&& #[trigger] asked(log, at + k, Request::Kind { obj: objects[k] })
            &&& log[at + k].reply matches Reply::Kind(PyObjectKind::String { .. })
        }
}

proof fn lemma_names(objects: Seq<PyObjectRef>, log: Seq<Event>, at: int)
    ensures
        semantics::names(objects, log, at) matches Some((Ok(found), after)) ==> {
            &&& after == at + objects.len()
            &&& found.len() == objects.len()
            &&& texts_asked(objects, log, at)
            &&& forall|k: int|
                0 <= k < objects.len() ==> #[trigger] found[k] == answered_text(log, at + k)
        },
        semantics::names(objects, log, at) matches Some((Err(fault), after)) ==> {
            &&& fault == Fault::NotString
            &&& at < after <= at + objects.len()
            &&& asked(log, after - 1, Request::Kind { obj: objects[after - 1 - at] })
            &&& log[after - 1].reply is Kind
            &&& !(log[after - 1].reply matches Reply::Kind(PyObjectKind::String { .. }))
        },
    decreases objects.len(),
{
    if objects.len() > 0 {
        let rest = objects.drop_last();
        lemma_names(rest, log, at);
        match semantics::names(objects, log, at) {
            Some((Ok(found), after)) => {
                assert forall|k: int| 0 <= k < objects.len() implies {
                    &&& #[trigger] asked(log, at + k, Request::Kind { obj: objects[k] })
                    &&& log[at + k].reply matches Reply::Kind(PyObjectKind::String { .. })
                } by {
                    if k < rest.len() {
                        assert(asked(log, at + k, Request::Kind { obj: rest[k] }));
                    }
                }
                assert forall|k: int| 0 <= k < objects.len() implies #[trigger] found[k]
                    == answered_text(log, at + k) by {
                    if k < rest.len() {
                        assert(found.drop_last()[k] == found[k]);
                    }
                }
            },
            _ => {},
        }
    }
}

/// A call with names: a tuple of the names is on top, the arguments lie under it, and the function
/// under them. The last arguments go by the names, in order, and those before them by their places.
pub proof fn law_function_is_called_with_names(
    frame: FrameState,
    count: usize,
    log: Seq<Event>,
    at: int,
)
    requires
        count + 1 < frame.stack.len(),
    ensures
        ({
            let step = semantics::execute(frame, Instruction::CallFunctionKw { count }, log, at);
            let first = frame.stack.len() - 1 - count;
            step.outcome is Stuck || (asked(
                log,
                at,
                Request::Elements { obj: frame.stack[frame.stack.len() - 1] },
            ) && match log[at].reply {
                Reply::Objects(Some(names)) => {
                    let call = at + 1 + names.len();
                    if step.outcome is Fault {
                        ||| step.outcome == Outcome::Fault(Fault::MissingArguments) && names.len()
                            > count
                        ||| step.outcome == Outcome::Fault(Fault::NotString) && step.at > at + 1
                            && log[step.at - 1].request is Kind && !(
                        log[step.at - 1].reply matches Reply::Kind(PyObjectKind::String { .. }))
                    } else {
                        &&& names.len() <= count
                        &&& texts_asked(names, log, at + 1)
                        &&& 0 <= call < log.len()
                        &&& log[call].request matches Request::Invoke { func, args, kwargs } && {
                            &&& func == frame.stack[first - 1]
                            &&& args == frame.stack.subrange(first, first + count - names.len())
                            &&& kwargs.len() == names.len()
                            &&& forall|k: int|
                                0 <= k < names.len() ==> kwargs[names.len() - 1 - k] == (
                                    #[trigger] answered_text(log, at + 1 + k),
                                    frame.stack[first + count - names.len() + k],
                                )
                            &&& pushes_value(
                                step,
                                without(frame, count + 2),
                                log,
                                call,
                                Request::Invoke { func, args, kwargs },
                            )
                        }
                    }
                },
                _ => step.outcome == Outcome::Fault(Fault::NotSequence),
            })
        }),
{
    lemma_parts(frame, 1);
    lemma_parts(frame, count + 2);
    lemma_parts(frame.drop(1), count as int);
    match log[at].reply {
        Reply::Objects(Some(names)) => {
            lemma_names(names, log, at + 1);
            match semantics::names(names, log, at + 1) {
                Some((Ok(found), after)) => {
                    let values = frame.drop(1).top(count as int);
                    let first = frame.stack.len() - 1 - count;
                    if found.len() <= count {
                        assert(values.take(count - found.len()) =~= frame.stack.subrange(
                            first,
                            first + count - names.len(),
                        ));
                        assert(values.len() == count);
                        assert forall|k: int| 0 <= k < names.len() implies
                            crate::pyobject::keyword_args(values, found)[names.len() - 1 - k] == (
                            #[trigger] answered_text(log, at + 1 + k),
                            frame.stack[first + count - names.len() + k],
                        ) by {
                            assert(found[k] == answered_text(log, at + 1 + k));
                        }
                    }
                },
                _ => {},
            }
        },
        _ => {},
    }
}

/// The topmost value is taken off, and its representation is printed unless it is `None`.
pub proof fn law_value_is_printed(frame: FrameState, log: Seq<Event>, at: int)
    requires
        frame.stack.len() >= 1,
    ensures
        ({
            let step = semantics::execute(frame, Instruction::PrintExpr, log, at);
            let obj = frame.stack[frame.stack.len() - 1];
            let rest = without(frame, 1);
            step.outcome is Stuck || (asked(log, at, Request::Kind { obj }) && match log[at].reply {
                Reply::Kind(PyObjectKind::NoneValue) => goes_on(step, rest, at + 1),
                _ => asked(log, at + 1, Request::ToRepr { obj }) && match log[at + 1].reply {
                    Reply::Result(Ok(shown)) => asked(log, at + 2, Request::Print { obj: shown })
                        && match log[at + 2].reply {
                        Reply::Result(Ok(_)) => goes_on(step, rest, at + 3),
                        Reply::Result(Err(exception)) => step.outcome == Outcome::Fault(
                            Fault::PrintRaised(exception),
                        ),
                        _ => false,
                    },
                    Reply::Result(Err(exception)) => step.outcome == Outcome::Fault(
                        Fault::ReprRaised(exception),
                    ),
                    _ => false,
                },
            })
        }),
{
    lemma_parts(frame, 1);
}

/// The builder of classes is pushed, and the topmost value becomes the variables of the scope.
pub proof fn law_class_builder_and_locals(frame: FrameState, log: Seq<Event>, at: int)
    ensures
        ({
            let builder = semantics::execute(frame, Instruction::LoadBuildClass, log, at);
            builder.outcome is Stuck || pushes_object(
                builder,
                frame,
                log,
                at,
                Request::BuildClassFunction,
            )
        }),
        frame.stack.len() >= 1 ==> ({
            let step = semantics::execute(frame, Instruction::StoreLocals, log, at);
            step.outcome is Stuck || (asked(log, at, Request::Kind { obj: frame.locals })
                && match log[at].reply {
                Reply::Kind(PyObjectKind::Scope { .. }) => asked(
                    log,
                    at + 1,
                    Request::SetScopeLocals {
                        scope: frame.locals,
                        locals: frame.stack[frame.stack.len() - 1],
                    },
                ) && goes_on(step, without(frame, 1), at + 2),
                _ => step.outcome == Outcome::Fault(Fault::NotScope),
            })
        }),
{
    if frame.stack.len() >= 1 {
        lemma_parts(frame, 1);
    }
}

/// The code of an object is the code that the machine says it holds.
pub proof fn law_code_is_what_the_object_holds(log: Seq<Event>, at: int, obj: PyObjectRef)
    ensures
        semantics::copied_code(log, at, obj) matches Some(copied) ==> asked(
            log,
            at,
            Request::Kind { obj },
        ) && match log[at].reply {
            Reply::Kind(PyObjectKind::Code { code }) => copied == Ok::<CodeObject, Fault>(code),
            _ => copied == Err::<CodeObject, Fault>(Fault::NotCode),
        },
{
}

} // verus!
