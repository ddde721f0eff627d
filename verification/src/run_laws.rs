//! How a run moves: jumps, blocks, exceptions and turns, told from the frame and the record alone.
use vstd::prelude::*;

use crate::bytecode::{CodeObject, Instruction, Label, UnaryOperator};
use crate::frame::{Block, ExecutionResult, Fault};
use crate::instruction_laws::{
    asked, goes_on, lands, pushes_value, raises, raises_new, with_stack, without,
};
use crate::pyobject::{
    dict_of, keyword_args, named, texts, ExceptionType, PyObjectKind, PyObjectRef,
};
use crate::semantics;
use crate::semantics::{FrameState, Outcome, Step};
use crate::text::decimal;
use crate::vm::{entries_of, sequence_of, Event, Reply, Request};

verus! {

/// A frame without its innermost block.
pub open spec fn outside(frame: FrameState) -> FrameState {
    FrameState { blocks: frame.blocks.subrange(0, frame.blocks.len() - 1), ..frame }
}

proof fn lemma_outside(frame: FrameState)
    requires
        frame.blocks.len() >= 1,
    ensures
        frame.drop_block() == outside(frame),
        frame.pop_block() == outside(frame),
        frame.blocks.last() == frame.blocks[frame.blocks.len() - 1],
{
    assert(frame.drop_block().blocks =~= outside(frame).blocks);
}

proof fn lemma_top(frame: FrameState)
    requires
        frame.stack.len() >= 1,
    ensures
        frame.drop(1) == without(frame, 1),
        frame.nth(0) == frame.stack[frame.stack.len() - 1],
{
    assert(frame.drop(1).stack =~= without(frame, 1).stack);
}

/// Whether an exit method was told of an exception: of its type, as the machine answered it, of
/// the exception itself, and of no traceback.
pub open spec fn told(
    log: Seq<Event>,
    at: int,
    context_manager: PyObjectRef,
    exception: PyObjectRef,
) -> bool {
    &&& asked(log, at, Request::TypeOf { obj: exception })
    &&& log[at].reply matches Reply::Object(typ)
    &&& asked(log, at + 1, Request::NoneObject)
    &&& log[at + 1].reply matches Reply::Object(traceback)
    &&& asked(
        log,
        at + 2,
        Request::CallMethod {
            obj: context_manager,
            name: "__exit__"@,
            args: seq![typ, exception, traceback],
        },
    )
}

/// Whether an exit method was told that there is no exception.
pub open spec fn dismissed(log: Seq<Event>, at: int, context_manager: PyObjectRef) -> bool {
    &&& asked(log, at, Request::NoneObject)
    &&& log[at].reply matches Reply::Object(typ)
    &&& asked(log, at + 1, Request::NoneObject)
    &&& log[at + 1].reply matches Reply::Object(value)
    &&& asked(log, at + 2, Request::NoneObject)
    &&& log[at + 2].reply matches Reply::Object(traceback)
    &&& asked(
        log,
        at + 3,
        Request::CallMethod {
            obj: context_manager,
            name: "__exit__"@,
            args: seq![typ, value, traceback],
        },
    )
}

// ---------------------------------------------------------------------------------------------
// Jumps and loops.

/// A jump goes to its target. A conditional one does so exactly if the topmost value, which it
/// takes off, counts as true or as false.
pub proof fn law_jumps(frame: FrameState, target: Label, log: Seq<Event>, at: int)
    ensures
        lands(
            semantics::execute(frame, Instruction::Jump { target }, log, at),
            frame,
            target,
            at,
        ),
        frame.stack.len() >= 1 ==> ({
            let obj = frame.stack[frame.stack.len() - 1];
            let rest = without(frame, 1);
            let on_true = semantics::execute(frame, Instruction::JumpIf { target }, log, at);
            let on_false = semantics::execute(frame, Instruction::JumpIfFalse { target }, log, at);
            &&& on_true.outcome is Stuck || (asked(log, at, Request::Truth { obj })
                && match log[at].reply {
                Reply::Truth(Ok(true)) => lands(on_true, rest, target, at + 1),
                Reply::Truth(Ok(false)) => goes_on(on_true, rest, at + 1),
                Reply::Truth(Err(exception)) => raises(on_true, rest, exception, at + 1),
                _ => false,
            })
            &&& on_false.outcome is Stuck || (asked(log, at, Request::Truth { obj })
                && match log[at].reply {
                Reply::Truth(Ok(false)) => lands(on_false, rest, target, at + 1),
                Reply::Truth(Ok(true)) => goes_on(on_false, rest, at + 1),
                Reply::Truth(Err(exception)) => raises(on_false, rest, exception, at + 1),
                _ => false,
            })
        }),
{
    if frame.stack.len() >= 1 {
        lemma_top(frame);
    }
}

/// An iterator takes the place of the value that it iterates over.
pub proof fn law_iterator_takes_the_place(frame: FrameState, log: Seq<Event>, at: int)
    requires
        frame.stack.len() >= 1,
    ensures
        ({
            let step = semantics::execute(frame, Instruction::GetIter, log, at);
            step.outcome is Stuck || pushes_value(
                step,
                without(frame, 1),
                log,
                at,
                Request::GetIter { obj: frame.stack[frame.stack.len() - 1] },
            )
        }),
{
    lemma_top(frame);
}

/// An iterator is asked for its next value, which is pushed above it. If it raises an exception
/// instead, the machine is asked whether that is a `StopIteration`. Only if it is, the iterator is
/// taken off and the loop is left for its end; if it is not, the exception is raised.
pub proof fn law_loop_ends_at_stop_iteration(frame: FrameState, log: Seq<Event>, at: int)
    requires
        frame.stack.len() >= 1,
    ensures
        ({
            let step = semantics::execute(frame, Instruction::ForIter, log, at);
            let iterator = frame.stack[frame.stack.len() - 1];
            step.outcome is Stuck || (asked(
                log,
                at,
                Request::CallMethod { obj: iterator, name: "__next__"@, args: seq![] },
            ) && match log[at].reply {
                Reply::Result(Ok(value)) => goes_on(
                    step,
                    with_stack(frame, frame.stack.push(value)),
                    at + 1,
                ),
                Reply::Result(Err(exception)) => asked(
                    log,
                    at + 1,
                    Request::IsInstance { obj: exception, exc_type: ExceptionType::StopIteration },
                ) && match log[at + 1].reply {
                    Reply::Flag(true) => if frame.blocks.len() == 0 {
                        step.outcome == Outcome::Fault(Fault::NoBlock)
                    } else {
                        match frame.blocks[frame.blocks.len() - 1] {
                            Block::Loop { end, .. } => lands(step, without(frame, 1), end, at + 2),
                            _ => step.outcome == Outcome::Fault(Fault::WrongBlock),
                        }
                    },
                    Reply::Flag(false) => raises(step, frame, exception, at + 2),
                    _ => false,
                },
                _ => false,
            })
        }),
{
    lemma_top(frame);
}

/// A loop that was left at a `ForIter` was left because the machine called the exception a
/// `StopIteration`.
pub proof fn law_loop_is_left_for_stop_iteration_only(frame: FrameState, log: Seq<Event>, at: int)
    requires
        ({
            let step = semantics::execute(frame, Instruction::ForIter, log, at);
            step.outcome == Outcome::Next && step.frame.stack.len() < frame.stack.len()
        }),
    ensures
        log[at].reply matches Reply::Result(Err(exception)) && log[at + 1] == (Event {
            request: Request::IsInstance {
                obj: exception,
                exc_type: ExceptionType::StopIteration,
            },
            reply: Reply::Flag(true),
        }),
{
}

// ---------------------------------------------------------------------------------------------
// Blocks.

/// Blocks are set up innermost. The value of an entered `with` block lies on the stack in place of
/// the context manager, which the block keeps.
pub proof fn law_blocks_are_set_up(
    frame: FrameState,
    start: Label,
    end: Label,
    log: Seq<Event>,
    at: int,
)
    ensures
        goes_on(
            semantics::execute(frame, Instruction::SetupLoop { start, end }, log, at),
            FrameState { blocks: frame.blocks.push(Block::Loop { start, end }), ..frame },
            at,
        ),
        goes_on(
            semantics::execute(frame, Instruction::SetupExcept { handler: end }, log, at),
            FrameState { blocks: frame.blocks.push(Block::TryExcept { handler: end }), ..frame },
            at,
        ),
        frame.stack.len() >= 1 ==> ({
            let step = semantics::execute(frame, Instruction::SetupWith { end }, log, at);
            let context_manager = frame.stack[frame.stack.len() - 1];
            let rest = without(frame, 1);
            step.outcome is Stuck || (asked(
                log,
                at,
                Request::CallMethod { obj: context_manager, name: "__enter__"@, args: seq![] },
            ) && match log[at].reply {
                Reply::Result(Ok(value)) => goes_on(
                    step,
                    FrameState {
                        stack: rest.stack.push(value),
                        blocks: frame.blocks.push(Block::With { end, context_manager }),
                        ..frame
                    },
                    at + 1,
                ),
                Reply::Result(Err(exception)) => raises(step, rest, exception, at + 1),
                _ => false,
            })
        }),
{
    if frame.stack.len() >= 1 {
        lemma_top(frame);
    }
}

/// The innermost block is taken off, if there is one.
pub proof fn law_pop_block_takes_innermost(frame: FrameState, log: Seq<Event>, at: int)
    ensures
        goes_on(
            semantics::execute(frame, Instruction::PopBlock, log, at),
            if frame.blocks.len() == 0 {
                frame
            } else {
                outside(frame)
            },
            at,
        ),
{
    if frame.blocks.len() > 0 {
        lemma_outside(frame);
    }
}

/// At the end of a `with` block its context manager is told that there was no exception.
pub proof fn law_with_block_is_cleaned_up(
    frame: FrameState,
    end: Label,
    log: Seq<Event>,
    at: int,
)
    ensures
        ({
            let step = semantics::execute(frame, Instruction::CleanupWith { end }, log, at);
            step.outcome is Stuck || if frame.blocks.len() == 0 {
                step.outcome == Outcome::Fault(Fault::NoBlock)
            } else {
                match frame.blocks[frame.blocks.len() - 1] {
                    Block::With { end: its_end, context_manager } => if its_end == end {
                        &&& dismissed(log, at, context_manager)
                        &&& match log[at + 3].reply {
                            Reply::Result(Ok(_)) => goes_on(step, outside(frame), at + 4),
                            Reply::Result(Err(exception)) => raises(
                                step,
                                outside(frame),
                                exception,
                                at + 4,
                            ),
                            _ => false,
                        }
                    } else {
                        step.outcome == Outcome::Fault(Fault::WrongBlock)
                    },
                    _ => step.outcome == Outcome::Fault(Fault::WrongBlock),
                }
            }
        }),
{
    if frame.blocks.len() > 0 {
        lemma_outside(frame);
    }
}

/// An exception leaves the innermost block. A loop lets it through. An `except` block takes it:
/// the run goes on at its handler, with the exception on the stack. A `with` block tells its
/// context manager of it: if the answer counts as true, the run goes on at the end of the block,
/// and if it counts as false, the exception goes on to the block around it. What the exit or the
/// truth test raises takes the place of the exception. Without blocks the exception is raised.
pub proof fn law_exception_leaves_blocks(
    frame: FrameState,
    exception: PyObjectRef,
    log: Seq<Event>,
    at: int,
)
    ensures
        ({
            let step = semantics::unwind_exception(frame, exception, log, at);
            if frame.blocks.len() == 0 {
                raises(step, frame, exception, at)
            } else {
                let rest = outside(frame);
                match frame.blocks[frame.blocks.len() - 1] {
                    Block::Loop { .. } => step == semantics::unwind_exception(
                        rest,
                        exception,
                        log,
                        at,
                    ),
                    Block::TryExcept { handler } => lands(
                        step,
                        with_stack(rest, frame.stack.push(exception)),
                        handler,
                        at,
                    ),
                    Block::With { end, context_manager } => step.outcome is Stuck || (told(
                        log,
                        at,
                        context_manager,
                        exception,
                    ) && match log[at + 2].reply {
                        Reply::Result(Ok(answer)) => asked(
                            log,
                            at + 3,
                            Request::Truth { obj: answer },
                        ) && match log[at + 3].reply {
                            Reply::Truth(Ok(true)) => lands(step, rest, end, at + 4),
                            Reply::Truth(Ok(false)) => step == semantics::unwind_exception(
                                rest,
                                exception,
                                log,
                                at + 4,
                            ),
                            Reply::Truth(Err(other)) => raises(step, rest, other, at + 4),
                            _ => false,
                        },
                        Reply::Result(Err(other)) => raises(step, rest, other, at + 3),
                        _ => false,
                    }),
                }
            }
        }),
{
    if frame.blocks.len() > 0 {
        lemma_outside(frame);
    }
}

/// Whether the record holds, at or after a place, a call of the exit of a context manager that
/// told it of an exception.
pub open spec fn was_told(
    log: Seq<Event>,
    at: int,
    context_manager: PyObjectRef,
    exception: PyObjectRef,
) -> bool {
    exists|place: int| at <= place && #[trigger] told(log, place, context_manager, exception)
}

/// Every `with` block that an exception leaves was told of that very exception.
pub proof fn law_left_with_block_was_told(
    frame: FrameState,
    exception: PyObjectRef,
    log: Seq<Event>,
    at: int,
    level: int,
)
    requires
        0 <= level < frame.blocks.len(),
        frame.blocks[level] is With,
        !(semantics::unwind_exception(frame, exception, log, at).outcome is Stuck),
        semantics::unwind_exception(frame, exception, log, at).frame.blocks.len() <= level,
    ensures
        was_told(log, at, frame.blocks[level]->context_manager, exception),
    decreases frame.blocks.len(),
{
    lemma_outside(frame);
    law_exception_leaves_blocks(frame, exception, log, at);
    let rest = outside(frame);
    if level == frame.blocks.len() - 1 {
        assert(told(log, at, frame.blocks[level]->context_manager, exception));
    } else {
        match frame.blocks[frame.blocks.len() - 1] {
            Block::Loop { .. } => {
                law_left_with_block_was_told(rest, exception, log, at, level);
            },
            Block::With { .. } => {
                assert(semantics::unwind_exception(frame, exception, log, at)
                    == semantics::unwind_exception(rest, exception, log, at + 4));
                law_left_with_block_was_told(rest, exception, log, at + 4, level);
                let context_manager = frame.blocks[level]->context_manager;
                let place = choose|place: int|
                    at + 4 <= place && #[trigger] told(log, place, context_manager, exception);
                assert(told(log, place, context_manager, exception));
            },
            Block::TryExcept { .. } => {},
        }
    }
}

/// All blocks are left one after the other, the innermost first, up to one whose exit raises an
/// exception. Only `with` blocks have an exit, which is told that there was no exception.
pub proof fn law_all_blocks_are_left(frame: FrameState, log: Seq<Event>, at: int)
    ensures
        ({
            let step = semantics::unwind_blocks(frame, log, at);
            if frame.blocks.len() == 0 {
                goes_on(step, frame, at)
            } else {
                let rest = outside(frame);
                match frame.blocks[frame.blocks.len() - 1] {
                    Block::With { context_manager, .. } => step.outcome is Stuck || (dismissed(
                        log,
                        at,
                        context_manager,
                    ) && match log[at + 3].reply {
                        Reply::Result(Ok(_)) => step == semantics::unwind_blocks(
                            rest,
                            log,
                            at + 4,
                        ),
                        Reply::Result(Err(exception)) => raises(step, rest, exception, at + 4),
                        _ => false,
                    }),
                    _ => step == semantics::unwind_blocks(rest, log, at),
                }
            }
        }),
{
    if frame.blocks.len() > 0 {
        lemma_outside(frame);
    }
}

/// `break` and `continue` leave the blocks within the innermost loop, whose `with` blocks are told
/// that there was no exception, and the loop itself. Then `break` goes to the end of the loop and
/// `continue` to its start.
pub proof fn law_loop_is_left(frame: FrameState, restart: bool, log: Seq<Event>, at: int)
    ensures
        ({
            let instruction = if restart {
                Instruction::Continue
            } else {
                Instruction::Break
            };
            let step = semantics::execute(frame, instruction, log, at);
            if frame.blocks.len() == 0 {
                step.outcome == Outcome::Fault(Fault::NoLoop) && step.at == at
            } else {
                let rest = outside(frame);
                match frame.blocks[frame.blocks.len() - 1] {
                    Block::Loop { start, end } => lands(
                        step,
                        rest,
                        if restart {
                            start
                        } else {
                            end
                        },
                        at,
                    ),
                    Block::TryExcept { .. } => {
                        let later = semantics::execute(rest, instruction, log, at);
                        ||| step == later
                        ||| step.outcome is Stuck && later.outcome is Stuck
                    },
                    Block::With { context_manager, .. } => step.outcome is Stuck || (dismissed(
                        log,
                        at,
                        context_manager,
                    ) && match log[at + 3].reply {
                        Reply::Result(Ok(_)) => step == semantics::execute(
                            rest,
                            instruction,
                            log,
                            at + 4,
                        ),
                        Reply::Result(Err(exception)) => step.outcome == Outcome::Fault(
                            Fault::ExitRaised(exception),
                        ) && step.at == at + 4,
                        _ => false,
                    }),
                }
            }
        }),
{
    if frame.blocks.len() > 0 {
        lemma_outside(frame);
    }
}

/// `return` takes off the topmost value, leaves all blocks and gives the value back; if an exit
/// raises an exception, that is raised instead. `yield` gives the topmost value back and leaves
/// everything else as it is.
pub proof fn law_value_is_given_back(frame: FrameState, log: Seq<Event>, at: int)
    requires
        frame.stack.len() >= 1,
    ensures
        ({
            let value = frame.stack[frame.stack.len() - 1];
            let rest = without(frame, 1);
            let returned = semantics::execute(frame, Instruction::ReturnValue, log, at);
            let left = semantics::unwind_blocks(rest, log, at);
            let yielded = semantics::execute(frame, Instruction::YieldValue, log, at);
            &&& left.outcome == Outcome::Next ==> returned == (Step {
                frame: left.frame,
                outcome: Outcome::Done(Ok(ExecutionResult::Return(value))),
                at: left.at,
            })
            &&& left.outcome != Outcome::Next ==> returned == left
            &&& yielded == (Step {
                frame: rest,
                outcome: Outcome::Done(Ok(ExecutionResult::Yield(value))),
                at,
            })
        }),
{
    lemma_top(frame);
}

/// Only an exception can be raised; for another value the exception is a `TypeError`.
pub proof fn law_raise_takes_exceptions(frame: FrameState, argc: usize, log: Seq<Event>, at: int)
    requires
        frame.stack.len() >= 1,
    ensures
        ({
            let step = semantics::execute(frame, Instruction::Raise { argc }, log, at);
            let obj = frame.stack[frame.stack.len() - 1];
            let rest = without(frame, 1);
            if argc != 1 {
                step.outcome == Outcome::Fault(Fault::RaiseArity) && step.at == at
            } else {
                step.outcome is Stuck || (asked(
                    log,
                    at,
                    Request::IsInstance { obj, exc_type: ExceptionType::BaseException },
                ) && match log[at].reply {
                    Reply::Flag(true) => raises(step, rest, obj, at + 1),
                    Reply::Flag(false) => asked(log, at + 1, Request::DebugText { obj })
                        && match log[at + 1].reply {
                        Reply::Text(shown) => raises_new(
                            step,
                            rest,
                            log,
                            at + 2,
                            ExceptionType::TypeError,
                            "Can only raise BaseException derived types, not "@ + shown,
                        ),
                        _ => false,
                    },
                    _ => false,
                })
            }
        }),
{
    lemma_top(frame);
}

/// The number of values that an instruction takes from the stack or looks at, for those where it
/// depends on nothing but the instruction.
pub open spec fn needed(instruction: Instruction) -> int {
    match instruction {
        Instruction::StoreName { .. } => 1,
        Instruction::StoreSubscript => 3,
        Instruction::DeleteSubscript => 2,
        Instruction::StoreAttr { .. } => 2,
        Instruction::DeleteAttr { .. } => 1,
        Instruction::UnaryOperation { .. } => 1,
        Instruction::BinaryOperation { .. } => 2,
        Instruction::LoadAttr { .. } => 1,
        Instruction::CompareOperation { .. } => 2,
        Instruction::Pop => 1,
        Instruction::Rotate { amount } => if amount >= 2 {
            amount as int
        } else {
            0
        },
        Instruction::Duplicate => 1,
        Instruction::GetIter => 1,
        Instruction::JumpIf { .. } => 1,
        Instruction::JumpIfFalse { .. } => 1,
        Instruction::MakeFunction { flags } => if flags.bits & 1u8 == 1u8 {
            3
        } else {
            2
        },
        Instruction::CallFunction { count } => count + 1,
        Instruction::CallFunctionKw { count } => count + 2,
        Instruction::ForIter => 1,
        Instruction::ReturnValue => 1,
        Instruction::YieldValue => 1,
        Instruction::SetupWith { .. } => 1,
        Instruction::Raise { argc } => if argc == 1 {
            1
        } else {
            0
        },
        Instruction::BuildTuple { size } => size as int,
        Instruction::BuildList { size } => size as int,
        Instruction::BuildSet { size } => size as int,
        Instruction::BuildSlice { size } => if size == 2 || size == 3 {
            size as int
        } else {
            0
        },
        Instruction::ListAppend { i } => i + 1,
        Instruction::SetAdd { i } => i + 1,
        Instruction::MapAdd { i } => i + 2,
        Instruction::PrintExpr => 1,
        Instruction::StoreLocals => 1,
        Instruction::UnpackSequence { .. } => 1,
        Instruction::UnpackEx { before, after } => if before + after <= usize::MAX {
            1
        } else {
            0
        },
        Instruction::Unpack => 1,
        _ => 0,
    }
}

/// An instruction that finds too few values is at fault at once, with nothing asked.
pub proof fn law_too_few_values(
    frame: FrameState,
    instruction: Instruction,
    log: Seq<Event>,
    at: int,
)
    requires
        frame.stack.len() < needed(instruction),
    ensures
        semantics::execute(frame, instruction, log, at).outcome == Outcome::Fault(
            Fault::StackUnderflow,
        ),
        semantics::execute(frame, instruction, log, at).at == at,
{
}

/// What an instruction cannot do with its own arguments is a fault.
pub proof fn law_bad_arguments(frame: FrameState, size: usize, log: Seq<Event>, at: int)
    ensures
        size < 2 ==> semantics::execute(
            frame,
            Instruction::Rotate { amount: size },
            log,
            at,
        ).outcome == Outcome::Fault(Fault::BadRotate),
        size != 2 && size != 3 ==> semantics::execute(
            frame,
            Instruction::BuildSlice { size },
            log,
            at,
        ).outcome == Outcome::Fault(Fault::BadSliceSize),
        frame.stack.len() >= 1 ==> semantics::execute(
            frame,
            Instruction::UnaryOperation { op: UnaryOperator::Plus },
            log,
            at,
        ).outcome == Outcome::Fault(Fault::UnsupportedOperator),
        frame.stack.len() >= 1 ==> semantics::execute(
            frame,
            Instruction::UnaryOperation { op: UnaryOperator::Invert },
            log,
            at,
        ).outcome == Outcome::Fault(Fault::UnsupportedOperator),
{
}

// ---------------------------------------------------------------------------------------------
// Turns and runs.

/// Whether the traceback of an exception was read and a line was added to it that gives the file,
/// the row and the name of the code. What could not be done is the fault.
pub open spec fn traced(
    code: CodeObject,
    row: usize,
    exception: PyObjectRef,
    log: Seq<Event>,
    at: int,
) -> bool {
    &&& asked(
        log,
        at,
        Request::IsInstance { obj: exception, exc_type: ExceptionType::BaseException },
    )
    &&& log[at].reply == Reply::Flag(true)
    &&& asked(log, at + 1, Request::GetAttribute { obj: exception, name: "__traceback__"@ })
    &&& log[at + 1].reply matches Reply::Result(Ok(traceback))
    &&& asked(
        log,
        at + 2,
        Request::NewStr {
            value: match code.source_path {
                Some(path) => path@,
                None => "<unknown>"@,
            },
        },
    )
    &&& log[at + 2].reply matches Reply::Object(file)
    &&& asked(log, at + 3, Request::NewInt { value: row as i32 })
    &&& log[at + 3].reply matches Reply::Object(line)
    &&& asked(log, at + 4, Request::NewStr { value: code.obj_name@ })
    &&& log[at + 4].reply matches Reply::Object(name)
    &&& asked(log, at + 5, Request::NewTuple { elements: seq![file, line, name] })
    &&& log[at + 5].reply matches Reply::Object(item)
    &&& asked(log, at + 6, Request::ListAppend { list: traceback, item })
    &&& log[at + 6].reply is Result
}

/// A turn executes the instruction at the frame's place. An exception that it raises gets a line
/// in its traceback, for the place of that instruction, and then leaves the blocks. What ends the
/// instruction otherwise ends the turn.
pub proof fn law_turn_traces_and_unwinds(frame: FrameState, log: Seq<Event>, at: int)
    requires
        0 <= frame.lasti < frame.code.locations@.len(),
        frame.lasti < frame.code.instructions@.len(),
    ensures
        ({
            let step = semantics::turn(frame, log, at);
            let executed = semantics::execute(
                FrameState { lasti: frame.lasti + 1, ..frame },
                frame.code.instructions@[frame.lasti],
                log,
                at,
            );
            let code = frame.code;
            let row = frame.code.locations@[frame.lasti].row;
            let place = executed.at;
            match executed.outcome {
                Outcome::Done(Err(exception)) => step.outcome is Stuck || if traced(
                    code,
                    row,
                    exception,
                    log,
                    place,
                ) {
                    match log[place + 6].reply {
                        Reply::Result(Err(other)) => step.outcome == Outcome::Fault(
                            Fault::TracebackRaised(other),
                        ),
                        _ => step == semantics::unwind_exception(
                            executed.frame,
                            exception,
                            log,
                            place + 7,
                        ),
                    }
                } else {
                    &&& asked(
                        log,
                        place,
                        Request::IsInstance {
                            obj: exception,
                            exc_type: ExceptionType::BaseException,
                        },
                    )
                    &&& match log[place].reply {
                        Reply::Flag(false) => step.outcome == Outcome::Fault(Fault::NotException),
                        _ => asked(
                            log,
                            place + 1,
                            Request::GetAttribute { obj: exception, name: "__traceback__"@ },
                        ) && match log[place + 1].reply {
                            Reply::Result(Err(other)) => step.outcome == Outcome::Fault(
                                Fault::TracebackRaised(other),
                            ),
                            _ => false,
                        },
                    }
                },
                _ => step == executed,
            }
        }),
{
}

/// A turn without an instruction, or without a place in the source for it, is a fault.
pub proof fn law_turn_needs_instruction(frame: FrameState, log: Seq<Event>, at: int)
    ensures
        !(0 <= frame.lasti < frame.code.locations@.len()) ==> semantics::turn(
            frame,
            log,
            at,
        ).outcome == Outcome::Fault(Fault::NoLocation),
        0 <= frame.lasti < frame.code.locations@.len() && frame.lasti
            >= frame.code.instructions@.len() ==> semantics::turn(frame, log, at).outcome
            == Outcome::Fault(Fault::NoInstruction),
{
}

/// A run takes turns up to one that ends it; without turns nothing happens. A complete run is one
/// of as many turns as can be counted.
pub proof fn law_run_takes_turns(frame: FrameState, turns: nat, log: Seq<Event>, at: int)
    ensures
        ({
            let first = semantics::turn(frame, log, at);
            let all = semantics::run(frame, turns, log, at);
            let complete = semantics::complete_run(frame, log, at);
            let counted = semantics::run(frame, u64::MAX as nat, log, at);
            &&& turns == 0 ==> goes_on(all, frame, at)
            &&& turns > 0 ==> all == if first.outcome == Outcome::Next {
                semantics::run(first.frame, (turns - 1) as nat, log, first.at)
            } else {
                first
            }
            &&& counted.outcome == Outcome::Next ==> complete.outcome == Outcome::Fault(
                Fault::TooManyTurns,
            )
            &&& counted.outcome != Outcome::Next ==> complete == counted
        }),
{
}

// ---------------------------------------------------------------------------------------------
// Arguments and entries.

/// Names go with the last values, the last name with the last value, and come in reverse.
pub proof fn law_names_go_with_last_values(
    values: Seq<PyObjectRef>,
    names: Seq<String>,
    entries: Seq<(String, PyObjectRef)>,
)
    requires
        names.len() <= values.len(),
    ensures
        keyword_args(values, texts(names)).len() == names.len(),
        forall|k: int|
            0 <= k < names.len() ==> keyword_args(values, texts(names))[names.len() - 1 - k] == (
                (#[trigger] names[k])@,
                values[values.len() - names.len() + k],
            ),
        named(entries).len() == entries.len(),
        forall|k: int|
            0 <= k < entries.len() ==> named(entries)[k] == ((#[trigger] entries[k]).0@, entries[k].1),
{
}

/// A key has the value of the last entry with it, and only keys of entries are there.
pub proof fn law_last_entry_counts(entries: Seq<(String, PyObjectRef)>)
    ensures
        forall|k: int|
            0 <= k < entries.len() && (forall|later: int|
                k < later < entries.len() ==> (#[trigger] entries[later]).0@ != entries[k].0@)
                ==> dict_of(entries).contains_pair((#[trigger] entries[k]).0@, entries[k].1),
        forall|key: Seq<char>| #[trigger]
            dict_of(entries).contains_key(key) ==> exists|k: int|
                0 <= k < entries.len() && (#[trigger] entries[k]).0@ == key,
    decreases entries.len(),
{
    if entries.len() > 0 {
        let rest = entries.drop_last();
        law_last_entry_counts(rest);
        assert forall|k: int|
            0 <= k < entries.len() && (forall|later: int|
                k < later < entries.len() ==> (#[trigger] entries[later]).0@
                    != entries[k].0@) implies dict_of(entries).contains_pair(
            (#[trigger] entries[k]).0@,
            entries[k].1,
        ) by {
            if k < rest.len() {
                assert(rest[k] == entries[k]);
                assert forall|later: int| k < later < rest.len() implies (
                #[trigger] rest[later]).0@ != rest[k].0@ by {
                    assert(rest[later] == entries[later]);
                }
                assert(dict_of(rest).contains_pair(rest[k].0@, rest[k].1));
                assert(entries[entries.len() - 1].0@ != entries[k].0@);
            }
        }
        assert forall|key: Seq<char>| #[trigger] dict_of(entries).contains_key(key) implies exists|
            k: int,
        | 0 <= k < entries.len() && (#[trigger] entries[k]).0@ == key by {
            if key == entries.last().0@ {
                assert(entries[entries.len() - 1].0@ == key);
            } else {
                assert(dict_of(rest).contains_key(key));
                let k = choose|k: int| 0 <= k < rest.len() && (#[trigger] rest[k]).0@ == key;
                assert(entries[k] == rest[k]);
            }
        }
    }
}

/// The record holds the elements and the entries of an answer as they are, in order.
pub proof fn law_answers_are_recorded_in_order(
    elements: Vec<PyObjectRef>,
    entries: Vec<(String, PyObjectRef)>,
)
    ensures
        sequence_of(Some(elements)) == Some(elements@),
        sequence_of(None) is None,
        entries_of(None) is None,
        entries_of(Some(entries)) matches Some(recorded) && recorded.len() == entries@.len() && (
        forall|k: int|
            0 <= k < entries@.len() ==> #[trigger] recorded[k] == (entries@[k].0@, entries@[k].1)),
{
}

// ---------------------------------------------------------------------------------------------
// A frame as text.

/// The text of a stack has a line for each value, the deepest first, with the text of the value.
pub proof fn law_stack_text_has_a_line_for_each(
    stack: Seq<PyObjectRef>,
    value: PyObjectRef,
    log: Seq<Event>,
    at: int,
)
    ensures
        semantics::stack_text(Seq::empty(), log, at) == Some((Seq::<char>::empty(), at)),
        semantics::stack_text(stack.push(value), log, at) matches Some((all, end)) ==> {
            &&& semantics::stack_text(stack, log, at) matches Some((before, place))
            &&& asked(log, place, Request::StrText { obj: value })
            &&& log[place].reply matches Reply::Text(shown)
            &&& all == before + "\n  > "@ + shown
            &&& end == place + 1
        },
{
    assert(stack.push(value).drop_last() =~= stack);
}

/// The text of the blocks has a line for each block, the outermost first.
pub proof fn law_blocks_text_has_a_line_for_each(
    blocks: Seq<Block>,
    block: Block,
    log: Seq<Event>,
    at: int,
)
    ensures
        semantics::blocks_text(Seq::empty(), log, at) == Some((Seq::<char>::empty(), at)),
        semantics::blocks_text(blocks.push(block), log, at) matches Some((all, end)) ==> {
            &&& semantics::blocks_text(blocks, log, at) matches Some((before, place))
            &&& match block {
                Block::Loop { start, end: its_end } => {
                    &&& all == before + "\n  > "@ + ("Loop { start: "@ + decimal(start as nat)
                        + ", end: "@ + decimal(its_end as nat) + " }"@)
                    &&& end == place
                },
                Block::TryExcept { handler } => {
                    &&& all == before + "\n  > "@ + ("TryExcept { handler: "@ + decimal(
                        handler as nat,
                    ) + " }"@)
                    &&& end == place
                },
                Block::With { end: its_end, context_manager } => {
                    &&& asked(log, place, Request::DebugText { obj: context_manager })
                    &&& log[place].reply matches Reply::Text(shown)
                    &&& all == before + "\n  > "@ + ("With { end: "@ + decimal(its_end as nat)
                        + ", context_manager: "@ + shown + " }"@)
                    &&& end == place + 1
                },
            }
        },
{
    assert(blocks.push(block).drop_last() =~= blocks);
}

/// The text of the variables has a line for each, with its name and its value.
pub proof fn law_items_text_has_a_line_for_each(
    items: Seq<(Seq<char>, PyObjectRef)>,
    name: Seq<char>,
    value: PyObjectRef,
    log: Seq<Event>,
    at: int,
)
    ensures
        semantics::items_text(Seq::empty(), log, at) == Some((Seq::<char>::empty(), at)),
        semantics::items_text(items.push((name, value)), log, at) matches Some((all, end)) ==> {
            &&& semantics::items_text(items, log, at) matches Some((before, place))
            &&& asked(log, place, Request::StrText { obj: value })
            &&& log[place].reply matches Reply::Text(shown)
            &&& all == before + "\n  "@ + name + " = "@ + shown
            &&& end == place + 1
        },
{
    assert(items.push((name, value)).drop_last() =~= items);
}

/// The text of a frame shows its stack, its blocks and the variables of its scope, which come
/// from the object that holds them.
pub proof fn law_frame_text_shows_all(frame: FrameState, log: Seq<Event>, at: int)
    ensures
        semantics::frame_text(frame, log, at) matches Some((result, end)) ==> {
            &&& semantics::stack_text(frame.stack, log, at) matches Some((stack, after_stack))
            &&& semantics::blocks_text(frame.blocks, log, after_stack) matches Some((blocks, place))
            &&& asked(log, place, Request::Kind { obj: frame.locals })
            &&& match log[place].reply {
                Reply::Kind(PyObjectKind::Scope { locals }) => {
                    &&& asked(log, place + 1, Request::DictItems { obj: locals })
                    &&& match log[place + 1].reply {
                        Reply::Items(Some(items)) => {
                            &&& semantics::items_text(items, log, place + 2) matches Some(
                                (variables, last),
                            )
                            &&& result matches Ok(shown) && shown
                                == "Frame Object { \n Stack:"@ + stack + "\n Blocks:"@ + blocks
                                + "\n Locals:"@ + variables + "\n}"@
                            &&& end == last
                        },
                        _ => {
                            &&& result matches Err(fault) && fault == Fault::NotDict
                            &&& end == place + 2
                        },
                    }
                },
                _ => {
                    &&& result matches Err(fault) && fault == Fault::NotScope
                    &&& end == place + 1
                },
            }
        },
{
}

} // verus!
