//! What running a frame means.
//!
//! Each function here says what a piece of a run does, given the record of the exchanges with
//! the machine: from a frame, and the place in the record where the piece begins, to the frame
//! after it, the outcome, and the place where the piece ends. A piece is `Stuck` where the record
//! does not hold the request that the piece makes there.
use vstd::prelude::*;

use crate::bytecode::{
    BinaryOperator, CodeObject, ComparisonOperator, Constant, FunctionOpArg, Instruction, Label,
    UnaryOperator,
};
use crate::frame::{Block, ExecutionResult, Fault, FrameResult, StepResult};
use crate::pyobject::{keyword_args, ExceptionType, PyObjectKind, PyObjectRef, PyResult};
use crate::text::decimal;
use crate::vm::{Event, ImportDirectory, Reply, Request};

verus! {

/// The state of a frame.
#[verifier::ext_equal]
pub struct FrameState {
    pub code: CodeObject,
    pub stack: Seq<PyObjectRef>,
    pub blocks: Seq<Block>,
    pub locals: PyObjectRef,
    pub lasti: int,
}

/// How a piece of a run ends.
pub enum Outcome {
    /// The run goes on.
    Next,
    /// The run ends.
    Done(FrameResult),
    /// The code or an object is not as it has to be.
    Fault(Fault),
    /// The record does not fit.
    Stuck,
}

/// The effect of a piece of a run.
#[verifier::ext_equal]
pub struct Step {
    pub frame: FrameState,
    pub outcome: Outcome,
    pub at: int,
}

impl FrameState {
    pub open spec fn push(self, value: PyObjectRef) -> FrameState {
        FrameState { stack: self.stack.push(value), ..self }
    }

    pub open spec fn extend(self, values: Seq<PyObjectRef>) -> FrameState {
        FrameState { stack: self.stack + values, ..self }
    }

    /// The frame without its topmost values.
    pub open spec fn drop(self, count: int) -> FrameState {
        FrameState { stack: self.stack.take(self.stack.len() - count), ..self }
    }

    /// The value under `depth` other ones.
    pub open spec fn nth(self, depth: int) -> PyObjectRef {
        self.stack[self.stack.len() - 1 - depth]
    }

    /// The topmost values, the deepest first.
    pub open spec fn top(self, count: int) -> Seq<PyObjectRef> {
        self.stack.skip(self.stack.len() - count)
    }

    pub open spec fn push_block(self, block: Block) -> FrameState {
        FrameState { blocks: self.blocks.push(block), ..self }
    }

    pub open spec fn drop_block(self) -> FrameState {
        FrameState { blocks: self.blocks.drop_last(), ..self }
    }

    /// The frame without its innermost block, if it has one.
    pub open spec fn pop_block(self) -> FrameState {
        if self.blocks.len() == 0 {
            self
        } else {
            self.drop_block()
        }
    }

    pub open spec fn goto(self, target: int) -> FrameState {
        FrameState { lasti: target, ..self }
    }
}

pub open spec fn next(frame: FrameState, at: int) -> Step {
    Step { frame, outcome: Outcome::Next, at }
}

pub open spec fn done(frame: FrameState, result: ExecutionResult, at: int) -> Step {
    Step { frame, outcome: Outcome::Done(Ok(result)), at }
}

pub open spec fn raise(frame: FrameState, exception: PyObjectRef, at: int) -> Step {
    Step { frame, outcome: Outcome::Done(Err(exception)), at }
}

pub open spec fn fault(frame: FrameState, fault: Fault, at: int) -> Step {
    Step { frame, outcome: Outcome::Fault(fault), at }
}

pub open spec fn stuck(frame: FrameState, at: int) -> Step {
    Step { frame, outcome: Outcome::Stuck, at }
}

/// Whether what a function left behind and returned is the effect. Where the run cannot go on,
/// only the fault and the requests before it count.
pub open spec fn agrees(step: Step, frame: FrameState, result: StepResult, at: int) -> bool {
    &&& step.at == at
    &&& match result {
        Ok(None) => step.outcome == Outcome::Next && step.frame == frame,
        Ok(Some(result)) => step.outcome == Outcome::Done(result) && step.frame == frame,
        Err(fault) => step.outcome == Outcome::Fault(fault),
    }
}

/// The answer in the record to a request that is made at a place.
pub open spec fn reply(log: Seq<Event>, at: int, request: Request) -> Option<Reply> {
    if 0 <= at < log.len() && log[at].request == request {
        Some(log[at].reply)
    } else {
        None
    }
}

pub open spec fn object_reply(log: Seq<Event>, at: int, request: Request) -> Option<PyObjectRef> {
    match reply(log, at, request) {
        Some(Reply::Object(object)) => Some(object),
        _ => None,
    }
}

pub open spec fn result_reply(log: Seq<Event>, at: int, request: Request) -> Option<PyResult> {
    match reply(log, at, request) {
        Some(Reply::Result(result)) => Some(result),
        _ => None,
    }
}

pub open spec fn flag_reply(log: Seq<Event>, at: int, request: Request) -> Option<bool> {
    match reply(log, at, request) {
        Some(Reply::Flag(flag)) => Some(flag),
        _ => None,
    }
}

pub open spec fn text_reply(log: Seq<Event>, at: int, request: Request) -> Option<Seq<char>> {
    match reply(log, at, request) {
        Some(Reply::Text(text)) => Some(text),
        _ => None,
    }
}

pub open spec fn kind_reply(log: Seq<Event>, at: int, obj: PyObjectRef) -> Option<PyObjectKind> {
    match reply(log, at, Request::Kind { obj }) {
        Some(Reply::Kind(kind)) => Some(kind),
        _ => None,
    }
}

pub open spec fn truth_reply(log: Seq<Event>, at: int, obj: PyObjectRef) -> Option<
    Result<bool, PyObjectRef>,
> {
    match reply(log, at, Request::Truth { obj }) {
        Some(Reply::Truth(truth)) => Some(truth),
        _ => None,
    }
}

pub open spec fn elements_reply(log: Seq<Event>, at: int, obj: PyObjectRef) -> Option<
    Option<Seq<PyObjectRef>>,
> {
    match reply(log, at, Request::Elements { obj }) {
        Some(Reply::Objects(elements)) => Some(elements),
        _ => None,
    }
}

/// One request after which a new object lies on the stack.
pub open spec fn push_new(frame: FrameState, log: Seq<Event>, at: int, request: Request) -> Step {
    match object_reply(log, at, request) {
        Some(object) => next(frame.push(object), at + 1),
        None => stuck(frame, at),
    }
}

/// One request whose value goes onto the stack and whose exception is raised.
pub open spec fn push_result(
    frame: FrameState,
    log: Seq<Event>,
    at: int,
    request: Request,
) -> Step {
    match result_reply(log, at, request) {
        Some(Ok(value)) => next(frame.push(value), at + 1),
        Some(Err(exception)) => raise(frame, exception, at + 1),
        None => stuck(frame, at),
    }
}

/// One request whose value is ignored and whose exception is raised.
pub open spec fn ignore_result(
    frame: FrameState,
    log: Seq<Event>,
    at: int,
    request: Request,
) -> Step {
    match result_reply(log, at, request) {
        Some(Ok(_)) => next(frame, at + 1),
        Some(Err(exception)) => raise(frame, exception, at + 1),
        None => stuck(frame, at),
    }
}

/// One request that only acts.
pub open spec fn act(frame: FrameState, log: Seq<Event>, at: int, request: Request) -> Step {
    match reply(log, at, request) {
        Some(Reply::Done) => next(frame, at + 1),
        _ => stuck(frame, at),
    }
}

/// Raises a new exception.
pub open spec fn raise_new(
    frame: FrameState,
    log: Seq<Event>,
    at: int,
    exc_type: ExceptionType,
    message: Seq<char>,
) -> Step {
    match object_reply(log, at, Request::NewException { exc_type, message }) {
        Some(exception) => raise(frame, exception, at + 1),
        None => stuck(frame, at),
    }
}

pub open spec fn method(obj: PyObjectRef, name: Seq<char>, args: Seq<PyObjectRef>) -> Request {
    Request::CallMethod { obj, name, args }
}

/// Goes to the instruction that a label stands for.
pub open spec fn jump(frame: FrameState, label: Label, at: int) -> Step {
    if frame.code.label_map@.contains_key(label) {
        next(frame.goto(frame.code.label_map@[label] as int), at)
    } else {
        fault(frame, Fault::UnknownLabel, at)
    }
}

// ---------------------------------------------------------------------------------------------
// Constants.

/// The object that a constant becomes, and the place after the requests that make it.
pub open spec fn constant(value: Constant, log: Seq<Event>, at: int) -> Option<(PyObjectRef, int)>
    decreases value, 0nat,
{
    let request = match value {
        Constant::Integer { value } => Some((Request::NewInt { value }, at)),
        Constant::Float { bits } => Some((Request::NewFloat { bits }, at)),
        Constant::String { value } => Some((Request::NewStr { value: value@ }, at)),
        Constant::Boolean { value } => Some((Request::NewBool { value }, at)),
        Constant::Code { code } => Some((Request::NewCode { code: *code }, at)),
        Constant::Tuple { elements } => match constants(elements@, elements@.len(), log, at) {
            Some((elements, at)) => Some((Request::NewTuple { elements }, at)),
            None => None,
        },
        Constant::NoneValue => Some((Request::NoneObject, at)),
    };
    match request {
        Some((request, at)) => match object_reply(log, at, request) {
            Some(object) => Some((object, at + 1)),
            None => None,
        },
        None => None,
    }
}

/// The code that an object holds, or the fault where it holds none.
pub open spec fn copied_code(log: Seq<Event>, at: int, obj: PyObjectRef) -> Option<
    Result<CodeObject, Fault>,
> {
    match kind_reply(log, at, obj) {
        Some(PyObjectKind::Code { code }) => Some(Ok(code)),
        Some(_) => Some(Err(Fault::NotCode)),
        None => None,
    }
}

/// The objects that the first constants become.
pub open spec fn constants(
    values: Seq<Constant>,
    count: nat,
    log: Seq<Event>,
    at: int,
) -> Option<(Seq<PyObjectRef>, int)>
    decreases values, count,
{
    if count == 0 || count > values.len() {
        Some((Seq::empty(), at))
    } else {
        match constants(values, (count - 1) as nat, log, at) {
            Some((objects, at)) => match constant(values[count - 1], log, at) {
                Some((object, at)) => Some((objects.push(object), at)),
                None => None,
            },
            None => None,
        }
    }
}

// ---------------------------------------------------------------------------------------------
// Names and attributes.

/// Looks a name up in a scope, then in the ones around it, at most `depth` of them.
pub open spec fn lookup(
    frame: FrameState,
    name: Seq<char>,
    scope: PyObjectRef,
    depth: nat,
    log: Seq<Event>,
    at: int,
) -> Step
    decreases depth,
{
    if depth == 0 {
        fault(frame, Fault::ScopesTooDeep, at)
    } else {
        match flag_reply(log, at, Request::ContainsKey { scope, name }) {
            Some(true) => match reply(log, at + 1, Request::GetItem { scope, name }) {
                Some(Reply::MaybeObject(Some(object))) => next(frame.push(object), at + 2),
                Some(Reply::MaybeObject(None)) => fault(frame, Fault::NameVanished, at + 2),
                _ => stuck(frame, at),
            },
            Some(false) => match flag_reply(log, at + 1, Request::HasParent { scope }) {
                Some(true) => match object_reply(log, at + 2, Request::GetParent { scope }) {
                    Some(parent) => lookup(frame, name, parent, (depth - 1) as nat, log, at + 3),
                    None => stuck(frame, at),
                },
                Some(false) => raise_new(
                    frame,
                    log,
                    at + 2,
                    ExceptionType::NameError,
                    "Has not attribute '"@ + name + "'"@,
                ),
                None => stuck(frame, at),
            },
            None => stuck(frame, at),
        }
    }
}

pub open spec fn load_name(frame: FrameState, name: Seq<char>, log: Seq<Event>, at: int) -> Step {
    lookup(frame, name, frame.locals, usize::MAX as nat, log, at)
}

pub open spec fn store_name(frame: FrameState, name: Seq<char>, log: Seq<Event>, at: int) -> Step {
    if frame.stack.len() < 1 {
        fault(frame, Fault::StackUnderflow, at)
    } else {
        act(
            frame.drop(1),
            log,
            at,
            Request::SetItem { scope: frame.locals, name, value: frame.nth(0) },
        )
    }
}

pub open spec fn delete_name(frame: FrameState, name: Seq<char>, log: Seq<Event>, at: int) -> Step {
    match kind_reply(log, at, frame.locals) {
        Some(PyObjectKind::Scope { locals }) => match object_reply(
            log,
            at + 1,
            Request::NewStr { value: name },
        ) {
            Some(name) => ignore_result(
                frame,
                log,
                at + 2,
                method(locals, "__delitem__"@, seq![name]),
            ),
            None => stuck(frame, at),
        },
        Some(_) => fault(frame, Fault::NotScope, at + 1),
        None => stuck(frame, at),
    }
}

pub open spec fn load_attr(frame: FrameState, name: Seq<char>, log: Seq<Event>, at: int) -> Step {
    if frame.stack.len() < 1 {
        fault(frame, Fault::StackUnderflow, at)
    } else {
        push_result(
            frame.drop(1),
            log,
            at,
            Request::GetAttribute { obj: frame.nth(0), name },
        )
    }
}

pub open spec fn store_attr(frame: FrameState, name: Seq<char>, log: Seq<Event>, at: int) -> Step {
    if frame.stack.len() < 2 {
        fault(frame, Fault::StackUnderflow, at)
    } else {
        act(
            frame.drop(2),
            log,
            at,
            Request::SetAttr { obj: frame.nth(0), name, value: frame.nth(1) },
        )
    }
}

pub open spec fn delete_attr(frame: FrameState, name: Seq<char>, log: Seq<Event>, at: int) -> Step {
    if frame.stack.len() < 1 {
        fault(frame, Fault::StackUnderflow, at)
    } else {
        match object_reply(log, at, Request::NewStr { value: name }) {
            Some(name) => ignore_result(
                frame.drop(1),
                log,
                at + 1,
                method(frame.nth(0), "__delattr__"@, seq![name]),
            ),
            None => stuck(frame, at),
        }
    }
}

/// Where a file's imports start to look.
pub open spec fn import_directory(code: CodeObject) -> ImportDirectory {
    match code.source_path {
        Some(path) => ImportDirectory::ContainingFile { path },
        None => ImportDirectory::Current,
    }
}

pub open spec fn import(
    frame: FrameState,
    module: Seq<char>,
    symbol: Option<String>,
    log: Seq<Event>,
    at: int,
) -> Step {
    push_result(
        frame,
        log,
        at,
        Request::Import { directory: import_directory(frame.code), module, symbol },
    )
}

// ---------------------------------------------------------------------------------------------
// Subscripts.

pub open spec fn subscript_message(obj: Seq<char>, idx: Seq<char>) -> Seq<char> {
    "TypeError: __setitem__ assign type "@ + obj + " with index "@ + idx
        + " is not supported (yet?)"@
}

pub open spec fn store_subscript(frame: FrameState, log: Seq<Event>, at: int) -> Step {
    if frame.stack.len() < 3 {
        fault(frame, Fault::StackUnderflow, at)
    } else {
        let idx = frame.nth(0);
        let obj = frame.nth(1);
        let value = frame.nth(2);
        let rest = frame.drop(3);
        match kind_reply(log, at, obj) {
            Some(PyObjectKind::List) => ignore_result(
                rest,
                log,
                at + 1,
                Request::ListSetItem { list: obj, index: idx, value },
            ),
            Some(_) => match (
                text_reply(log, at + 1, Request::DebugText { obj }),
                text_reply(log, at + 2, Request::DebugText { obj: idx }),
            ) {
                (Some(obj_text), Some(idx_text)) => raise_new(
                    rest,
                    log,
                    at + 3,
                    ExceptionType::TypeError,
                    subscript_message(obj_text, idx_text),
                ),
                _ => stuck(frame, at),
            },
            None => stuck(frame, at),
        }
    }
}

pub open spec fn delete_subscript(frame: FrameState, log: Seq<Event>, at: int) -> Step {
    if frame.stack.len() < 2 {
        fault(frame, Fault::StackUnderflow, at)
    } else {
        ignore_result(
            frame.drop(2),
            log,
            at,
            method(frame.nth(1), "__delitem__"@, seq![frame.nth(0)]),
        )
    }
}

// ---------------------------------------------------------------------------------------------
// Operators.

/// What is asked of the machine to apply an operator.
pub open spec fn binary_request(op: BinaryOperator, a: PyObjectRef, b: PyObjectRef) -> Request {
    match op {
        BinaryOperator::MatrixMultiply => method(a, "__matmul__"@, seq![b]),
        BinaryOperator::FloorDivide => method(a, "__floordiv__"@, seq![b]),
        BinaryOperator::Subscript => method(a, "__getitem__"@, seq![b]),
        BinaryOperator::Lshift => method(a, "__lshift__"@, seq![b]),
        BinaryOperator::Rshift => method(a, "__rshift__"@, seq![b]),
        _ => Request::Arithmetic { op, a, b },
    }
}

pub open spec fn binop(frame: FrameState, op: BinaryOperator, log: Seq<Event>, at: int) -> Step {
    if frame.stack.len() < 2 {
        fault(frame, Fault::StackUnderflow, at)
    } else {
        push_result(frame.drop(2), log, at, binary_request(op, frame.nth(1), frame.nth(0)))
    }
}

/// Negating an IEEE 754 double flips its sign bit.
pub open spec fn negated(bits: u64) -> u64 {
    bits ^ 0x8000_0000_0000_0000
}

pub open spec fn unop(frame: FrameState, op: UnaryOperator, log: Seq<Event>, at: int) -> Step {
    if frame.stack.len() < 1 {
        fault(frame, Fault::StackUnderflow, at)
    } else {
        let a = frame.nth(0);
        let rest = frame.drop(1);
        match op {
            UnaryOperator::Minus => match kind_reply(log, at, a) {
                Some(PyObjectKind::Integer { value }) => if value == i32::MIN {
                    fault(rest, Fault::IntegerOverflow, at + 1)
                } else {
                    push_new(rest, log, at + 1, Request::NewInt { value: (-value) as i32 })
                },
                Some(PyObjectKind::Float { bits }) => push_new(
                    rest,
                    log,
                    at + 1,
                    Request::NewFloat { bits: negated(bits) },
                ),
                Some(_) => fault(rest, Fault::NotNumeric, at + 1),
                None => stuck(frame, at),
            },
            UnaryOperator::Not => match truth_reply(log, at, a) {
                Some(Ok(value)) => push_new(rest, log, at + 1, Request::NewBool { value: !value }),
                Some(Err(exception)) => raise(rest, exception, at + 1),
                None => stuck(frame, at),
            },
            _ => fault(rest, Fault::UnsupportedOperator, at),
        }
    }
}

/// Asks a container whether it holds a value.
pub open spec fn membership(needle: PyObjectRef, haystack: PyObjectRef) -> Request {
    method(haystack, "__contains__"@, seq![needle])
}

/// Says that an object is no container.
pub open spec fn not_a_container(
    frame: FrameState,
    haystack: PyObjectRef,
    log: Seq<Event>,
    at: int,
) -> Step {
    match object_reply(log, at, Request::TypeOf { obj: haystack }) {
        Some(typ) => match text_reply(log, at + 1, Request::TypeName { typ }) {
            Some(name) => raise_new(
                frame,
                log,
                at + 2,
                ExceptionType::TypeError,
                name + " has no __contains__ method"@,
            ),
            None => stuck(frame, at),
        },
        None => stuck(frame, at),
    }
}

pub open spec fn contains(
    frame: FrameState,
    needle: PyObjectRef,
    haystack: PyObjectRef,
    log: Seq<Event>,
    at: int,
) -> Step {
    match result_reply(log, at, membership(needle, haystack)) {
        Some(Ok(found)) => next(frame.push(found), at + 1),
        Some(Err(_)) => not_a_container(frame, haystack, log, at + 1),
        None => stuck(frame, at),
    }
}

pub open spec fn lacks(
    frame: FrameState,
    needle: PyObjectRef,
    haystack: PyObjectRef,
    log: Seq<Event>,
    at: int,
) -> Step {
    match result_reply(log, at, membership(needle, haystack)) {
        Some(Ok(found)) => match reply(log, at + 1, Request::BoolValue { obj: found }) {
            Some(Reply::MaybeFlag(Some(found))) => push_new(
                frame,
                log,
                at + 2,
                Request::NewBool { value: !found },
            ),
            Some(Reply::MaybeFlag(None)) => fault(frame, Fault::NotBoolean, at + 2),
            _ => stuck(frame, at),
        },
        Some(Err(_)) => not_a_container(frame, haystack, log, at + 1),
        None => stuck(frame, at),
    }
}

pub open spec fn compare(
    frame: FrameState,
    op: ComparisonOperator,
    log: Seq<Event>,
    at: int,
) -> Step {
    if frame.stack.len() < 2 {
        fault(frame, Fault::StackUnderflow, at)
    } else {
        let a = frame.nth(1);
        let b = frame.nth(0);
        let rest = frame.drop(2);
        match op {
            ComparisonOperator::Equal => push_result(rest, log, at, method(a, "__eq__"@, seq![b])),
            ComparisonOperator::NotEqual => push_result(
                rest,
                log,
                at,
                method(a, "__ne__"@, seq![b]),
            ),
            ComparisonOperator::Less => push_result(rest, log, at, method(a, "__lt__"@, seq![b])),
            ComparisonOperator::LessOrEqual => push_result(
                rest,
                log,
                at,
                method(a, "__le__"@, seq![b]),
            ),
            ComparisonOperator::Greater => push_result(
                rest,
                log,
                at,
                method(a, "__gt__"@, seq![b]),
            ),
            ComparisonOperator::GreaterOrEqual => push_result(
                rest,
                log,
                at,
                method(a, "__ge__"@, seq![b]),
            ),
            ComparisonOperator::Is => push_new(rest, log, at, Request::NewBool { value: a == b }),
            ComparisonOperator::IsNot => push_new(
                rest,
                log,
                at,
                Request::NewBool { value: a != b },
            ),
            ComparisonOperator::In => contains(rest, a, b, log, at),
            ComparisonOperator::NotIn => lacks(rest, a, b, log, at),
        }
    }
}

// ---------------------------------------------------------------------------------------------
// Blocks.

/// Leaves a `with` block: what `__exit__` answers, and the place after the call.
pub open spec fn with_exit(
    context_manager: PyObjectRef,
    exception: Option<PyObjectRef>,
    log: Seq<Event>,
    at: int,
) -> Option<(PyResult, int)> {
    match exception {
        Some(exception) => match (
            object_reply(log, at, Request::TypeOf { obj: exception }),
            object_reply(log, at + 1, Request::NoneObject),
        ) {
            (Some(typ), Some(traceback)) => match result_reply(
                log,
                at + 2,
                method(context_manager, "__exit__"@, seq![typ, exception, traceback]),
            ) {
                Some(result) => Some((result, at + 3)),
                None => None,
            },
            _ => None,
        },
        None => match (
            object_reply(log, at, Request::NoneObject),
            object_reply(log, at + 1, Request::NoneObject),
            object_reply(log, at + 2, Request::NoneObject),
        ) {
            (Some(typ), Some(value), Some(traceback)) => match result_reply(
                log,
                at + 3,
                method(context_manager, "__exit__"@, seq![typ, value, traceback]),
            ) {
                Some(result) => Some((result, at + 4)),
                None => None,
            },
            _ => None,
        },
    }
}

/// Leaves all blocks, the innermost first, up to one whose exit raises an exception.
pub open spec fn unwind_blocks(frame: FrameState, log: Seq<Event>, at: int) -> Step
    decreases frame.blocks.len(),
{
    if frame.blocks.len() == 0 {
        next(frame, at)
    } else {
        let rest = frame.drop_block();
        match frame.blocks.last() {
            Block::With { context_manager, .. } => match with_exit(context_manager, None, log, at) {
                Some((Ok(_), at)) => unwind_blocks(rest, log, at),
                Some((Err(exception), at)) => raise(rest, exception, at),
                None => stuck(frame, at),
            },
            _ => unwind_blocks(rest, log, at),
        }
    }
}

/// Leaves the blocks within the innermost loop and the loop itself: the frame after it, the loop's
/// start and end, or the fault, and the place after the requests.
pub open spec fn unwind_loop(frame: FrameState, log: Seq<Event>, at: int) -> Option<
    (FrameState, Result<(Label, Label), Fault>, int),
>
    decreases frame.blocks.len(),
{
    if frame.blocks.len() == 0 {
        Some((frame, Err(Fault::NoLoop), at))
    } else {
        let rest = frame.drop_block();
        match frame.blocks.last() {
            Block::Loop { start, end } => Some((rest, Ok((start, end)), at)),
            Block::TryExcept { .. } => unwind_loop(rest, log, at),
            Block::With { context_manager, .. } => match with_exit(context_manager, None, log, at) {
                Some((Ok(_), at)) => unwind_loop(rest, log, at),
                Some((Err(exception), at)) => Some((rest, Err(Fault::ExitRaised(exception)), at)),
                None => None,
            },
        }
    }
}

/// Leaves the innermost loop, then goes to its start or its end.
pub open spec fn leave_loop(frame: FrameState, restart: bool, log: Seq<Event>, at: int) -> Step {
    match unwind_loop(frame, log, at) {
        Some((rest, Ok((start, end)), at)) => if restart {
            jump(rest, start, at)
        } else {
            jump(rest, end, at)
        },
        Some((rest, Err(reason), at)) => fault(rest, reason, at),
        None => stuck(frame, at),
    }
}

/// Leaves blocks, the innermost first, up to one that handles the exception: an `except` block
/// does, and a `with` block whose exit answers with a true value.
pub open spec fn unwind_exception(
    frame: FrameState,
    exception: PyObjectRef,
    log: Seq<Event>,
    at: int,
) -> Step
    decreases frame.blocks.len(),
{
    if frame.blocks.len() == 0 {
        raise(frame, exception, at)
    } else {
        let rest = frame.drop_block();
        match frame.blocks.last() {
            Block::Loop { .. } => unwind_exception(rest, exception, log, at),
            Block::TryExcept { handler } => jump(rest.push(exception), handler, at),
            Block::With { end, context_manager } => match with_exit(
                context_manager,
                Some(exception),
                log,
                at,
            ) {
                Some((Ok(action), at)) => match truth_reply(log, at, action) {
                    Some(Ok(true)) => jump(rest, end, at + 1),
                    Some(Ok(false)) => unwind_exception(rest, exception, log, at + 1),
                    Some(Err(other)) => raise(rest, other, at + 1),
                    None => stuck(frame, at),
                },
                Some((Err(other), at)) => raise(rest, other, at),
                None => stuck(frame, at),
            },
        }
    }
}

pub open spec fn setup_with(frame: FrameState, end: Label, log: Seq<Event>, at: int) -> Step {
    if frame.stack.len() < 1 {
        fault(frame, Fault::StackUnderflow, at)
    } else {
        let context_manager = frame.nth(0);
        let rest = frame.drop(1);
        match result_reply(log, at, method(context_manager, "__enter__"@, seq![])) {
            Some(Ok(value)) => next(
                rest.push_block(Block::With { end, context_manager }).push(value),
                at + 1,
            ),
            Some(Err(exception)) => raise(rest, exception, at + 1),
            None => stuck(frame, at),
        }
    }
}

pub open spec fn cleanup_with(frame: FrameState, end: Label, log: Seq<Event>, at: int) -> Step {
    if frame.blocks.len() == 0 {
        fault(frame, Fault::NoBlock, at)
    } else {
        match frame.blocks.last() {
            Block::With { end: block_end, context_manager } => if end != block_end {
                fault(frame, Fault::WrongBlock, at)
            } else {
                match with_exit(context_manager, None, log, at) {
                    Some((Ok(_), at)) => next(frame.drop_block(), at),
                    Some((Err(exception), at)) => raise(frame.drop_block(), exception, at),
                    None => stuck(frame, at),
                }
            },
            _ => fault(frame, Fault::WrongBlock, at),
        }
    }
}

pub open spec fn return_value(frame: FrameState, log: Seq<Event>, at: int) -> Step {
    if frame.stack.len() < 1 {
        fault(frame, Fault::StackUnderflow, at)
    } else {
        let unwound = unwind_blocks(frame.drop(1), log, at);
        match unwound.outcome {
            Outcome::Next => done(
                unwound.frame,
                ExecutionResult::Return(frame.nth(0)),
                unwound.at,
            ),
            _ => unwound,
        }
    }
}

/// Moves an iterator on; at its end the loop is left.
pub open spec fn for_iter(frame: FrameState, log: Seq<Event>, at: int) -> Step {
    if frame.stack.len() < 1 {
        fault(frame, Fault::StackUnderflow, at)
    } else {
        match result_reply(log, at, method(frame.nth(0), "__next__"@, seq![])) {
            Some(Ok(value)) => next(frame.push(value), at + 1),
            Some(Err(exception)) => match flag_reply(
                log,
                at + 1,
                Request::IsInstance { obj: exception, exc_type: ExceptionType::StopIteration },
            ) {
                Some(true) => if frame.blocks.len() == 0 {
                    fault(frame, Fault::NoBlock, at + 2)
                } else {
                    match frame.blocks.last() {
                        Block::Loop { end, .. } => jump(frame.drop(1), end, at + 2),
                        _ => fault(frame, Fault::WrongBlock, at + 2),
                    }
                },
                Some(false) => raise(frame, exception, at + 2),
                None => stuck(frame, at),
            },
            None => stuck(frame, at),
        }
    }
}

/// Takes a value off the stack and jumps if it counts as `wanted`.
pub open spec fn jump_if(
    frame: FrameState,
    wanted: bool,
    target: Label,
    log: Seq<Event>,
    at: int,
) -> Step {
    if frame.stack.len() < 1 {
        fault(frame, Fault::StackUnderflow, at)
    } else {
        let rest = frame.drop(1);
        match truth_reply(log, at, frame.nth(0)) {
            Some(Ok(value)) => if value == wanted {
                jump(rest, target, at + 1)
            } else {
                next(rest, at + 1)
            },
            Some(Err(exception)) => raise(rest, exception, at + 1),
            None => stuck(frame, at),
        }
    }
}

pub open spec fn raise_message(text: Seq<char>) -> Seq<char> {
    "Can only raise BaseException derived types, not "@ + text
}

pub open spec fn raise_instruction(
    frame: FrameState,
    argc: usize,
    log: Seq<Event>,
    at: int,
) -> Step {
    if argc != 1 {
        fault(frame, Fault::RaiseArity, at)
    } else if frame.stack.len() < 1 {
        fault(frame, Fault::StackUnderflow, at)
    } else {
        let exception = frame.nth(0);
        let rest = frame.drop(1);
        match flag_reply(
            log,
            at,
            Request::IsInstance { obj: exception, exc_type: ExceptionType::BaseException },
        ) {
            Some(true) => raise(rest, exception, at + 1),
            Some(false) => match text_reply(log, at + 1, Request::DebugText { obj: exception }) {
                Some(text) => raise_new(
                    rest,
                    log,
                    at + 2,
                    ExceptionType::TypeError,
                    raise_message(text),
                ),
                None => stuck(frame, at),
            },
            None => stuck(frame, at),
        }
    }
}

// ---------------------------------------------------------------------------------------------
// The stack.

/// Puts the topmost value below the `amount - 1` ones under it.
pub open spec fn rotate(frame: FrameState, amount: usize, at: int) -> Step {
    if amount < 2 {
        fault(frame, Fault::BadRotate, at)
    } else if frame.stack.len() < amount {
        fault(frame, Fault::StackUnderflow, at)
    } else {
        next(
            frame.drop(amount as int).push(frame.nth(0)).extend(
                frame.top(amount as int).drop_last(),
            ),
            at,
        )
    }
}

/// Makes one object out of the topmost values.
pub open spec fn build(
    frame: FrameState,
    size: usize,
    log: Seq<Event>,
    at: int,
    request: Request,
) -> Step {
    if frame.stack.len() < size {
        fault(frame, Fault::StackUnderflow, at)
    } else {
        push_new(frame.drop(size as int), log, at, request)
    }
}

/// The dictionary of the topmost `size` pairs of key and value. It starts from the entries that
/// are there already and takes the topmost pair first, so of two pairs with one key the deeper
/// one counts. Gives the entries, or the fault, and the place after the requests.
pub open spec fn pairs(
    stack: Seq<PyObjectRef>,
    size: nat,
    entries: Map<Seq<char>, PyObjectRef>,
    log: Seq<Event>,
    at: int,
) -> Option<(Result<Map<Seq<char>, PyObjectRef>, Fault>, int)>
    decreases size,
{
    if size == 0 {
        Some((Ok(entries), at))
    } else if stack.len() < 2 {
        Some((Err(Fault::StackUnderflow), at))
    } else {
        match kind_reply(log, at, stack[stack.len() - 2]) {
            Some(PyObjectKind::String { value }) => pairs(
                stack.take(stack.len() - 2),
                (size - 1) as nat,
                entries.insert(value@, stack.last()),
                log,
                at + 1,
            ),
            Some(_) => Some((Err(Fault::KeyNotString), at + 1)),
            None => None,
        }
    }
}

pub open spec fn build_map(frame: FrameState, size: usize, log: Seq<Event>, at: int) -> Step {
    match pairs(frame.stack, size as nat, Map::empty(), log, at) {
        Some((Ok(entries), at)) => push_new(
            frame.drop(2 * size),
            log,
            at,
            Request::NewDict { entries },
        ),
        Some((Err(reason), at)) => fault(frame, reason, at),
        None => stuck(frame, at),
    }
}

/// The bounds that a list of objects stands for: integers, or `None` for an open bound.
pub open spec fn bounds(objects: Seq<PyObjectRef>, log: Seq<Event>, at: int) -> Option<
    (Result<Seq<Option<i32>>, Fault>, int),
>
    decreases objects.len(),
{
    if objects.len() == 0 {
        Some((Ok(Seq::empty()), at))
    } else {
        match bounds(objects.drop_last(), log, at) {
            Some((Ok(found), at)) => match kind_reply(log, at, objects.last()) {
                Some(PyObjectKind::Integer { value }) => Some(
                    (Ok(found.push(Some(value))), at + 1),
                ),
                Some(PyObjectKind::NoneValue) => Some((Ok(found.push(None)), at + 1)),
                Some(_) => Some((Err(Fault::BadSliceBound), at + 1)),
                None => None,
            },
            other => other,
        }
    }
}

pub open spec fn build_slice(frame: FrameState, size: usize, log: Seq<Event>, at: int) -> Step {
    if size != 2 && size != 3 {
        fault(frame, Fault::BadSliceSize, at)
    } else if frame.stack.len() < size {
        fault(frame, Fault::StackUnderflow, at)
    } else {
        match bounds(frame.top(size as int), log, at) {
            Some((Ok(out), at)) => push_new(
                frame.drop(size as int),
                log,
                at,
                Request::NewSlice {
                    start: out[0],
                    stop: out[1],
                    step: if size == 3 {
                        out[2]
                    } else {
                        None
                    },
                },
            ),
            Some((Err(reason), at)) => fault(frame, reason, at),
            None => stuck(frame, at),
        }
    }
}

/// Adds the topmost value to a collection that lies `i` below it.
pub open spec fn add_to_collection(
    frame: FrameState,
    i: usize,
    name: Seq<char>,
    log: Seq<Event>,
    at: int,
) -> Step {
    if frame.stack.len() < i + 1 {
        fault(frame, Fault::StackUnderflow, at)
    } else {
        ignore_result(
            frame.drop(1),
            log,
            at,
            method(frame.nth(i as int), name, seq![frame.nth(0)]),
        )
    }
}

pub open spec fn map_add(frame: FrameState, i: usize, log: Seq<Event>, at: int) -> Step {
    if frame.stack.len() < i + 2 {
        fault(frame, Fault::StackUnderflow, at)
    } else {
        ignore_result(
            frame.drop(2),
            log,
            at,
            method(frame.nth(i + 1), "__setitem__"@, seq![frame.nth(0), frame.nth(1)]),
        )
    }
}

/// Puts the elements of a sequence onto the stack, the first one on top.
pub open spec fn unpack(
    frame: FrameState,
    size: Option<usize>,
    log: Seq<Event>,
    at: int,
) -> Step {
    if frame.stack.len() < 1 {
        fault(frame, Fault::StackUnderflow, at)
    } else {
        let rest = frame.drop(1);
        match elements_reply(log, at, frame.nth(0)) {
            Some(Some(elements)) => if size is Some && elements.len() != size->0 {
                raise_new(
                    rest,
                    log,
                    at + 1,
                    ExceptionType::ValueError,
                    "Wrong number of values to unpack"@,
                )
            } else {
                next(rest.extend(elements.reverse()), at + 1)
            },
            Some(None) => fault(rest, Fault::NotSequence, at + 1),
            None => stuck(frame, at),
        }
    }
}

pub open spec fn unpack_message(expected: nat, got: nat) -> Seq<char> {
    "Not enough values to unpack (expected at least "@ + decimal(expected) + ", got "@ + decimal(
        got,
    )
}

/// Puts the first elements of a sequence, a list of the middle ones, and the last ones onto the
/// stack, the first one on top.
pub open spec fn unpack_ex(
    frame: FrameState,
    before: usize,
    after: usize,
    log: Seq<Event>,
    at: int,
) -> Step {
    if before + after > usize::MAX {
        fault(frame, Fault::UnpackOverflow, at)
    } else if frame.stack.len() < 1 {
        fault(frame, Fault::StackUnderflow, at)
    } else {
        let rest = frame.drop(1);
        match elements_reply(log, at, frame.nth(0)) {
            Some(Some(elements)) => if elements.len() < before + after {
                raise_new(
                    rest,
                    log,
                    at + 1,
                    ExceptionType::ValueError,
                    unpack_message((before + after) as nat, elements.len()),
                )
            } else {
                match object_reply(
                    log,
                    at + 1,
                    Request::NewList {
                        elements: elements.subrange(before as int, elements.len() - after),
                    },
                ) {
                    Some(middle) => next(
                        rest.extend(elements.skip(elements.len() - after).reverse()).push(
                            middle,
                        ).extend(elements.take(before as int).reverse()),
                        at + 2,
                    ),
                    None => stuck(frame, at),
                }
            },
            Some(None) => fault(rest, Fault::NotSequence, at + 1),
            None => stuck(frame, at),
        }
    }
}

// ---------------------------------------------------------------------------------------------
// Functions, output and scopes.

pub open spec fn make_function(
    frame: FrameState,
    flags: FunctionOpArg,
    log: Seq<Event>,
    at: int,
) -> Step {
    let used: int = if flags.with_defaults() {
        3
    } else {
        2
    };
    if frame.stack.len() < used {
        fault(frame, Fault::StackUnderflow, at)
    } else {
        let code = frame.nth(1);
        let scope = frame.locals;
        if flags.with_defaults() {
            push_new(
                frame.drop(3),
                log,
                at,
                Request::NewFunction { code, scope, defaults: frame.nth(2) },
            )
        } else {
            match object_reply(log, at, Request::NoneObject) {
                Some(defaults) => push_new(
                    frame.drop(2),
                    log,
                    at + 1,
                    Request::NewFunction { code, scope, defaults },
                ),
                None => stuck(frame, at),
            }
        }
    }
}

pub open spec fn call_function(frame: FrameState, count: usize, log: Seq<Event>, at: int) -> Step {
    if frame.stack.len() < count + 1 {
        fault(frame, Fault::StackUnderflow, at)
    } else {
        push_result(
            frame.drop(count + 1),
            log,
            at,
            Request::Invoke {
                func: frame.nth(count as int),
                args: frame.top(count as int),
                kwargs: seq![],
            },
        )
    }
}

/// The texts of a list of string objects.
pub open spec fn names(objects: Seq<PyObjectRef>, log: Seq<Event>, at: int) -> Option<
    (Result<Seq<Seq<char>>, Fault>, int),
>
    decreases objects.len(),
{
    if objects.len() == 0 {
        Some((Ok(Seq::empty()), at))
    } else {
        match names(objects.drop_last(), log, at) {
            Some((Ok(found), at)) => match kind_reply(log, at, objects.last()) {
                Some(PyObjectKind::String { value }) => Some((Ok(found.push(value@)), at + 1)),
                Some(_) => Some((Err(Fault::NotString), at + 1)),
                None => None,
            },
            other => other,
        }
    }
}

/// Calls a function whose last arguments have names: a tuple of the names is on top.
pub open spec fn call_function_kw(
    frame: FrameState,
    count: usize,
    log: Seq<Event>,
    at: int,
) -> Step {
    if frame.stack.len() < count + 2 {
        fault(frame, Fault::StackUnderflow, at)
    } else {
        let values = frame.drop(1).top(count as int);
        match elements_reply(log, at, frame.nth(0)) {
            Some(Some(elements)) => match names(elements, log, at + 1) {
                Some((Ok(found), at)) => if found.len() > count {
                    fault(frame, Fault::MissingArguments, at)
                } else {
                    push_result(
                        frame.drop(count + 2),
                        log,
                        at,
                        Request::Invoke {
                            func: frame.nth(count + 1),
                            args: values.take(count - found.len()),
                            kwargs: keyword_args(values, found),
                        },
                    )
                },
                Some((Err(reason), at)) => fault(frame, reason, at),
                None => stuck(frame, at),
            },
            Some(None) => fault(frame, Fault::NotSequence, at + 1),
            None => stuck(frame, at),
        }
    }
}

/// Prints the representation of the topmost value, unless it is `None`.
pub open spec fn print_expr(frame: FrameState, log: Seq<Event>, at: int) -> Step {
    if frame.stack.len() < 1 {
        fault(frame, Fault::StackUnderflow, at)
    } else {
        let rest = frame.drop(1);
        match kind_reply(log, at, frame.nth(0)) {
            Some(PyObjectKind::NoneValue) => next(rest, at + 1),
            Some(_) => match result_reply(log, at + 1, Request::ToRepr { obj: frame.nth(0) }) {
                Some(Ok(repr)) => match result_reply(log, at + 2, Request::Print { obj: repr }) {
                    Some(Ok(_)) => next(rest, at + 3),
                    Some(Err(exception)) => fault(rest, Fault::PrintRaised(exception), at + 3),
                    None => stuck(frame, at),
                },
                Some(Err(exception)) => fault(rest, Fault::ReprRaised(exception), at + 2),
                None => stuck(frame, at),
            },
            None => stuck(frame, at),
        }
    }
}

pub open spec fn store_locals(frame: FrameState, log: Seq<Event>, at: int) -> Step {
    if frame.stack.len() < 1 {
        fault(frame, Fault::StackUnderflow, at)
    } else {
        match kind_reply(log, at, frame.locals) {
            Some(PyObjectKind::Scope { .. }) => act(
                frame.drop(1),
                log,
                at + 1,
                Request::SetScopeLocals { scope: frame.locals, locals: frame.nth(0) },
            ),
            Some(_) => fault(frame, Fault::NotScope, at + 1),
            None => stuck(frame, at),
        }
    }
}

// ---------------------------------------------------------------------------------------------
// Instructions and runs.

/// What one instruction does.
pub open spec fn execute(
    frame: FrameState,
    instruction: Instruction,
    log: Seq<Event>,
    at: int,
) -> Step {
    match instruction {
        Instruction::LoadConst { value } => match constant(value, log, at) {
            Some((object, at)) => next(frame.push(object), at),
            None => stuck(frame, at),
        },
        Instruction::Import { name, symbol } => import(frame, name@, symbol, log, at),
        Instruction::LoadName { name } => load_name(frame, name@, log, at),
        Instruction::StoreName { name } => store_name(frame, name@, log, at),
        Instruction::DeleteName { name } => delete_name(frame, name@, log, at),
        Instruction::StoreSubscript => store_subscript(frame, log, at),
        Instruction::DeleteSubscript => delete_subscript(frame, log, at),
        Instruction::Pop => if frame.stack.len() < 1 {
            fault(frame, Fault::StackUnderflow, at)
        } else {
            next(frame.drop(1), at)
        },
        Instruction::Duplicate => if frame.stack.len() < 1 {
            fault(frame, Fault::StackUnderflow, at)
        } else {
            next(frame.push(frame.nth(0)), at)
        },
        Instruction::Rotate { amount } => rotate(frame, amount, at),
        Instruction::BuildList { size } => build(
            frame,
            size,
            log,
            at,
            Request::NewList { elements: frame.top(size as int) },
        ),
        Instruction::BuildSet { size } => build(
            frame,
            size,
            log,
            at,
            Request::NewSet { elements: frame.top(size as int) },
        ),
        Instruction::BuildTuple { size } => build(
            frame,
            size,
            log,
            at,
            Request::NewTuple { elements: frame.top(size as int) },
        ),
        Instruction::BuildMap { size } => build_map(frame, size, log, at),
        Instruction::BuildSlice { size } => build_slice(frame, size, log, at),
        Instruction::ListAppend { i } => add_to_collection(frame, i, "append"@, log, at),
        Instruction::SetAdd { i } => add_to_collection(frame, i, "add"@, log, at),
        Instruction::MapAdd { i } => map_add(frame, i, log, at),
        Instruction::BinaryOperation { op } => binop(frame, op, log, at),
        Instruction::LoadAttr { name } => load_attr(frame, name@, log, at),
        Instruction::StoreAttr { name } => store_attr(frame, name@, log, at),
        Instruction::DeleteAttr { name } => delete_attr(frame, name@, log, at),
        Instruction::UnaryOperation { op } => unop(frame, op, log, at),
        Instruction::CompareOperation { op } => compare(frame, op, log, at),
        Instruction::ReturnValue => return_value(frame, log, at),
        Instruction::YieldValue => if frame.stack.len() < 1 {
            fault(frame, Fault::StackUnderflow, at)
        } else {
            done(frame.drop(1), ExecutionResult::Yield(frame.nth(0)), at)
        },
        Instruction::SetupLoop { start, end } => next(
            frame.push_block(Block::Loop { start, end }),
            at,
        ),
        Instruction::SetupExcept { handler } => next(
            frame.push_block(Block::TryExcept { handler }),
            at,
        ),
        Instruction::SetupWith { end } => setup_with(frame, end, log, at),
        Instruction::CleanupWith { end } => cleanup_with(frame, end, log, at),
        Instruction::PopBlock => next(frame.pop_block(), at),
        Instruction::GetIter => if frame.stack.len() < 1 {
            fault(frame, Fault::StackUnderflow, at)
        } else {
            push_result(frame.drop(1), log, at, Request::GetIter { obj: frame.nth(0) })
        },
        Instruction::ForIter => for_iter(frame, log, at),
        Instruction::MakeFunction { flags } => make_function(frame, flags, log, at),
        Instruction::CallFunction { count } => call_function(frame, count, log, at),
        Instruction::CallFunctionKw { count } => call_function_kw(frame, count, log, at),
        Instruction::Jump { target } => jump(frame, target, at),
        Instruction::JumpIf { target } => jump_if(frame, true, target, log, at),
        Instruction::JumpIfFalse { target } => jump_if(frame, false, target, log, at),
        Instruction::Raise { argc } => raise_instruction(frame, argc, log, at),
        Instruction::Break => leave_loop(frame, false, log, at),
        Instruction::Pass => next(frame, at),
        Instruction::Continue => leave_loop(frame, true, log, at),
        Instruction::PrintExpr => print_expr(frame, log, at),
        Instruction::LoadBuildClass => push_new(frame, log, at, Request::BuildClassFunction),
        Instruction::StoreLocals => store_locals(frame, log, at),
        Instruction::UnpackSequence { size } => unpack(frame, Some(size), log, at),
        Instruction::UnpackEx { before, after } => unpack_ex(frame, before, after, log, at),
        Instruction::Unpack => unpack(frame, None, log, at),
    }
}

/// Whether an instruction is left to execute.
pub open spec fn has_instruction(frame: FrameState) -> bool {
    0 <= frame.lasti < frame.code.instructions@.len()
}

/// Fetches the next instruction and executes it.
pub open spec fn execute_next(frame: FrameState, log: Seq<Event>, at: int) -> Step {
    if has_instruction(frame) {
        execute(
            frame.goto(frame.lasti + 1),
            frame.code.instructions@[frame.lasti],
            log,
            at,
        )
    } else {
        fault(frame, Fault::NoInstruction, at)
    }
}

/// The file name that a traceback gives for a piece of code.
pub open spec fn file_name(code: CodeObject) -> Seq<char> {
    match code.source_path {
        Some(path) => path@,
        None => "<unknown>"@,
    }
}

/// Adds a line of code to the traceback of an exception: the place after it, or the fault.
pub open spec fn add_traceback(
    code: CodeObject,
    row: usize,
    exception: PyObjectRef,
    log: Seq<Event>,
    at: int,
) -> Option<(Option<Fault>, int)> {
    match flag_reply(
        log,
        at,
        Request::IsInstance { obj: exception, exc_type: ExceptionType::BaseException },
    ) {
        Some(true) => match result_reply(
            log,
            at + 1,
            Request::GetAttribute { obj: exception, name: "__traceback__"@ },
        ) {
            Some(Ok(traceback)) => match (
                object_reply(log, at + 2, Request::NewStr { value: file_name(code) }),
                object_reply(log, at + 3, Request::NewInt { value: row as i32 }),
                object_reply(log, at + 4, Request::NewStr { value: code.obj_name@ }),
            ) {
                (Some(file), Some(line), Some(name)) => match object_reply(
                    log,
                    at + 5,
                    Request::NewTuple { elements: seq![file, line, name] },
                ) {
                    Some(item) => match result_reply(
                        log,
                        at + 6,
                        Request::ListAppend { list: traceback, item },
                    ) {
                        Some(Ok(_)) => Some((None, at + 7)),
                        Some(Err(other)) => Some((Some(Fault::TracebackRaised(other)), at + 7)),
                        None => None,
                    },
                    None => None,
                },
                _ => None,
            },
            Some(Err(other)) => Some((Some(Fault::TracebackRaised(other)), at + 2)),
            None => None,
        },
        Some(false) => Some((Some(Fault::NotException), at + 1)),
        None => None,
    }
}

/// One turn of the run: an instruction, and what becomes of an exception that it raises.
pub open spec fn turn(frame: FrameState, log: Seq<Event>, at: int) -> Step {
    if !(0 <= frame.lasti < frame.code.locations@.len()) {
        fault(frame, Fault::NoLocation, at)
    } else {
        let row = frame.code.locations@[frame.lasti].row;
        let step = execute_next(frame, log, at);
        match step.outcome {
            Outcome::Done(Err(exception)) => match add_traceback(
                frame.code,
                row,
                exception,
                log,
                step.at,
            ) {
                Some((None, at)) => unwind_exception(step.frame, exception, log, at),
                Some((Some(reason), at)) => fault(step.frame, reason, at),
                None => stuck(step.frame, step.at),
            },
            _ => step,
        }
    }
}

/// A run of at most `turns` turns.
pub open spec fn run(frame: FrameState, turns: nat, log: Seq<Event>, at: int) -> Step
    decreases turns,
{
    if turns == 0 {
        next(frame, at)
    } else {
        let step = turn(frame, log, at);
        match step.outcome {
            Outcome::Next => run(step.frame, (turns - 1) as nat, log, step.at),
            _ => step,
        }
    }
}

/// A run that has used up all turns that can be counted is at fault.
pub open spec fn finish(step: Step) -> Step {
    match step.outcome {
        Outcome::Next => fault(step.frame, Fault::TooManyTurns, step.at),
        _ => step,
    }
}

/// A run to its end.
pub open spec fn complete_run(frame: FrameState, log: Seq<Event>, at: int) -> Step {
    finish(run(frame, u64::MAX as nat, log, at))
}

// ---------------------------------------------------------------------------------------------
// A frame as text.

/// The values of a stack, a line for each.
pub open spec fn stack_text(stack: Seq<PyObjectRef>, log: Seq<Event>, at: int) -> Option<
    (Seq<char>, int),
>
    decreases stack.len(),
{
    if stack.len() == 0 {
        Some((Seq::empty(), at))
    } else {
        match stack_text(stack.drop_last(), log, at) {
            Some((before, at)) => match text_reply(
                log,
                at,
                Request::StrText { obj: stack.last() },
            ) {
                Some(text) => Some((before + "\n  > "@ + text, at + 1)),
                None => None,
            },
            None => None,
        }
    }
}

/// A block.
pub open spec fn block_text(block: Block, log: Seq<Event>, at: int) -> Option<(Seq<char>, int)> {
    match block {
        Block::Loop { start, end } => Some(
            (
                "Loop { start: "@ + decimal(
                    start as nat,
                ) + ", end: "@ + decimal(end as nat) + " }"@,
                at,
            ),
        ),
        Block::TryExcept { handler } => Some(
            ("TryExcept { handler: "@ + decimal(handler as nat) + " }"@, at),
        ),
        Block::With { end, context_manager } => match text_reply(
            log,
            at,
            Request::DebugText { obj: context_manager },
        ) {
            Some(text) => Some(
                (
                    "With { end: "@ + decimal(end as nat) + ", context_manager: "@ + text + " }"@,
                    at + 1,
                ),
            ),
            None => None,
        },
    }
}

/// The blocks, the outermost first, a line for each.
pub open spec fn blocks_text(blocks: Seq<Block>, log: Seq<Event>, at: int) -> Option<
    (Seq<char>, int),
>
    decreases blocks.len(),
{
    if blocks.len() == 0 {
        Some((Seq::empty(), at))
    } else {
        match blocks_text(blocks.drop_last(), log, at) {
            Some((before, at)) => match block_text(blocks.last(), log, at) {
                Some((text, at)) => Some((before + "\n  > "@ + text, at)),
                None => None,
            },
            None => None,
        }
    }
}

/// The entries of a dictionary, a line for each.
pub open spec fn items_text(
    items: Seq<(Seq<char>, PyObjectRef)>,
    log: Seq<Event>,
    at: int,
) -> Option<(Seq<char>, int)>
    decreases items.len(),
{
    if items.len() == 0 {
        Some((Seq::empty(), at))
    } else {
        match items_text(items.drop_last(), log, at) {
            Some((before, at)) => match text_reply(
                log,
                at,
                Request::StrText { obj: items.last().1 },
            ) {
                Some(text) => Some((before + "\n  "@ + items.last().0 + " = "@ + text, at + 1)),
                None => None,
            },
            None => None,
        }
    }
}

/// The variables of a scope, or the fault, and the place after the requests.
pub open spec fn locals_text(locals: PyObjectRef, log: Seq<Event>, at: int) -> Option<
    (Result<Seq<char>, Fault>, int),
> {
    match kind_reply(log, at, locals) {
        Some(PyObjectKind::Scope { locals }) => match reply(
            log,
            at + 1,
            Request::DictItems { obj: locals },
        ) {
            Some(Reply::Items(Some(items))) => match items_text(items, log, at + 2) {
                Some((text, at)) => Some((Ok(text), at)),
                None => None,
            },
            Some(Reply::Items(None)) => Some((Err(Fault::NotDict), at + 2)),
            _ => None,
        },
        Some(_) => Some((Err(Fault::NotScope), at + 1)),
        None => None,
    }
}

/// A frame with its stack, its blocks and its variables.
pub open spec fn frame_text(frame: FrameState, log: Seq<Event>, at: int) -> Option<
    (Result<Seq<char>, Fault>, int),
> {
    match stack_text(frame.stack, log, at) {
        Some((stack, at)) => match blocks_text(frame.blocks, log, at) {
            Some((blocks, at)) => match locals_text(frame.locals, log, at) {
                Some((Ok(locals), at)) => Some(
                    (
                        Ok(
                            "Frame Object { \n Stack:"@ + stack + "\n Blocks:"@ + blocks
                                + "\n Locals:"@ + locals + "\n}"@,
                        ),
                        at,
                    ),
                ),
                other => other,
            },
            None => None,
        },
        None => None,
    }
}

} // verus!
