//! The machine that a frame runs on, and the record of what a frame asks of it.
use vstd::prelude::*;

use crate::bytecode::{BinaryOperator, CodeObject};
use crate::pyobject::{
    dict_of, named, ExceptionType, PyFuncArgs, PyObjectKind, PyObjectRef, PyResult,
};

verus! {

/// Where an import statement starts to look for a module. Systems differ in which part of a path
/// is the directory, so a path is handed on whole to the machine, which opens the files.
#[derive(Debug)]
pub enum ImportDirectory {
    /// The directory that holds the file.
    ContainingFile { path: String },
    /// The directory `.`.
    Current,
}

/// What a frame can ask of the machine.
#[allow(inconsistent_fields)]
#[verifier::ext_equal]
pub enum Request {
    Kind { obj: PyObjectRef },
    NoneObject,
    NewInt { value: i32 },
    NewFloat { bits: u64 },
    NewStr { value: Seq<char> },
    NewBool { value: bool },
    NewTuple { elements: Seq<PyObjectRef> },
    NewList { elements: Seq<PyObjectRef> },
    NewSet { elements: Seq<PyObjectRef> },
    NewDict { entries: Map<Seq<char>, PyObjectRef> },
    NewSlice { start: Option<i32>, stop: Option<i32>, step: Option<i32> },
    NewCode { code: CodeObject },
    NewFunction { code: PyObjectRef, scope: PyObjectRef, defaults: PyObjectRef },
    BuildClassFunction,
    NewException { exc_type: ExceptionType, message: Seq<char> },
    IsInstance { obj: PyObjectRef, exc_type: ExceptionType },
    TypeOf { obj: PyObjectRef },
    TypeName { typ: PyObjectRef },
    DebugText { obj: PyObjectRef },
    StrText { obj: PyObjectRef },
    Elements { obj: PyObjectRef },
    DictItems { obj: PyObjectRef },
    BoolValue { obj: PyObjectRef },
    Truth { obj: PyObjectRef },
    CallMethod { obj: PyObjectRef, name: Seq<char>, args: Seq<PyObjectRef> },
    Invoke {
        func: PyObjectRef,
        args: Seq<PyObjectRef>,
        kwargs: Seq<(Seq<char>, PyObjectRef)>,
    },
    Arithmetic { op: BinaryOperator, a: PyObjectRef, b: PyObjectRef },
    GetAttribute { obj: PyObjectRef, name: Seq<char> },
    SetAttr { obj: PyObjectRef, name: Seq<char>, value: PyObjectRef },
    SetItem { scope: PyObjectRef, name: Seq<char>, value: PyObjectRef },
    ContainsKey { scope: PyObjectRef, name: Seq<char> },
    GetItem { scope: PyObjectRef, name: Seq<char> },
    HasParent { scope: PyObjectRef },
    GetParent { scope: PyObjectRef },
    SetScopeLocals { scope: PyObjectRef, locals: PyObjectRef },
    ListSetItem { list: PyObjectRef, index: PyObjectRef, value: PyObjectRef },
    ListAppend { list: PyObjectRef, item: PyObjectRef },
    GetIter { obj: PyObjectRef },
    Import { directory: ImportDirectory, module: Seq<char>, symbol: Option<String> },
    ToRepr { obj: PyObjectRef },
    Print { obj: PyObjectRef },
}

/// What the machine can answer.
#[verifier::ext_equal]
pub enum Reply {
    Done,
    Object(PyObjectRef),
    MaybeObject(Option<PyObjectRef>),
    Objects(Option<Seq<PyObjectRef>>),
    Items(Option<Seq<(Seq<char>, PyObjectRef)>>),
    Flag(bool),
    MaybeFlag(Option<bool>),
    Truth(Result<bool, PyObjectRef>),
    Text(Seq<char>),
    Kind(PyObjectKind),
    Result(PyResult),
}

/// One exchange with the machine.
#[verifier::ext_equal]
pub struct Event {
    pub request: Request,
    pub reply: Reply,
}

/// Exchanges with the machine, the oldest first.
pub type Record = Seq<Event>;

/// The elements in an answer.
pub open spec fn sequence_of(elements: Option<Vec<PyObjectRef>>) -> Option<Seq<PyObjectRef>> {
    match elements {
        Some(elements) => Some(elements@),
        None => None,
    }
}

/// The entries in an answer.
pub open spec fn entries_of(entries: Option<Vec<(String, PyObjectRef)>>) -> Option<
    Seq<(Seq<char>, PyObjectRef)>,
> {
    match entries {
        Some(entries) => Some(named(entries@)),
        None => None,
    }
}

/// Whether a record begins with another one.
pub open spec fn continues(log: Seq<Event>, earlier: Seq<Event>) -> bool {
    &&& earlier.len() <= log.len()
    &&& forall|i: int| 0 <= i < earlier.len() ==> #[trigger] log[i] == earlier[i]
}

/// A machine: it owns the objects and does everything that a frame cannot decide by itself.
///
/// Nothing is promised of its answers, so what is proved of a frame holds for each of them. A
/// machine only keeps account: its record grows by what it was asked and what it answered. Any
/// machine can keep such a record, as [`Replay`](crate::replay::Replay) does. For one that is
/// written in ordinary Rust nothing proves that it does.
pub trait VirtualMachine {
    /// The exchanges so far, the oldest first. The record exists for reasoning only: no program
    /// asks for it.
    spec fn log(&self) -> Record;

    /// The part of an object's payload that a frame looks at.
    fn kind(&mut self, obj: PyObjectRef) -> (r: PyObjectKind)
        ensures
            final(self).log() == old(self).log().push(
                Event { request: Request::Kind { obj }, reply: Reply::Kind(r) },
            ),
    ;

    /// The object `None`.
    fn none(&mut self) -> (r: PyObjectRef)
        ensures
            final(self).log() == old(self).log().push(
                Event { request: Request::NoneObject, reply: Reply::Object(r) },
            ),
    ;

    /// A new integer.
    fn new_int(&mut self, value: i32) -> (r: PyObjectRef)
        ensures
            final(self).log() == old(self).log().push(
                Event { request: Request::NewInt { value }, reply: Reply::Object(r) },
            ),
    ;

    /// A new float, from the bits of an IEEE 754 double.
    fn new_float(&mut self, bits: u64) -> (r: PyObjectRef)
        ensures
            final(self).log() == old(self).log().push(
                Event { request: Request::NewFloat { bits }, reply: Reply::Object(r) },
            ),
    ;

    /// A new string.
    fn new_str(&mut self, value: &str) -> (r: PyObjectRef)
        ensures
            final(self).log() == old(self).log().push(
                Event { request: Request::NewStr { value: value@ }, reply: Reply::Object(r) },
            ),
    ;

    /// A truth value as an object.
    fn new_bool(&mut self, value: bool) -> (r: PyObjectRef)
        ensures
            final(self).log() == old(self).log().push(
                Event { request: Request::NewBool { value }, reply: Reply::Object(r) },
            ),
    ;

    /// A new tuple.
    fn new_tuple(&mut self, elements: Vec<PyObjectRef>) -> (r: PyObjectRef)
        ensures
            final(self).log() == old(self).log().push(
                Event {
                    request: Request::NewTuple { elements: elements@ },
                    reply: Reply::Object(r),
                },
            ),
    ;

    /// A new list.
    fn new_list(&mut self, elements: Vec<PyObjectRef>) -> (r: PyObjectRef)
        ensures
            final(self).log() == old(self).log().push(
                Event {
                    request: Request::NewList { elements: elements@ },
                    reply: Reply::Object(r),
                },
            ),
    ;

    /// A new set.
    fn new_set(&mut self, elements: Vec<PyObjectRef>) -> (r: PyObjectRef)
        ensures
            final(self).log() == old(self).log().push(
                Event { request: Request::NewSet { elements: elements@ }, reply: Reply::Object(r) },
            ),
    ;

    /// A new dictionary.
    fn new_dict(&mut self, entries: Vec<(String, PyObjectRef)>) -> (r: PyObjectRef)
        ensures
            final(self).log() == old(self).log().push(
                Event {
                    request: Request::NewDict { entries: dict_of(entries@) },
                    reply: Reply::Object(r),
                },
            ),
    ;

    /// A new slice.
    fn new_slice(
        &mut self,
        start: Option<i32>,
        stop: Option<i32>,
        step: Option<i32>,
    ) -> (r: PyObjectRef)
        ensures
            final(self).log() == old(self).log().push(
                Event { request: Request::NewSlice { start, stop, step }, reply: Reply::Object(r) },
            ),
    ;

    /// A new code object that holds a copy of the code.
    fn new_code(&mut self, code: &CodeObject) -> (r: PyObjectRef)
        ensures
            final(self).log() == old(self).log().push(
                Event { request: Request::NewCode { code: *code }, reply: Reply::Object(r) },
            ),
    ;

    /// A new function.
    fn new_function(
        &mut self,
        code: PyObjectRef,
        scope: PyObjectRef,
        defaults: PyObjectRef,
    ) -> (r: PyObjectRef)
        ensures
            final(self).log() == old(self).log().push(
                Event {
                    request: Request::NewFunction { code, scope, defaults },
                    reply: Reply::Object(r),
                },
            ),
    ;

    /// The builtin that class statements call.
    fn build_class_function(&mut self) -> (r: PyObjectRef)
        ensures
            final(self).log() == old(self).log().push(
                Event { request: Request::BuildClassFunction, reply: Reply::Object(r) },
            ),
    ;

    /// A new exception of the type, with the message.
    fn new_exception(&mut self, exc_type: ExceptionType, message: &str) -> (r: PyObjectRef)
        ensures
            final(self).log() == old(self).log().push(
                Event {
                    request: Request::NewException { exc_type, message: message@ },
                    reply: Reply::Object(r),
                },
            ),
    ;

    /// Whether the object is an instance of the exception type.
    fn is_instance(&mut self, obj: PyObjectRef, exc_type: ExceptionType) -> (r: bool)
        ensures
            final(self).log() == old(self).log().push(
                Event { request: Request::IsInstance { obj, exc_type }, reply: Reply::Flag(r) },
            ),
    ;

    /// The type of an object.
    fn type_of(&mut self, obj: PyObjectRef) -> (r: PyObjectRef)
        ensures
            final(self).log() == old(self).log().push(
                Event { request: Request::TypeOf { obj }, reply: Reply::Object(r) },
            ),
    ;

    /// The name of a type.
    fn name_of_type(&mut self, typ: PyObjectRef) -> (r: String)
        ensures
            final(self).log() == old(self).log().push(
                Event { request: Request::TypeName { typ }, reply: Reply::Text(r@) },
            ),
    ;

    /// An object as it is shown to developers.
    fn debug_text(&mut self, obj: PyObjectRef) -> (r: String)
        ensures
            final(self).log() == old(self).log().push(
                Event { request: Request::DebugText { obj }, reply: Reply::Text(r@) },
            ),
    ;

    /// An object as `str` shows it.
    fn str_text(&mut self, obj: PyObjectRef) -> (r: String)
        ensures
            final(self).log() == old(self).log().push(
                Event { request: Request::StrText { obj }, reply: Reply::Text(r@) },
            ),
    ;

    /// The elements of a tuple or list, or nothing for another object.
    fn elements(&mut self, obj: PyObjectRef) -> (r: Option<Vec<PyObjectRef>>)
        ensures
            final(self).log() == old(self).log().push(
                Event { request: Request::Elements { obj }, reply: Reply::Objects(sequence_of(r)) },
            ),
    ;

    /// The entries of a dictionary in some order, or nothing for another object.
    fn dict_items(&mut self, obj: PyObjectRef) -> (r: Option<Vec<(String, PyObjectRef)>>)
        ensures
            final(self).log() == old(self).log().push(
                Event { request: Request::DictItems { obj }, reply: Reply::Items(entries_of(r)) },
            ),
    ;

    /// The value of a truth object, or nothing for another object.
    fn bool_value(&mut self, obj: PyObjectRef) -> (r: Option<bool>)
        ensures
            final(self).log() == old(self).log().push(
                Event { request: Request::BoolValue { obj }, reply: Reply::MaybeFlag(r) },
            ),
    ;

    /// Whether an object counts as true; finding out can raise an exception.
    fn boolval(&mut self, obj: PyObjectRef) -> (r: Result<bool, PyObjectRef>)
        ensures
            final(self).log() == old(self).log().push(
                Event { request: Request::Truth { obj }, reply: Reply::Truth(r) },
            ),
    ;

    /// Calls a method of an object.
    fn call_method(&mut self, obj: PyObjectRef, name: &str, args: Vec<PyObjectRef>) -> (r: PyResult)
        ensures
            final(self).log() == old(self).log().push(
                Event {
                    request: Request::CallMethod { obj, name: name@, args: args@ },
                    reply: Reply::Result(r),
                },
            ),
    ;

    /// Calls a function.
    fn invoke(&mut self, func: PyObjectRef, args: PyFuncArgs) -> (r: PyResult)
        ensures
            final(self).log() == old(self).log().push(
                Event {
                    request: Request::Invoke {
                        func,
                        args: args.args@,
                        kwargs: named(args.kwargs@),
                    },
                    reply: Reply::Result(r),
                },
            ),
    ;

    /// Applies a binary operator of numbers and sequences.
    fn arithmetic(&mut self, op: BinaryOperator, a: PyObjectRef, b: PyObjectRef) -> (r: PyResult)
        ensures
            final(self).log() == old(self).log().push(
                Event { request: Request::Arithmetic { op, a, b }, reply: Reply::Result(r) },
            ),
    ;

    /// Looks up an attribute.
    fn get_attribute(&mut self, obj: PyObjectRef, name: &str) -> (r: PyResult)
        ensures
            final(self).log() == old(self).log().push(
                Event {
                    request: Request::GetAttribute { obj, name: name@ },
                    reply: Reply::Result(r),
                },
            ),
    ;

    /// Sets an attribute.
    fn set_attr(&mut self, obj: PyObjectRef, name: &str, value: PyObjectRef)
        ensures
            final(self).log() == old(self).log().push(
                Event { request: Request::SetAttr { obj, name: name@, value }, reply: Reply::Done },
            ),
    ;

    /// Binds a name in a scope.
    fn set_item(&mut self, scope: PyObjectRef, name: &str, value: PyObjectRef)
        ensures
            final(self).log() == old(self).log().push(
                Event {
                    request: Request::SetItem { scope, name: name@, value },
                    reply: Reply::Done,
                },
            ),
    ;

    /// Whether a scope itself binds a name.
    fn contains_key(&mut self, scope: PyObjectRef, name: &str) -> (r: bool)
        ensures
            final(self).log() == old(self).log().push(
                Event {
                    request: Request::ContainsKey { scope, name: name@ },
                    reply: Reply::Flag(r),
                },
            ),
    ;

    /// What a scope itself binds a name to.
    fn get_item(&mut self, scope: PyObjectRef, name: &str) -> (r: Option<PyObjectRef>)
        ensures
            final(self).log() == old(self).log().push(
                Event {
                    request: Request::GetItem { scope, name: name@ },
                    reply: Reply::MaybeObject(r),
                },
            ),
    ;

    /// Whether a scope lies within another.
    fn has_parent(&mut self, scope: PyObjectRef) -> (r: bool)
        ensures
            final(self).log() == old(self).log().push(
                Event { request: Request::HasParent { scope }, reply: Reply::Flag(r) },
            ),
    ;

    /// The scope that a scope lies within.
    fn get_parent(&mut self, scope: PyObjectRef) -> (r: PyObjectRef)
        ensures
            final(self).log() == old(self).log().push(
                Event { request: Request::GetParent { scope }, reply: Reply::Object(r) },
            ),
    ;

    /// Replaces the object that holds a scope's variables.
    fn set_scope_locals(&mut self, scope: PyObjectRef, locals: PyObjectRef)
        ensures
            final(self).log() == old(self).log().push(
                Event { request: Request::SetScopeLocals { scope, locals }, reply: Reply::Done },
            ),
    ;

    /// Assigns to an element of a list.
    fn list_set_item(
        &mut self,
        list: PyObjectRef,
        index: PyObjectRef,
        value: PyObjectRef,
    ) -> (r: PyResult)
        ensures
            final(self).log() == old(self).log().push(
                Event {
                    request: Request::ListSetItem { list, index, value },
                    reply: Reply::Result(r),
                },
            ),
    ;

    /// Appends to a list.
    fn list_append(&mut self, list: PyObjectRef, item: PyObjectRef) -> (r: PyResult)
        ensures
            final(self).log() == old(self).log().push(
                Event { request: Request::ListAppend { list, item }, reply: Reply::Result(r) },
            ),
    ;

    /// An iterator over an object.
    fn get_iter(&mut self, obj: PyObjectRef) -> (r: PyResult)
        ensures
            final(self).log() == old(self).log().push(
                Event { request: Request::GetIter { obj }, reply: Reply::Result(r) },
            ),
    ;

    /// Imports a module, or one of its symbols.
    fn import(
        &mut self,
        directory: ImportDirectory,
        module: &str,
        symbol: &Option<String>,
    ) -> (r: PyResult)
        ensures
            final(self).log() == old(self).log().push(
                Event {
                    request: Request::Import { directory, module: module@, symbol: *symbol },
                    reply: Reply::Result(r),
                },
            ),
    ;

    /// The representation of an object, as a string object.
    fn to_repr(&mut self, obj: PyObjectRef) -> (r: PyResult)
        ensures
            final(self).log() == old(self).log().push(
                Event { request: Request::ToRepr { obj }, reply: Reply::Result(r) },
            ),
    ;

    /// Prints an object.
    fn print(&mut self, obj: PyObjectRef) -> (r: PyResult)
        ensures
            final(self).log() == old(self).log().push(
                Event { request: Request::Print { obj }, reply: Reply::Result(r) },
            ),
    ;
}

} // verus!
