//! A machine that answers from a list.
use vstd::prelude::*;

use crate::bytecode::{BinaryOperator, CodeObject};
use crate::pyobject;
use crate::pyobject::{ExceptionType, PyFuncArgs, PyObjectKind, PyObjectRef, PyResult};
use crate::vm;
use crate::vm::{Event, ImportDirectory, Record, Reply, Request, VirtualMachine};

verus! {

/// An answer of a machine.
#[derive(Debug)]
pub enum Answer {
    Object(PyObjectRef),
    MaybeObject(Option<PyObjectRef>),
    Objects(Option<Vec<PyObjectRef>>),
    Items(Option<Vec<(String, PyObjectRef)>>),
    Flag(bool),
    MaybeFlag(Option<bool>),
    Truth(Result<bool, PyObjectRef>),
    Text(String),
    Kind(PyObjectKind),
    Result(PyResult),
}

impl Answer {
    /// The answer as the record holds it.
    pub open spec fn reply(self) -> Reply {
        match self {
            Answer::Object(object) => Reply::Object(object),
            Answer::MaybeObject(object) => Reply::MaybeObject(object),
            Answer::Objects(objects) => Reply::Objects(vm::sequence_of(objects)),
            Answer::Items(items) => Reply::Items(vm::entries_of(items)),
            Answer::Flag(flag) => Reply::Flag(flag),
            Answer::MaybeFlag(flag) => Reply::MaybeFlag(flag),
            Answer::Truth(truth) => Reply::Truth(truth),
            Answer::Text(text) => Reply::Text(text@),
            Answer::Kind(kind) => Reply::Kind(kind),
            Answer::Result(result) => Reply::Result(result),
        }
    }
}

/// A machine without objects of its own. It gives the answers of a list, one after the other, so
/// that a run can be repeated from what was answered in it.
pub struct Replay {
    answers: Vec<Answer>,
    log: Ghost<Seq<Event>>,
}

/// What stands in for an answer of the same kind as the given one.
pub open spec fn stand_in(reply: Reply) -> Reply {
    match reply {
        Reply::Done => Reply::Done,
        Reply::Object(_) => Reply::Object(PyObjectRef { id: 0 }),
        Reply::MaybeObject(_) => Reply::MaybeObject(None),
        Reply::Objects(_) => Reply::Objects(None),
        Reply::Items(_) => Reply::Items(None),
        Reply::Flag(_) => Reply::Flag(false),
        Reply::MaybeFlag(_) => Reply::MaybeFlag(None),
        Reply::Truth(_) => Reply::Truth(Ok(false)),
        Reply::Text(_) => Reply::Text(Seq::empty()),
        Reply::Kind(_) => Reply::Kind(PyObjectKind::Other),
        Reply::Result(_) => Reply::Result(Ok(PyObjectRef { id: 0 })),
    }
}

/// Whether two answers are of one kind.
pub open spec fn same_kind(a: Reply, b: Reply) -> bool {
    stand_in(a) == stand_in(b)
}

/// Whether a machine has answered with the first of its answers and put it aside, or with a
/// stand-in where the list holds none or one of another kind. Where there is nothing to answer,
/// the list is left as it is.
pub open spec fn replayed(before: Replay, after: Replay) -> bool {
    let reply = after.log().last().reply;
    let answers = before.answers();
    if reply == Reply::Done {
        after.answers() == answers
    } else if answers.len() == 0 {
        &&& reply == stand_in(reply)
        &&& after.answers() == answers
    } else {
        &&& reply == if same_kind(answers[0].reply(), reply) {
            answers[0].reply()
        } else {
            stand_in(reply)
        }
        &&& after.answers() == answers.drop_first()
    }
}

/// Answers of one kind differ in what they hold at most.
pub proof fn law_kinds_of_answers(a: Reply, b: Reply)
    ensures
        same_kind(a, b) <==> match (a, b) {
            (Reply::Done, Reply::Done) => true,
            (Reply::Object(_), Reply::Object(_)) => true,
            (Reply::MaybeObject(_), Reply::MaybeObject(_)) => true,
            (Reply::Objects(_), Reply::Objects(_)) => true,
            (Reply::Items(_), Reply::Items(_)) => true,
            (Reply::Flag(_), Reply::Flag(_)) => true,
            (Reply::MaybeFlag(_), Reply::MaybeFlag(_)) => true,
            (Reply::Truth(_), Reply::Truth(_)) => true,
            (Reply::Text(_), Reply::Text(_)) => true,
            (Reply::Kind(_), Reply::Kind(_)) => true,
            (Reply::Result(_), Reply::Result(_)) => true,
            _ => false,
        },
{
}

/// The first answer is given if it is of the kind that is asked for, and is used up in any case but
/// where nothing is answered.
pub proof fn law_answers_are_given_in_order(before: Replay, after: Replay)
    requires
        replayed(before, after),
        after.log().last().reply != Reply::Done,
        before.answers().len() > 0,
    ensures
        after.answers() == before.answers().subrange(1, before.answers().len() as int),
        same_kind(before.answers()[0].reply(), after.log().last().reply) ==> after.log().last().reply
            == before.answers()[0].reply(),
{
}

impl Replay {
    /// The answers that are left.
    pub closed spec fn answers(&self) -> Seq<Answer> {
        self.answers@
    }

    /// A machine of which nothing was asked yet.
    pub fn new(answers: Vec<Answer>) -> (machine: Replay)
        ensures
            machine.answers() == answers@,
            machine.log() == Seq::<Event>::empty(),
    {
        Replay { answers, log: Ghost(Seq::empty()) }
    }

    /// The number of answers that are left.
    pub fn left(&self) -> (count: usize)
        ensures
            count == self.answers().len(),
    {
        self.answers.len()
    }

    fn take(&mut self) -> (answer: Option<Answer>)
        ensures
            final(self).log() == old(self).log(),
            old(self).answers().len() == 0 ==> answer is None && final(self).answers()
                == old(self).answers(),
            old(self).answers().len() > 0 ==> answer == Some(old(self).answers()[0])
                && final(self).answers() == old(self).answers().drop_first(),
    {
        if self.answers.len() == 0 {
            None
        } else {
            let answer = self.answers.remove(0);
            assert(self.answers@ =~= old(self).answers@.drop_first());
            Some(answer)
        }
    }

    fn object(&mut self, Ghost(request): Ghost<Request>) -> (r: PyObjectRef)
        ensures
            final(self).log() == old(self).log().push(Event { request, reply: Reply::Object(r) }),
            replayed(*old(self), *final(self)),
    {
        let r = match self.take() {
            Some(Answer::Object(object)) => object,
            _ => PyObjectRef { id: 0 },
        };
        self.log = Ghost(self.log@.push(Event { request, reply: Reply::Object(r) }));
        r
    }

    fn maybe_object(&mut self, Ghost(request): Ghost<Request>) -> (r: Option<PyObjectRef>)
        ensures
            final(self).log() == old(self).log().push(
                Event { request, reply: Reply::MaybeObject(r) },
            ),
            replayed(*old(self), *final(self)),
    {
        let r = match self.take() {
            Some(Answer::MaybeObject(object)) => object,
            _ => None,
        };
        self.log = Ghost(self.log@.push(Event { request, reply: Reply::MaybeObject(r) }));
        r
    }

    fn objects(&mut self, Ghost(request): Ghost<Request>) -> (r: Option<Vec<PyObjectRef>>)
        ensures
            final(self).log() == old(self).log().push(
                Event { request, reply: Reply::Objects(vm::sequence_of(r)) },
            ),
            replayed(*old(self), *final(self)),
    {
        let r = match self.take() {
            Some(Answer::Objects(objects)) => objects,
            _ => None,
        };
        self.log = Ghost(
            self.log@.push(Event { request, reply: Reply::Objects(vm::sequence_of(r)) }),
        );
        r
    }

    fn items(&mut self, Ghost(request): Ghost<Request>) -> (r: Option<Vec<(String, PyObjectRef)>>)
        ensures
            final(self).log() == old(self).log().push(
                Event { request, reply: Reply::Items(vm::entries_of(r)) },
            ),
            replayed(*old(self), *final(self)),
    {
        let r = match self.take() {
            Some(Answer::Items(items)) => items,
            _ => None,
        };
        self.log = Ghost(self.log@.push(Event { request, reply: Reply::Items(vm::entries_of(r)) }));
        r
    }

    fn flag(&mut self, Ghost(request): Ghost<Request>) -> (r: bool)
        ensures
            final(self).log() == old(self).log().push(Event { request, reply: Reply::Flag(r) }),
            replayed(*old(self), *final(self)),
    {
        let r = match self.take() {
            Some(Answer::Flag(flag)) => flag,
            _ => false,
        };
        self.log = Ghost(self.log@.push(Event { request, reply: Reply::Flag(r) }));
        r
    }

    fn maybe_flag(&mut self, Ghost(request): Ghost<Request>) -> (r: Option<bool>)
        ensures
            final(self).log() == old(self).log().push(
                Event { request, reply: Reply::MaybeFlag(r) },
            ),
            replayed(*old(self), *final(self)),
    {
        let r = match self.take() {
            Some(Answer::MaybeFlag(flag)) => flag,
            _ => None,
        };
        self.log = Ghost(self.log@.push(Event { request, reply: Reply::MaybeFlag(r) }));
        r
    }

    fn truth(&mut self, Ghost(request): Ghost<Request>) -> (r: Result<bool, PyObjectRef>)
        ensures
            final(self).log() == old(self).log().push(Event { request, reply: Reply::Truth(r) }),
            replayed(*old(self), *final(self)),
    {
        let r = match self.take() {
            Some(Answer::Truth(truth)) => truth,
            _ => Ok(false),
        };
        self.log = Ghost(self.log@.push(Event { request, reply: Reply::Truth(r) }));
        r
    }

    fn text(&mut self, Ghost(request): Ghost<Request>) -> (r: String)
        ensures
            final(self).log() == old(self).log().push(Event { request, reply: Reply::Text(r@) }),
            replayed(*old(self), *final(self)),
    {
        let r = match self.take() {
            Some(Answer::Text(text)) => text,
            _ => String::new(),
        };
        self.log = Ghost(self.log@.push(Event { request, reply: Reply::Text(r@) }));
        r
    }

    fn kind_of(&mut self, Ghost(request): Ghost<Request>) -> (r: PyObjectKind)
        ensures
            final(self).log() == old(self).log().push(Event { request, reply: Reply::Kind(r) }),
            replayed(*old(self), *final(self)),
    {
        let r = match self.take() {
            Some(Answer::Kind(kind)) => kind,
            _ => PyObjectKind::Other,
        };
        self.log = Ghost(self.log@.push(Event { request, reply: Reply::Kind(r) }));
        r
    }

    fn result(&mut self, Ghost(request): Ghost<Request>) -> (r: PyResult)
        ensures
            final(self).log() == old(self).log().push(Event { request, reply: Reply::Result(r) }),
            replayed(*old(self), *final(self)),
    {
        let r = match self.take() {
            Some(Answer::Result(result)) => result,
            _ => Ok(PyObjectRef { id: 0 }),
        };
        self.log = Ghost(self.log@.push(Event { request, reply: Reply::Result(r) }));
        r
    }

    fn done(&mut self, Ghost(request): Ghost<Request>)
        ensures
            final(self).log() == old(self).log().push(Event { request, reply: Reply::Done }),
            replayed(*old(self), *final(self)),
    {
        self.log = Ghost(self.log@.push(Event { request, reply: Reply::Done }));
    }
}

impl VirtualMachine for Replay {
    closed spec fn log(&self) -> Record {
        self.log@
    }

    fn kind(&mut self, obj: PyObjectRef) -> (r: PyObjectKind)
        ensures
            replayed(*old(self), *final(self)),
    {
        self.kind_of(Ghost(Request::Kind { obj }))
    }

    fn none(&mut self) -> (r: PyObjectRef)
        ensures
            replayed(*old(self), *final(self)),
    {
        self.object(Ghost(Request::NoneObject))
    }

    fn new_int(&mut self, value: i32) -> (r: PyObjectRef)
        ensures
            replayed(*old(self), *final(self)),
    {
        self.object(Ghost(Request::NewInt { value }))
    }

    fn new_float(&mut self, bits: u64) -> (r: PyObjectRef)
        ensures
            replayed(*old(self), *final(self)),
    {
        self.object(Ghost(Request::NewFloat { bits }))
    }

    fn new_str(&mut self, value: &str) -> (r: PyObjectRef)
        ensures
            replayed(*old(self), *final(self)),
    {
        self.object(Ghost(Request::NewStr { value: value@ }))
    }

    fn new_bool(&mut self, value: bool) -> (r: PyObjectRef)
        ensures
            replayed(*old(self), *final(self)),
    {
        self.object(Ghost(Request::NewBool { value }))
    }

    fn new_tuple(&mut self, elements: Vec<PyObjectRef>) -> (r: PyObjectRef)
        ensures
            replayed(*old(self), *final(self)),
    {
        self.object(Ghost(Request::NewTuple { elements: elements@ }))
    }

    fn new_list(&mut self, elements: Vec<PyObjectRef>) -> (r: PyObjectRef)
        ensures
            replayed(*old(self), *final(self)),
    {
        self.object(Ghost(Request::NewList { elements: elements@ }))
    }

    fn new_set(&mut self, elements: Vec<PyObjectRef>) -> (r: PyObjectRef)
        ensures
            replayed(*old(self), *final(self)),
    {
        self.object(Ghost(Request::NewSet { elements: elements@ }))
    }

    fn new_dict(&mut self, entries: Vec<(String, PyObjectRef)>) -> (r: PyObjectRef)
        ensures
            replayed(*old(self), *final(self)),
    {
        self.object(Ghost(Request::NewDict { entries: pyobject::dict_of(entries@) }))
    }

    fn new_slice(
        &mut self,
        start: Option<i32>,
        stop: Option<i32>,
        step: Option<i32>,
    ) -> (r: PyObjectRef)
        ensures
            replayed(*old(self), *final(self)),
    {
        self.object(Ghost(Request::NewSlice { start, stop, step }))
    }

    fn new_code(&mut self, code: &CodeObject) -> (r: PyObjectRef)
        ensures
            replayed(*old(self), *final(self)),
    {
        self.object(Ghost(Request::NewCode { code: *code }))
    }

    fn new_function(
        &mut self,
        code: PyObjectRef,
        scope: PyObjectRef,
        defaults: PyObjectRef,
    ) -> (r: PyObjectRef)
        ensures
            replayed(*old(self), *final(self)),
    {
        self.object(Ghost(Request::NewFunction { code, scope, defaults }))
    }

    fn build_class_function(&mut self) -> (r: PyObjectRef)
        ensures
            replayed(*old(self), *final(self)),
    {
        self.object(Ghost(Request::BuildClassFunction))
    }

    fn new_exception(&mut self, exc_type: ExceptionType, message: &str) -> (r: PyObjectRef)
        ensures
            replayed(*old(self), *final(self)),
    {
        self.object(Ghost(Request::NewException { exc_type, message: message@ }))
    }

    fn is_instance(&mut self, obj: PyObjectRef, exc_type: ExceptionType) -> (r: bool)
        ensures
            replayed(*old(self), *final(self)),
    {
        self.flag(Ghost(Request::IsInstance { obj, exc_type }))
    }

    fn type_of(&mut self, obj: PyObjectRef) -> (r: PyObjectRef)
        ensures
            replayed(*old(self), *final(self)),
    {
        self.object(Ghost(Request::TypeOf { obj }))
    }

    fn name_of_type(&mut self, typ: PyObjectRef) -> (r: String)
        ensures
            replayed(*old(self), *final(self)),
    {
        self.text(Ghost(Request::TypeName { typ }))
    }

    fn debug_text(&mut self, obj: PyObjectRef) -> (r: String)
        ensures
            replayed(*old(self), *final(self)),
    {
        self.text(Ghost(Request::DebugText { obj }))
    }

    fn str_text(&mut self, obj: PyObjectRef) -> (r: String)
        ensures
            replayed(*old(self), *final(self)),
    {
        self.text(Ghost(Request::StrText { obj }))
    }

    fn elements(&mut self, obj: PyObjectRef) -> (r: Option<Vec<PyObjectRef>>)
        ensures
            replayed(*old(self), *final(self)),
    {
        self.objects(Ghost(Request::Elements { obj }))
    }

    fn dict_items(&mut self, obj: PyObjectRef) -> (r: Option<Vec<(String, PyObjectRef)>>)
        ensures
            replayed(*old(self), *final(self)),
    {
        self.items(Ghost(Request::DictItems { obj }))
    }

    fn bool_value(&mut self, obj: PyObjectRef) -> (r: Option<bool>)
        ensures
            replayed(*old(self), *final(self)),
    {
        self.maybe_flag(Ghost(Request::BoolValue { obj }))
    }

    fn boolval(&mut self, obj: PyObjectRef) -> (r: Result<bool, PyObjectRef>)
        ensures
            replayed(*old(self), *final(self)),
    {
        self.truth(Ghost(Request::Truth { obj }))
    }

    fn call_method(&mut self, obj: PyObjectRef, name: &str, args: Vec<PyObjectRef>) -> (r: PyResult)
        ensures
            replayed(*old(self), *final(self)),
    {
        self.result(Ghost(Request::CallMethod { obj, name: name@, args: args@ }))
    }

    fn invoke(&mut self, func: PyObjectRef, args: PyFuncArgs) -> (r: PyResult)
        ensures
            replayed(*old(self), *final(self)),
    {
        self.result(
            Ghost(
                Request::Invoke { func, args: args.args@, kwargs: pyobject::named(args.kwargs@) },
            ),
        )
    }

    fn arithmetic(&mut self, op: BinaryOperator, a: PyObjectRef, b: PyObjectRef) -> (r: PyResult)
        ensures
            replayed(*old(self), *final(self)),
    {
        self.result(Ghost(Request::Arithmetic { op, a, b }))
    }

    fn get_attribute(&mut self, obj: PyObjectRef, name: &str) -> (r: PyResult)
        ensures
            replayed(*old(self), *final(self)),
    {
        self.result(Ghost(Request::GetAttribute { obj, name: name@ }))
    }

    fn set_attr(&mut self, obj: PyObjectRef, name: &str, value: PyObjectRef)
        ensures
            replayed(*old(self), *final(self)),
    {
        self.done(Ghost(Request::SetAttr { obj, name: name@, value }))
    }

    fn set_item(&mut self, scope: PyObjectRef, name: &str, value: PyObjectRef)
        ensures
            replayed(*old(self), *final(self)),
    {
        self.done(Ghost(Request::SetItem { scope, name: name@, value }))
    }

    fn contains_key(&mut self, scope: PyObjectRef, name: &str) -> (r: bool)
        ensures
            replayed(*old(self), *final(self)),
    {
        self.flag(Ghost(Request::ContainsKey { scope, name: name@ }))
    }

    fn get_item(&mut self, scope: PyObjectRef, name: &str) -> (r: Option<PyObjectRef>)
        ensures
            replayed(*old(self), *final(self)),
    {
        self.maybe_object(Ghost(Request::GetItem { scope, name: name@ }))
    }

    fn has_parent(&mut self, scope: PyObjectRef) -> (r: bool)
        ensures
            replayed(*old(self), *final(self)),
    {
        self.flag(Ghost(Request::HasParent { scope }))
    }

    fn get_parent(&mut self, scope: PyObjectRef) -> (r: PyObjectRef)
        ensures
            replayed(*old(self), *final(self)),
    {
        self.object(Ghost(Request::GetParent { scope }))
    }

    fn set_scope_locals(&mut self, scope: PyObjectRef, locals: PyObjectRef)
        ensures
            replayed(*old(self), *final(self)),
    {
        self.done(Ghost(Request::SetScopeLocals { scope, locals }))
    }

    fn list_set_item(
        &mut self,
        list: PyObjectRef,
        index: PyObjectRef,
        value: PyObjectRef,
    ) -> (r: PyResult)
        ensures
            replayed(*old(self), *final(self)),
    {
        self.result(Ghost(Request::ListSetItem { list, index, value }))
    }

    fn list_append(&mut self, list: PyObjectRef, item: PyObjectRef) -> (r: PyResult)
        ensures
            replayed(*old(self), *final(self)),
    {
        self.result(Ghost(Request::ListAppend { list, item }))
    }

    fn get_iter(&mut self, obj: PyObjectRef) -> (r: PyResult)
        ensures
            replayed(*old(self), *final(self)),
    {
        self.result(Ghost(Request::GetIter { obj }))
    }

    fn import(
        &mut self,
        directory: ImportDirectory,
        module: &str,
        symbol: &Option<String>,
    ) -> (r: PyResult)
        ensures
            replayed(*old(self), *final(self)),
    {
        self.result(Ghost(Request::Import { directory, module: module@, symbol: *symbol }))
    }

    fn to_repr(&mut self, obj: PyObjectRef) -> (r: PyResult)
        ensures
            replayed(*old(self), *final(self)),
    {
        self.result(Ghost(Request::ToRepr { obj }))
    }

    fn print(&mut self, obj: PyObjectRef) -> (r: PyResult)
        ensures
            replayed(*old(self), *final(self)),
    {
        self.result(Ghost(Request::Print { obj }))
    }
}

} // verus!
