//! The boundary between this crate and the scripting engine.
//!
//! The crate holds no foreign call of its own. Whatever it wants from the
//! engine it writes down as an [`EngineCall`] and passes to a handler that the
//! host supplies; the handler performs the call and hands back an
//! [`EngineReply`]. Opaque engine pointers cross the boundary as the addresses
//! they hold, and a null pointer is the address zero.
//!
//! [`Engine`] wraps the handler and keeps, as ghost state, the list of every
//! exchange made through it. The contracts of this crate are stated over that
//! list: they say which calls a function makes, in which order and with which
//! arguments, and how its result follows from the replies.
use vstd::pervasive::unreached;
use vstd::prelude::*;

verus! {

/// The kinds of reference-counted engine resource.
#[derive(Clone, Copy, Debug, PartialEq, Eq, Structural)]
pub enum ResourceKind {
    Group,
    GlobalContext,
    InternedString,
}

/// What stands in a callback slot of a class definition.
#[derive(Clone, Copy, Debug, PartialEq, Eq, Structural)]
pub enum SlotHandler {
    /// The slot is left empty and the engine's default behaviour applies.
    Default,
    /// The slot points at the native callback trampoline.
    Trampoline,
}

/// The description of a script class, as the engine's class constructor reads it.
#[derive(Clone, Copy, Debug, PartialEq, Eq, Structural)]
pub struct ClassDefinition {
    pub version: i32,
    pub attributes: u32,
    /// The address that is handed over as the class name.
    pub class_name: usize,
    pub parent_class: usize,
    pub static_values: usize,
    pub static_functions: usize,
    pub initialize: SlotHandler,
    pub finalize: SlotHandler,
    pub has_property: SlotHandler,
    pub get_property: SlotHandler,
    pub set_property: SlotHandler,
    pub delete_property: SlotHandler,
    pub get_property_names: SlotHandler,
    pub call_as_function: SlotHandler,
    pub call_as_constructor: SlotHandler,
    pub has_instance: SlotHandler,
    pub convert_to_type: SlotHandler,
}

/// One request to the engine.
///
/// Each variant but the last names one entry point of the engine and carries
/// its arguments. Where the entry point has an exception slot that the variant
/// does not answer with a [`EngineReply::Completion`], the slot is not used.
#[derive(Debug)]
pub enum EngineCall {
    /// Create a context group. Answered by its handle.
    GroupCreate,
    /// Create a global context in a group, with the default global object class.
    GlobalContextCreateInGroup { group: usize },
    /// Take one more reference to a resource. Answered by the retained handle.
    Retain { kind: ResourceKind, handle: usize },
    /// Give up one reference to a resource.
    Release { kind: ResourceKind, handle: usize },
    /// The global object of a context.
    ContextGetGlobalObject { ctx: usize },
    /// Evaluate a script with the global object as `this`, no source URL and
    /// starting line zero. Answered by the completion value and the exception slot.
    EvaluateScript { ctx: usize, script: usize },
    /// The type tag of a value.
    ValueGetType { ctx: usize, value: usize },
    /// The `undefined` value of a context.
    ValueMakeUndefined { ctx: usize },
    /// A string value made from an engine string.
    ValueMakeString { ctx: usize, string: usize },
    /// The boolean that a value converts to.
    ValueToBoolean { ctx: usize, value: usize },
    /// The number that a value converts to, as the bits of a double.
    ValueToNumber { ctx: usize, value: usize },
    /// A fresh engine string holding what a value converts to.
    ValueToStringCopy { ctx: usize, value: usize },
    /// Create a class from a definition.
    ClassCreate { definition: ClassDefinition },
    /// Make an object of a class, with a word of private data.
    ObjectMake { ctx: usize, class: usize, private_data: usize },
    /// The private data of an object.
    ObjectGetPrivate { object: usize },
    /// Read a property. Answered by the value and the exception slot.
    ObjectGetProperty { ctx: usize, object: usize, name: usize },
    /// Write a property.
    ObjectSetProperty { ctx: usize, object: usize, name: usize, value: usize, attributes: u32 },
    /// The names of the enumerable properties of an object, as a name array.
    ObjectCopyPropertyNames { ctx: usize, object: usize },
    /// The number of names in a name array.
    PropertyNameArrayGetCount { array: usize },
    /// The name at an index of a name array. The array keeps its reference.
    PropertyNameArrayGetNameAtIndex { array: usize, index: usize },
    /// Create an engine string from bytes that end in a zero byte.
    StringCreateWithUtf8CString { bytes: Vec<u8> },
    /// An upper bound on the bytes an engine string takes as a C string.
    StringGetMaximumUtf8CStringSize { string: usize },
    /// Write an engine string as a C string into a buffer of the given size.
    /// Answered by the buffer and the number of bytes written.
    StringGetUtf8CString { string: usize, buffer_size: usize },
    /// Not an entry point of the engine: the host prints a double, given by
    /// its bits, in its default format. This crate holds no floating point.
    NumberToText { bits: u64 },
}

/// What comes back from the engine for one request.
#[derive(Debug)]
pub enum EngineReply {
    Unit,
    Handle(usize),
    Completion { value: usize, exception: usize },
    TypeTag(u32),
    Boolean(bool),
    Number(u64),
    Size(usize),
    Utf8 { buffer: Vec<u8>, written: usize },
    Text(String),
}

impl EngineReply {
    /// Whether this reply has the shape that the call asks for.
    ///
    /// Besides the shape, a type tag is one of the seven that the engine
    /// defines, and the string copy of a value is not null.
    pub open spec fn answers(self, call: EngineCall) -> bool {
        match call {
            EngineCall::GroupCreate => self is Handle,
            EngineCall::GlobalContextCreateInGroup { .. } => self is Handle,
            EngineCall::Retain { .. } => self is Handle,
            EngineCall::Release { .. } => self is Unit,
            EngineCall::ContextGetGlobalObject { .. } => self is Handle,
            EngineCall::EvaluateScript { .. } => self is Completion,
            EngineCall::ValueGetType { .. } => self matches EngineReply::TypeTag(tag) && tag <= 6,
            EngineCall::ValueMakeUndefined { .. } => self is Handle,
            EngineCall::ValueMakeString { .. } => self is Handle,
            EngineCall::ValueToBoolean { .. } => self is Boolean,
            EngineCall::ValueToNumber { .. } => self is Number,
            EngineCall::ValueToStringCopy { .. } => self matches EngineReply::Handle(copy) && copy
                != 0,
            EngineCall::ClassCreate { .. } => self is Handle,
            EngineCall::ObjectMake { .. } => self is Handle,
            EngineCall::ObjectGetPrivate { .. } => self is Handle,
            EngineCall::ObjectGetProperty { .. } => self is Completion,
            EngineCall::ObjectSetProperty { .. } => self is Unit,
            EngineCall::ObjectCopyPropertyNames { .. } => self is Handle,
            EngineCall::PropertyNameArrayGetCount { .. } => self is Size,
            EngineCall::PropertyNameArrayGetNameAtIndex { .. } => self is Handle,
            EngineCall::StringCreateWithUtf8CString { .. } => self is Handle,
            EngineCall::StringGetMaximumUtf8CStringSize { .. } => self is Size,
            EngineCall::StringGetUtf8CString { .. } => self is Utf8,
            EngineCall::NumberToText { .. } => self is Text,
        }
    }

    /// Tests whether this reply has the shape that the call asks for.
    ///
    /// A handler that cannot rule out a misshapen reply by construction tests
    /// each reply with this before it hands it over.
    pub fn is_answer_to(&self, call: &EngineCall) -> (fits: bool)
        ensures
            fits == self.answers(*call),
    {
        match call {
            EngineCall::GroupCreate
            | EngineCall::GlobalContextCreateInGroup { .. }
            | EngineCall::Retain { .. }
            | EngineCall::ContextGetGlobalObject { .. }
            | EngineCall::ValueMakeUndefined { .. }
            | EngineCall::ValueMakeString { .. }
            | EngineCall::ClassCreate { .. }
            | EngineCall::ObjectMake { .. }
            | EngineCall::ObjectGetPrivate { .. }
            | EngineCall::ObjectCopyPropertyNames { .. }
            | EngineCall::PropertyNameArrayGetNameAtIndex { .. }
            | EngineCall::StringCreateWithUtf8CString { .. } => match self {
                EngineReply::Handle(_) => true,
                _ => false,
            },
            EngineCall::ValueToStringCopy { .. } => match self {
                EngineReply::Handle(copy) => *copy != 0,
                _ => false,
            },
            EngineCall::Release { .. } | EngineCall::ObjectSetProperty { .. } => match self {
                EngineReply::Unit => true,
                _ => false,
            },
            EngineCall::EvaluateScript { .. } | EngineCall::ObjectGetProperty { .. } => match self {
                EngineReply::Completion { .. } => true,
                _ => false,
            },
            EngineCall::ValueGetType { .. } => match self {
                EngineReply::TypeTag(tag) => *tag <= 6,
                _ => false,
            },
            EngineCall::ValueToBoolean { .. } => match self {
                EngineReply::Boolean(_) => true,
                _ => false,
            },
            EngineCall::ValueToNumber { .. } => match self {
                EngineReply::Number(_) => true,
                _ => false,
            },
            EngineCall::PropertyNameArrayGetCount { .. }
            | EngineCall::StringGetMaximumUtf8CStringSize { .. } => match self {
                EngineReply::Size(_) => true,
                _ => false,
            },
            EngineCall::StringGetUtf8CString { .. } => match self {
                EngineReply::Utf8 { .. } => true,
                _ => false,
            },
            EngineCall::NumberToText { .. } => match self {
                EngineReply::Text(_) => true,
                _ => false,
            },
        }
    }
}

/// A request together with the reply it got.
pub struct Exchange {
    pub call: EngineCall,
    pub reply: EngineReply,
}

/// The exchange of a call and its reply.
pub open spec fn asked(call: EngineCall, reply: EngineReply) -> Exchange {
    Exchange { call, reply }
}

/// Whether `after` continues `before`: everything in `before` is still there,
/// in place, and exchanges were only added at the end.
pub open spec fn continues(before: Seq<Exchange>, after: Seq<Exchange>) -> bool {
    before.len() <= after.len() && after.take(before.len() as int) == before
}

/// The exchanges of `after` that came on top of `before`.
pub open spec fn added(before: Seq<Exchange>, after: Seq<Exchange>) -> Seq<Exchange> {
    after.skip(before.len() as int)
}

/// Whether a handler accepts every request and shapes every reply as the
/// request asks.
pub open spec fn conforms<E: Fn(&EngineCall) -> EngineReply>(handler: E) -> bool {
    &&& forall|call: &EngineCall| call_requires(handler, (call,))
    &&& forall|call: &EngineCall, reply: EngineReply|
        call_ensures(handler, (call,), reply) ==> reply.answers(*call)
}

/// A handler for engine calls, with the record of what went through it.
pub struct Engine<E: Fn(&EngineCall) -> EngineReply> {
    handler: E,
    trace: Ghost<Seq<Exchange>>,
}

impl<E: Fn(&EngineCall) -> EngineReply> Engine<E> {
    #[verifier::type_invariant]
    spec fn sound(self) -> bool {
        &&& conforms(self.handler)
        &&& forall|i: int|
            0 <= i < self.trace@.len() ==> call_ensures(
                self.handler,
                (&(#[trigger] self.trace@[i]).call,),
                self.trace@[i].reply,
            )
    }

    /// The handler that performs the calls.
    pub closed spec fn handler(&self) -> E {
        self.handler
    }

    /// Every exchange made through this engine so far, oldest first.
    pub closed spec fn trace(&self) -> Seq<Exchange> {
        self.trace@
    }

    /// Lets the caller know that every reply in the trace is one that the
    /// handler gave to the call it stands with. Does nothing when it runs.
    pub fn recall(&self)
        ensures
            conforms(self.handler()),
            forall|i: int|
                0 <= i < self.trace().len() ==> call_ensures(
                    self.handler(),
                    (&(#[trigger] self.trace()[i]).call,),
                    self.trace()[i].reply,
                ),
    {
        proof {
            use_type_invariant(self);
        }
    }

    /// Wraps a handler. Nothing has been asked yet.
    pub fn new(handler: E) -> (engine: Engine<E>)
        requires
            conforms(handler),
        ensures
            engine.handler() == handler,
            engine.trace() == Seq::<Exchange>::empty(),
    {
        Engine { handler, trace: Ghost(Seq::empty()) }
    }

    /// Makes one call and records it.
    pub fn call(&mut self, call: EngineCall) -> (reply: EngineReply)
        ensures
            final(self).handler() == old(self).handler(),
            final(self).trace() == old(self).trace().push(asked(call, reply)),
            call_ensures(old(self).handler(), (&call,), reply),
            reply.answers(call),
    {
        proof {
            use_type_invariant(&*self);
        }
        let reply = (self.handler)(&call);
        proof {
            self.trace@ = self.trace@.push(asked(call, reply));
        }
        reply
    }

    /// Makes a call that is answered by a handle.
    pub fn call_for_handle(&mut self, call: EngineCall) -> (handle: usize)
        requires
            forall|reply: EngineReply| reply.answers(call) ==> reply is Handle,
        ensures
            final(self).handler() == old(self).handler(),
            final(self).trace() == old(self).trace().push(asked(call, EngineReply::Handle(handle))),
            EngineReply::Handle(handle).answers(call),
    {
        match self.call(call) {
            EngineReply::Handle(handle) => handle,
            _ => unreached(),
        }
    }

    /// Makes a call that is answered by nothing.
    pub fn call_for_unit(&mut self, call: EngineCall)
        requires
            forall|reply: EngineReply| reply.answers(call) ==> reply is Unit,
        ensures
            final(self).handler() == old(self).handler(),
            final(self).trace() == old(self).trace().push(asked(call, EngineReply::Unit)),
    {
        match self.call(call) {
            EngineReply::Unit => {},
            _ => unreached(),
        }
    }

    /// Makes a call that is answered by a value and an exception slot.
    pub fn call_for_completion(&mut self, call: EngineCall) -> (completion: (usize, usize))
        requires
            forall|reply: EngineReply| reply.answers(call) ==> reply is Completion,
        ensures
            final(self).handler() == old(self).handler(),
            final(self).trace() == old(self).trace().push(
                asked(call, EngineReply::Completion { value: completion.0, exception: completion.1 }),
            ),
    {
        match self.call(call) {
            EngineReply::Completion { value, exception } => (value, exception),
            _ => unreached(),
        }
    }

    /// Makes a call that is answered by a size.
    pub fn call_for_size(&mut self, call: EngineCall) -> (size: usize)
        requires
            forall|reply: EngineReply| reply.answers(call) ==> reply is Size,
        ensures
            final(self).handler() == old(self).handler(),
            final(self).trace() == old(self).trace().push(asked(call, EngineReply::Size(size))),
    {
        match self.call(call) {
            EngineReply::Size(size) => size,
            _ => unreached(),
        }
    }
}

/// A trace with a run put after it continues the trace, and the run is what
/// was added.
pub proof fn lemma_run_added(before: Seq<Exchange>, run: Seq<Exchange>)
    ensures
        continues(before, before + run),
        added(before, before + run) == run,
{
    assert((before + run).take(before.len() as int) =~= before);
    assert((before + run).skip(before.len() as int) =~= run);
}

/// A trace that continues another is that other followed by what was added.
pub proof fn lemma_continued(before: Seq<Exchange>, after: Seq<Exchange>)
    requires
        continues(before, after),
    ensures
        after == before + added(before, after),
{
    assert(after =~= after.take(before.len() as int) + after.skip(before.len() as int));
}

/// Continuing twice is continuing once, and what was added is the two runs
/// one after the other.
pub proof fn lemma_continued_twice(first: Seq<Exchange>, second: Seq<Exchange>, third: Seq<Exchange>)
    requires
        continues(first, second),
        continues(second, third),
    ensures
        continues(first, third),
        added(first, third) == added(first, second) + added(second, third),
{
    lemma_continued(first, second);
    lemma_continued(second, third);
    let run = added(first, second) + added(second, third);
    assert(third =~= first + run);
    lemma_run_added(first, run);
}

/// One more exchange on a trace that continues another still continues it,
/// and is one more exchange added.
pub proof fn lemma_continued_push(before: Seq<Exchange>, after: Seq<Exchange>, next: Exchange)
    requires
        continues(before, after),
    ensures
        continues(before, after.push(next)),
        added(before, after.push(next)) == added(before, after).push(next),
{
    lemma_continued(before, after);
    let run = added(before, after).push(next);
    assert(after.push(next) =~= before + run);
    lemma_run_added(before, run);
}

} // verus!
