//! Handles, values and execution contexts.
//!
//! Every operation that needs the engine takes the [`Engine`] to ask, and its
//! contract says over the engine's trace which calls it makes and how its
//! result follows from the replies.
//!
//! A group, a global context and an engine string are counted by the engine.
//! A handle to one of them owns one reference: it gets it where the engine
//! creates or retains the resource, and gives it back in `release`, which
//! takes the handle away. There are no destructors here, so a handle that
//! goes out of scope without `release` leaves its reference with the engine.
//! Values and objects are not counted; they live as long as their context.
use crate::convert::{host_text_read, HostTextError};
use crate::engine::{
    added, asked, continues, lemma_continued, lemma_run_added, ClassDefinition, Engine, EngineCall,
    EngineReply, Exchange, ResourceKind, SlotHandler,
};
use crate::text::{
    c_string, c_string_bytes, first_nul_at, has_nul, lemma_ascii_without_zero_has_no_nul, NulError,
};
use vstd::prelude::*;
use vstd::string::StringExecFns;

verus! {

/// A script execution context that is borrowed, not owned.
#[derive(Copy, Clone, Debug)]
pub struct Context(pub(crate) usize);

/// A retained handle to a context group, the root allocation domain.
#[must_use]
#[derive(Debug)]
pub struct ContextGroup(pub(crate) usize);

/// A retained handle to a global context.
#[must_use]
#[derive(Debug)]
pub struct GlobalContext(pub(crate) usize);

/// A script object together with the context it lives in.
#[derive(Debug)]
pub struct Object(pub(crate) Context, pub(crate) usize);

/// A retained handle to an engine string.
#[must_use]
#[derive(Debug)]
pub struct String(pub(crate) usize);

/// The dynamic type of a script value.
#[derive(Debug, Copy, Clone, PartialEq, Eq, Structural)]
pub enum ValueType {
    Undefined,
    Null,
    Boolean,
    Number,
    String,
    Object,
    Symbol,
}

/// A script value: its handle, the type tag it had when it was wrapped, and
/// the context it was produced in.
#[derive(Debug)]
pub struct Value(pub(crate) usize, pub(crate) ValueType, pub(crate) Context);

/// A script object that was thrown as an error.
#[derive(Debug)]
pub struct Exception(Object);

/// What a [`Value`] is, as plain data.
pub struct ValueView {
    pub raw: usize,
    pub ty: ValueType,
    pub ctx: usize,
}

/// What an [`Object`] is, as plain data.
pub struct ObjectView {
    pub ctx: usize,
    pub raw: usize,
}

impl View for Context {
    type V = usize;

    closed spec fn view(&self) -> usize {
        self.0
    }
}

impl View for ContextGroup {
    type V = usize;

    closed spec fn view(&self) -> usize {
        self.0
    }
}

impl View for GlobalContext {
    type V = usize;

    closed spec fn view(&self) -> usize {
        self.0
    }
}

impl View for String {
    type V = usize;

    closed spec fn view(&self) -> usize {
        self.0
    }
}

impl View for Object {
    type V = ObjectView;

    closed spec fn view(&self) -> ObjectView {
        ObjectView { ctx: self.0.0, raw: self.1 }
    }
}

impl View for Value {
    type V = ValueView;

    closed spec fn view(&self) -> ValueView {
        ValueView { raw: self.0, ty: self.1, ctx: self.2.0 }
    }
}

impl View for Exception {
    type V = ObjectView;

    closed spec fn view(&self) -> ObjectView {
        self.0@
    }
}

impl ValueType {
    /// The type that a tag of the engine stands for.
    pub open spec fn of_tag(tag: u32) -> Option<ValueType> {
        if tag == 0 {
            Some(ValueType::Undefined)
        } else if tag == 1 {
            Some(ValueType::Null)
        } else if tag == 2 {
            Some(ValueType::Boolean)
        } else if tag == 3 {
            Some(ValueType::Number)
        } else if tag == 4 {
            Some(ValueType::String)
        } else if tag == 5 {
            Some(ValueType::Object)
        } else if tag == 6 {
            Some(ValueType::Symbol)
        } else {
            None
        }
    }

    /// The tag of the engine that stands for a type.
    pub open spec fn tag(self) -> u32 {
        match self {
            ValueType::Undefined => 0,
            ValueType::Null => 1,
            ValueType::Boolean => 2,
            ValueType::Number => 3,
            ValueType::String => 4,
            ValueType::Object => 5,
            ValueType::Symbol => 6,
        }
    }

    /// Maps a tag of the engine onto the type it stands for. The engine
    /// defines seven tags; any other number stands for no type.
    pub fn from_tag(tag: u32) -> (ty: Option<ValueType>)
        ensures
            ty == ValueType::of_tag(tag),
            ty is Some <==> tag <= 6,
            ty matches Some(t) ==> t.tag() == tag,
    {
        match tag {
            0 => Some(ValueType::Undefined),
            1 => Some(ValueType::Null),
            2 => Some(ValueType::Boolean),
            3 => Some(ValueType::Number),
            4 => Some(ValueType::String),
            5 => Some(ValueType::Object),
            6 => Some(ValueType::Symbol),
            _ => None,
        }
    }

    /// Asks the engine for the type tag of a raw value and maps it onto the
    /// type it stands for.
    pub fn from<E: Fn(&EngineCall) -> EngineReply>(
        engine: &mut Engine<E>,
        ctx: Context,
        value_ref: usize,
    ) -> (ty: ValueType)
        ensures
            final(engine).handler() == old(engine).handler(),
            final(engine).trace() == old(engine).trace().push(
                asked(
                    (EngineCall::ValueGetType { ctx: ctx@, value: value_ref }),
                    EngineReply::TypeTag(ty.tag()),
                ),
            ),
    {
        let reply = engine.call(EngineCall::ValueGetType { ctx: ctx.0, value: value_ref });
        match reply {
            EngineReply::TypeTag(tag) => match ValueType::from_tag(tag) {
                Some(ty) => ty,
                None => vstd::pervasive::unreached(),
            },
            _ => vstd::pervasive::unreached(),
        }
    }
}

impl Context {
    /// The address of the context.
    pub fn as_raw(&self) -> (raw: usize)
        ensures
            raw == self@,
    {
        self.0
    }

    /// Whether two contexts are the same one.
    pub fn same(&self, other: &Context) -> (same: bool)
        ensures
            same == (self@ == other@),
    {
        self.0 == other.0
    }

    /// The borrowed context at an address. No reference to it is taken.
    pub fn at(raw: usize) -> (ctx: Context)
        ensures
            ctx@ == raw,
    {
        Context(raw)
    }
}

/// What the global context and the borrowed context have in common.
pub trait ContextType {
    /// The address of the context.
    spec fn context_ref(&self) -> usize;

    /// Hands out the address of the context, for further engine calls.
    fn as_ptr(&self) -> (raw: usize)
        ensures
            raw == self.context_ref(),
    ;

    /// Makes the `undefined` value of this context. Its type is known without
    /// asking.
    fn undefined<E: Fn(&EngineCall) -> EngineReply>(&self, engine: &mut Engine<E>) -> (value:
        Value)
        ensures
            final(engine).handler() == old(engine).handler(),
            final(engine).trace() == old(engine).trace().push(
                asked(
                    (EngineCall::ValueMakeUndefined { ctx: self.context_ref() }),
                    EngineReply::Handle(value@.raw),
                ),
            ),
            value@.ty == ValueType::Undefined,
            value@.ctx == self.context_ref(),
    {
        let ptr = self.as_ptr();
        let raw = engine.call_for_handle(EngineCall::ValueMakeUndefined { ctx: ptr });
        Value(raw, ValueType::Undefined, Context(ptr))
    }
}

impl ContextType for GlobalContext {
    open spec fn context_ref(&self) -> usize {
        self@
    }

    fn as_ptr(&self) -> (raw: usize) {
        self.0
    }
}

impl ContextType for Context {
    open spec fn context_ref(&self) -> usize {
        self@
    }

    fn as_ptr(&self) -> (raw: usize) {
        self.0
    }
}

impl ContextGroup {
    /// Creates a context group. The handle owns the reference that the engine
    /// handed out with it.
    pub fn new<E: Fn(&EngineCall) -> EngineReply>(engine: &mut Engine<E>) -> (group: ContextGroup)
        ensures
            final(engine).handler() == old(engine).handler(),
            final(engine).trace() == old(engine).trace().push(
                asked(EngineCall::GroupCreate, EngineReply::Handle(group@)),
            ),
    {
        let ptr = engine.call_for_handle(EngineCall::GroupCreate);
        ContextGroup(ptr)
    }

    /// Creates a global context in this group.
    pub fn create_global_context<E: Fn(&EngineCall) -> EngineReply>(
        &self,
        engine: &mut Engine<E>,
    ) -> (context: GlobalContext)
        ensures
            final(engine).handler() == old(engine).handler(),
            final(engine).trace() == old(engine).trace().push(
                asked(
                    (EngineCall::GlobalContextCreateInGroup { group: self@ }),
                    EngineReply::Handle(context@),
                ),
            ),
    {
        let ptr = engine.call_for_handle(EngineCall::GlobalContextCreateInGroup { group: self.0 });
        GlobalContext(ptr)
    }

    /// Takes one more reference to the group; the new handle owns it.
    pub fn retain<E: Fn(&EngineCall) -> EngineReply>(&self, engine: &mut Engine<E>) -> (copy:
        ContextGroup)
        ensures
            final(engine).handler() == old(engine).handler(),
            final(engine).trace() == old(engine).trace().push(
                asked(
                    (EngineCall::Retain { kind: ResourceKind::Group, handle: self@ }),
                    EngineReply::Handle(copy@),
                ),
            ),
    {
        let ptr = engine.call_for_handle(
            EngineCall::Retain { kind: ResourceKind::Group, handle: self.0 },
        );
        ContextGroup(ptr)
    }

    /// Gives up the reference that this handle owns. The handle is gone.
    pub fn release<E: Fn(&EngineCall) -> EngineReply>(self, engine: &mut Engine<E>)
        ensures
            final(engine).handler() == old(engine).handler(),
            final(engine).trace() == old(engine).trace().push(
                asked(
                    (EngineCall::Release { kind: ResourceKind::Group, handle: self@ }),
                    EngineReply::Unit,
                ),
            ),
    {
        engine.call_for_unit(EngineCall::Release { kind: ResourceKind::Group, handle: self.0 });
    }

    /// The address of the group.
    pub fn as_raw(&self) -> (raw: usize)
        ensures
            raw == self@,
    {
        self.0
    }
}

/// What evaluating a script consists of. The engine is asked to evaluate.
/// Where it leaves the exception slot null, the completion value is the
/// result, wrapped with its type tag, for which the engine is asked next.
/// Where it fills the slot, what it put there is taken for an object and is
/// the error; nothing more is asked.
pub open spec fn evaluation(
    ctx: usize,
    script: usize,
    run: Seq<Exchange>,
    outcome: Result<Value, Exception>,
) -> bool {
    &&& run.len() >= 1
    &&& run[0].call == (EngineCall::EvaluateScript { ctx, script })
    &&& run[0].reply matches EngineReply::Completion { value, exception }
    &&& match outcome {
        Ok(completion) => {
            &&& exception == 0
            &&& run.len() == 2
            &&& run[1].call == (EngineCall::ValueGetType { ctx, value })
            &&& run[1].reply matches EngineReply::TypeTag(tag)
            &&& ValueType::of_tag(tag) matches Some(ty)
            &&& completion@ == (ValueView { raw: value, ty, ctx })
        },
        Err(raised) => {
            &&& exception != 0
            &&& run.len() == 1
            &&& raised@ == (ObjectView { ctx, raw: exception })
        },
    }
}

/// Why a native function could not be installed.
#[derive(Debug, Clone, Copy, PartialEq, Eq, Structural)]
pub enum AddFunctionError {
    /// The name cannot be made into an engine string.
    Name(NulError),
    /// The engine reports no private data on the function object it made.
    NoPrivateData,
}

/// What installing a native function consists of. A name with a zero byte
/// among its UTF-8 bytes is refused before the engine is asked. Else an
/// engine string is made for the name, the global object is fetched, and the
/// function object is made. Where the engine reports private data on it, the
/// function object is wrapped with its type tag and written to the global
/// object under the name. In the end the reference to the name is given up.
pub open spec fn function_added(
    ctx: usize,
    name: Seq<char>,
    callback: usize,
    run: Seq<Exchange>,
    installed: Result<(), AddFunctionError>,
) -> bool {
    if has_nul(name) {
        &&& run.len() == 0
        &&& installed matches Err(AddFunctionError::Name(error))
        &&& first_nul_at(vstd::utf8::encode_utf8(name), error.position as int)
    } else {
        &&& run.len() >= 6
        &&& run[0].call matches EngineCall::StringCreateWithUtf8CString { bytes }
        &&& bytes@ == c_string(name)
        &&& run[0].reply matches EngineReply::Handle(name_ref)
        &&& run[1].call == (EngineCall::ContextGetGlobalObject { ctx })
        &&& run[1].reply matches EngineReply::Handle(global)
        &&& run[2].call == (EngineCall::ClassCreate { definition: function_class(name_ref) })
        &&& run[2].reply matches EngineReply::Handle(class)
        &&& run[3].call == (EngineCall::ObjectMake { ctx, class, private_data: callback })
        &&& run[3].reply matches EngineReply::Handle(function)
        &&& run[4].call == (EngineCall::ObjectGetPrivate { object: function })
        &&& run[4].reply matches EngineReply::Handle(private)
        &&& run.last() == asked(
            (EngineCall::Release { kind: ResourceKind::InternedString, handle: name_ref }),
            EngineReply::Unit,
        )
        &&& if private == 0 {
            &&& run.len() == 6
            &&& installed == Err::<(), AddFunctionError>(AddFunctionError::NoPrivateData)
        } else {
            &&& run.len() == 8
            &&& run[5].call == (EngineCall::ValueGetType { ctx, value: function })
            &&& run[5].reply is TypeTag
            &&& run[6] == asked(
                (EngineCall::ObjectSetProperty {
                    ctx,
                    object: global,
                    name: name_ref,
                    value: function,
                    attributes: 0,
                }),
                EngineReply::Unit,
            )
            &&& installed == Ok::<(), AddFunctionError>(())
        }
    }
}

impl GlobalContext {
    /// Takes one more reference to the context; the new handle owns it.
    pub fn retain<E: Fn(&EngineCall) -> EngineReply>(&self, engine: &mut Engine<E>) -> (copy:
        GlobalContext)
        ensures
            final(engine).handler() == old(engine).handler(),
            final(engine).trace() == old(engine).trace().push(
                asked(
                    (EngineCall::Retain { kind: ResourceKind::GlobalContext, handle: self@ }),
                    EngineReply::Handle(copy@),
                ),
            ),
    {
        let ptr = engine.call_for_handle(
            EngineCall::Retain { kind: ResourceKind::GlobalContext, handle: self.0 },
        );
        GlobalContext(ptr)
    }

    /// Gives up the reference that this handle owns. The handle is gone.
    pub fn release<E: Fn(&EngineCall) -> EngineReply>(self, engine: &mut Engine<E>)
        ensures
            final(engine).handler() == old(engine).handler(),
            final(engine).trace() == old(engine).trace().push(
                asked(
                    (EngineCall::Release { kind: ResourceKind::GlobalContext, handle: self@ }),
                    EngineReply::Unit,
                ),
            ),
    {
        engine.call_for_unit(
            EngineCall::Release { kind: ResourceKind::GlobalContext, handle: self.0 },
        );
    }

    /// The address of the context.
    pub fn as_raw(&self) -> (raw: usize)
        ensures
            raw == self@,
    {
        self.0
    }

    /// This context as a borrowed one.
    pub fn context(&self) -> (ctx: Context)
        ensures
            ctx@ == self@,
    {
        Context(self.0)
    }

    /// The root object of this context.
    pub fn global_object<E: Fn(&EngineCall) -> EngineReply>(&self, engine: &mut Engine<E>) -> (root:
        Object)
        ensures
            final(engine).handler() == old(engine).handler(),
            final(engine).trace() == old(engine).trace().push(
                asked(
                    (EngineCall::ContextGetGlobalObject { ctx: self@ }),
                    EngineReply::Handle(root@.raw),
                ),
            ),
            root@.ctx == self@,
    {
        let ptr = engine.call_for_handle(EngineCall::ContextGetGlobalObject { ctx: self.0 });
        Object(Context(self.0), ptr)
    }

    /// Evaluates a script in the global scope of this context. Returns the
    /// completion value, or the exception that parsing or running raised.
    pub fn evaluate_script_sync<E: Fn(&EngineCall) -> EngineReply>(
        &self,
        engine: &mut Engine<E>,
        script: &String,
    ) -> (outcome: Result<Value, Exception>)
        ensures
            final(engine).handler() == old(engine).handler(),
            continues(old(engine).trace(), final(engine).trace()),
            evaluation(self@, script@, added(old(engine).trace(), final(engine).trace()), outcome),
    {
        let ghost before = engine.trace();
        let (ret, exception) = engine.call_for_completion(
            EngineCall::EvaluateScript { ctx: self.0, script: script.0 },
        );
        let ghost evaluated = asked(
            (EngineCall::EvaluateScript { ctx: self.0, script: script.0 }),
            (EngineReply::Completion { value: ret, exception }),
        );
        if exception == 0 {
            let completion = Value::from(engine, Context(self.0), ret);
            proof {
                let run = seq![
                    evaluated,
                    asked(
                        (EngineCall::ValueGetType { ctx: self.0, value: ret }),
                        EngineReply::TypeTag(completion.1.tag()),
                    ),
                ];
                assert(engine.trace() =~= before + run);
                lemma_run_added(before, run);
            }
            Ok(completion)
        } else {
            proof {
                let run = seq![evaluated];
                assert(engine.trace() =~= before + run);
                lemma_run_added(before, run);
            }
            Err(Exception(Object(Context(self.0), exception)))
        }
    }

    /// Installs a native callback as a function of the given name on the
    /// global object. The callback is given by the one word that identifies
    /// it to the trampoline.
    pub fn add_function<E: Fn(&EngineCall) -> EngineReply>(
        &self,
        engine: &mut Engine<E>,
        name: &str,
        callback: usize,
    ) -> (installed: Result<(), AddFunctionError>)
        ensures
            final(engine).handler() == old(engine).handler(),
            continues(old(engine).trace(), final(engine).trace()),
            function_added(
                self@,
                name@,
                callback,
                added(old(engine).trace(), final(engine).trace()),
                installed,
            ),
    {
        let ghost before = engine.trace();
        let name = match String::new(engine, name) {
            Ok(name) => name,
            Err(error) => {
                return Err(AddFunctionError::Name(error));
            },
        };
        let ghost named = engine.trace();
        let obj = self.global_object(engine);
        let ghost fetched = engine.trace();
        let made = obj.make_function_with_callback(engine, &name, callback);
        let ghost built = engine.trace();
        let ghost name_ref = name@;
        let ghost freed = asked(
            (EngineCall::Release { kind: ResourceKind::InternedString, handle: name_ref }),
            EngineReply::Unit,
        );
        proof {
            lemma_continued(before, named);
            lemma_continued(fetched, built);
        }
        let ghost head = added(before, named) + seq![
            asked(
                (EngineCall::ContextGetGlobalObject { ctx: self.0 }),
                EngineReply::Handle(obj.1),
            ),
        ] + added(fetched, built);
        match made {
            None => {
                name.release(engine);
                proof {
                    let run = head + seq![freed];
                    assert(engine.trace() =~= before + run);
                    lemma_run_added(before, run);
                }
                Err(AddFunctionError::NoPrivateData)
            },
            Some(fn_obj) => {
                let value = Value::from(engine, Context(self.0), fn_obj.1);
                let ghost tagged = asked(
                    (EngineCall::ValueGetType { ctx: self.0, value: fn_obj.1 }),
                    EngineReply::TypeTag(value.1.tag()),
                );
                let ghost written = asked(
                    (EngineCall::ObjectSetProperty {
                        ctx: self.0,
                        object: obj.1,
                        name: name_ref,
                        value: fn_obj.1,
                        attributes: 0,
                    }),
                    EngineReply::Unit,
                );
                obj.set_property(engine, &name, value);
                name.release(engine);
                proof {
                    let run = head + seq![tagged, written, freed];
                    assert(engine.trace() =~= before + run);
                    lemma_run_added(before, run);
                }
                Ok(())
            },
        }
    }
}

/// What making an engine string from host text consists of. Text with a zero
/// byte among its UTF-8 bytes is refused before the engine is asked. For any
/// other text the engine is asked once, with the C string of the text, and the
/// handle owns what it answers.
pub open spec fn string_made(text: Seq<char>, run: Seq<Exchange>, made: Result<String, NulError>) -> bool {
    match made {
        Ok(string) => {
            &&& !has_nul(text)
            &&& run.len() == 1
            &&& run[0].call matches EngineCall::StringCreateWithUtf8CString { bytes }
            &&& bytes@ == c_string(text)
            &&& run[0].reply == EngineReply::Handle(string@)
        },
        Err(error) => {
            &&& has_nul(text)
            &&& first_nul_at(vstd::utf8::encode_utf8(text), error.position as int)
            &&& run.len() == 0
        },
    }
}

impl String {
    /// Makes an engine string that holds a copy of the host text.
    pub fn new<E: Fn(&EngineCall) -> EngineReply>(engine: &mut Engine<E>, s: &str) -> (made: Result<
        String,
        NulError,
    >)
        ensures
            final(engine).handler() == old(engine).handler(),
            continues(old(engine).trace(), final(engine).trace()),
            string_made(s@, added(old(engine).trace(), final(engine).trace()), made),
    {
        let ghost before = engine.trace();
        match c_string_bytes(s) {
            Ok(bytes) => {
                let ghost sent = bytes;
                let v = engine.call_for_handle(EngineCall::StringCreateWithUtf8CString { bytes });
                proof {
                    let run = seq![
                        asked(
                            (EngineCall::StringCreateWithUtf8CString { bytes: sent }),
                            EngineReply::Handle(v),
                        ),
                    ];
                    assert(engine.trace() =~= before + run);
                    lemma_run_added(before, run);
                }
                Ok(String(v))
            },
            Err(error) => {
                proof {
                    assert(engine.trace() =~= before + Seq::<Exchange>::empty());
                    lemma_run_added(before, Seq::<Exchange>::empty());
                }
                Err(error)
            },
        }
    }

    /// Makes a script value of a context out of this string, and hands out its
    /// address.
    pub fn to_js_value<E: Fn(&EngineCall) -> EngineReply>(
        &self,
        engine: &mut Engine<E>,
        ctx: &Context,
    ) -> (value_ref: usize)
        ensures
            final(engine).handler() == old(engine).handler(),
            final(engine).trace() == old(engine).trace().push(
                asked(
                    (EngineCall::ValueMakeString { ctx: ctx@, string: self@ }),
                    EngineReply::Handle(value_ref),
                ),
            ),
    {
        engine.call_for_handle(EngineCall::ValueMakeString { ctx: ctx.0, string: self.0 })
    }

    /// Takes one more reference to the string; the new handle owns it.
    pub fn retain<E: Fn(&EngineCall) -> EngineReply>(&self, engine: &mut Engine<E>) -> (copy: String)
        ensures
            final(engine).handler() == old(engine).handler(),
            final(engine).trace() == old(engine).trace().push(
                asked(
                    (EngineCall::Retain { kind: ResourceKind::InternedString, handle: self@ }),
                    EngineReply::Handle(copy@),
                ),
            ),
    {
        let ptr = engine.call_for_handle(
            EngineCall::Retain { kind: ResourceKind::InternedString, handle: self.0 },
        );
        String(ptr)
    }

    /// Gives up the reference that this handle owns. The handle is gone.
    pub fn release<E: Fn(&EngineCall) -> EngineReply>(self, engine: &mut Engine<E>)
        ensures
            final(engine).handler() == old(engine).handler(),
            final(engine).trace() == old(engine).trace().push(
                asked(
                    (EngineCall::Release { kind: ResourceKind::InternedString, handle: self@ }),
                    EngineReply::Unit,
                ),
            ),
    {
        engine.call_for_unit(
            EngineCall::Release { kind: ResourceKind::InternedString, handle: self.0 },
        );
    }

    /// The address of the string.
    pub fn as_raw(&self) -> (raw: usize)
        ensures
            raw == self@,
    {
        self.0
    }

    /// Wraps a string that the engine handed out together with a reference
    /// to it. The handle owns that reference.
    pub(crate) fn owning(raw: usize) -> (string: String)
        ensures
            string@ == raw,
    {
        String(raw)
    }
}

impl Value {
    /// Wraps a raw value of a context. The engine is asked once for its type
    /// tag, and the answer is kept for as long as the value lives.
    pub fn from<E: Fn(&EngineCall) -> EngineReply>(
        engine: &mut Engine<E>,
        ctx: Context,
        value_ref: usize,
    ) -> (value: Value)
        ensures
            final(engine).handler() == old(engine).handler(),
            final(engine).trace() == old(engine).trace().push(
                asked(
                    (EngineCall::ValueGetType { ctx: ctx@, value: value_ref }),
                    EngineReply::TypeTag(value@.ty.tag()),
                ),
            ),
            value@.raw == value_ref,
            value@.ctx == ctx@,
    {
        let ty = ValueType::from(engine, ctx, value_ref);
        Value(value_ref, ty, ctx)
    }

    /// The type tag that the value had when it was wrapped.
    pub fn js_type(&self) -> (ty: ValueType)
        ensures
            ty == self@.ty,
    {
        self.1
    }

    /// The address of the value.
    pub fn as_raw(&self) -> (raw: usize)
        ensures
            raw == self@.raw,
    {
        self.0
    }

    /// The context that the value was produced in.
    pub fn context(&self) -> (ctx: Context)
        ensures
            ctx@ == self@.ctx,
    {
        self.2
    }
}

/// The class of the function objects that stand for native callbacks: every
/// slot is left to the engine but the one for calls, which points at the
/// trampoline. The name is handed over as the address of the engine string.
pub open spec fn function_class(name: usize) -> ClassDefinition {
    ClassDefinition {
        version: 0,
        attributes: 0,
        class_name: name,
        parent_class: 0,
        static_values: 0,
        static_functions: 0,
        initialize: SlotHandler::Default,
        finalize: SlotHandler::Default,
        has_property: SlotHandler::Default,
        get_property: SlotHandler::Default,
        set_property: SlotHandler::Default,
        delete_property: SlotHandler::Default,
        get_property_names: SlotHandler::Default,
        call_as_function: SlotHandler::Trampoline,
        call_as_constructor: SlotHandler::Default,
        has_instance: SlotHandler::Default,
        convert_to_type: SlotHandler::Default,
    }
}

/// Builds the class definition for a native function of the given name.
pub fn rust_function_defn(name: &String) -> (definition: ClassDefinition)
    ensures
        definition == function_class(name@),
{
    ClassDefinition {
        version: 0,
        attributes: 0,
        class_name: name.0,
        parent_class: 0,
        static_values: 0,
        static_functions: 0,
        initialize: SlotHandler::Default,
        finalize: SlotHandler::Default,
        has_property: SlotHandler::Default,
        get_property: SlotHandler::Default,
        set_property: SlotHandler::Default,
        delete_property: SlotHandler::Default,
        get_property_names: SlotHandler::Default,
        call_as_function: SlotHandler::Trampoline,
        call_as_constructor: SlotHandler::Default,
        has_instance: SlotHandler::Default,
        convert_to_type: SlotHandler::Default,
    }
}

/// The raw value that a completion is about: the exception where one was
/// raised, else the value.
pub open spec fn completed(value: usize, exception: usize) -> usize {
    if exception == 0 {
        value
    } else {
        exception
    }
}

/// What reading a property consists of. The engine is asked for the
/// property. Where it leaves the exception slot null, the value it returned
/// is the result; where it fills the slot, what it put there is the error.
/// Either is wrapped with its type tag, for which the engine is asked next.
pub open spec fn property_read(
    object: ObjectView,
    name: usize,
    run: Seq<Exchange>,
    read: Result<Value, Value>,
) -> bool {
    &&& run.len() == 2
    &&& run[0].call == (EngineCall::ObjectGetProperty { ctx: object.ctx, object: object.raw, name })
    &&& run[0].reply matches EngineReply::Completion { value, exception }
    &&& run[1].call == (EngineCall::ValueGetType {
        ctx: object.ctx,
        value: completed(value, exception),
    })
    &&& run[1].reply matches EngineReply::TypeTag(tag)
    &&& ValueType::of_tag(tag) matches Some(ty)
    &&& match read {
        Ok(found) => exception == 0 && found@ == (ValueView { raw: value, ty, ctx: object.ctx }),
        Err(raised) => exception != 0 && raised@ == (ValueView {
            raw: exception,
            ty,
            ctx: object.ctx,
        }),
    }
}

/// What making the function object for a native callback consists of. A
/// class is created from the definition for the name, and an object of that
/// class is made with the callback's word as its private data. The engine is
/// then asked for the private data of the new object, and the object is the
/// result unless the engine reports none.
pub open spec fn function_made(
    parent: ObjectView,
    name: usize,
    callback: usize,
    run: Seq<Exchange>,
    made: Option<Object>,
) -> bool {
    &&& run.len() == 3
    &&& run[0].call == (EngineCall::ClassCreate { definition: function_class(name) })
    &&& run[0].reply matches EngineReply::Handle(class)
    &&& run[1].call == (EngineCall::ObjectMake { ctx: parent.ctx, class, private_data: callback })
    &&& run[1].reply matches EngineReply::Handle(object)
    &&& run[2].call == (EngineCall::ObjectGetPrivate { object })
    &&& run[2].reply matches EngineReply::Handle(private)
    &&& match made {
        Some(function) => private != 0 && function@ == (ObjectView { ctx: parent.ctx, raw: object }),
        None => private == 0,
    }
}

impl Object {
    /// An object of a context, by its address.
    pub fn at(ctx: Context, raw: usize) -> (object: Object)
        ensures
            object@ == (ObjectView { ctx: ctx@, raw }),
    {
        Object(ctx, raw)
    }

    /// The address of the object.
    pub fn as_raw(&self) -> (raw: usize)
        ensures
            raw == self@.raw,
    {
        self.1
    }

    /// The context that the object lives in.
    pub fn context(&self) -> (ctx: Context)
        ensures
            ctx@ == self@.ctx,
    {
        self.0
    }

    /// The object as a value. Its type is known without asking.
    pub fn to_js_value(&self) -> (value: Value)
        ensures
            value@ == (ValueView { raw: self@.raw, ty: ValueType::Object, ctx: self@.ctx }),
    {
        Value(self.1, ValueType::Object, self.0)
    }

    /// Reads the property of the given name.
    pub fn get_property<E: Fn(&EngineCall) -> EngineReply>(
        &self,
        engine: &mut Engine<E>,
        name: &String,
    ) -> (read: Result<Value, Value>)
        ensures
            final(engine).handler() == old(engine).handler(),
            continues(old(engine).trace(), final(engine).trace()),
            property_read(self@, name@, added(old(engine).trace(), final(engine).trace()), read),
    {
        let ghost before = engine.trace();
        let (ret, exception) = engine.call_for_completion(
            EngineCall::ObjectGetProperty { ctx: self.0.0, object: self.1, name: name.0 },
        );
        let subject = if exception == 0 {
            ret
        } else {
            exception
        };
        let wrapped = Value::from(engine, self.0, subject);
        proof {
            let run = seq![
                asked(
                    (EngineCall::ObjectGetProperty { ctx: self.0.0, object: self.1, name: name.0 }),
                    (EngineReply::Completion { value: ret, exception }),
                ),
                asked(
                    (EngineCall::ValueGetType { ctx: self.0.0, value: subject }),
                    EngineReply::TypeTag(wrapped.1.tag()),
                ),
            ];
            assert(engine.trace() =~= before + run);
            lemma_run_added(before, run);
        }
        if exception == 0 {
            Ok(wrapped)
        } else {
            Err(wrapped)
        }
    }

    /// Writes the property of the given name, with no attributes. Whatever
    /// the engine might raise on the write is not looked at.
    ///
    /// The value has to come from the context that the object lives in.
    pub fn set_property<E: Fn(&EngineCall) -> EngineReply>(
        &self,
        engine: &mut Engine<E>,
        name: &String,
        value: Value,
    )
        requires
            value@.ctx == self@.ctx,
        ensures
            final(engine).handler() == old(engine).handler(),
            final(engine).trace() == old(engine).trace().push(
                asked(
                    (EngineCall::ObjectSetProperty {
                        ctx: self@.ctx,
                        object: self@.raw,
                        name: name@,
                        value: value@.raw,
                        attributes: 0,
                    }),
                    EngineReply::Unit,
                ),
            ),
    {
        engine.call_for_unit(
            EngineCall::ObjectSetProperty {
                ctx: self.0.0,
                object: self.1,
                name: name.0,
                value: value.0,
                attributes: 0,
            },
        );
    }

    /// Makes a function object that calls a native callback. The callback is
    /// given by the one word that identifies it; the engine keeps the word as
    /// the private data of the object and hands it to the trampoline on each
    /// call. The class that is created on the way stays with the engine.
    pub fn make_function_with_callback<E: Fn(&EngineCall) -> EngineReply>(
        &self,
        engine: &mut Engine<E>,
        name: &String,
        callback: usize,
    ) -> (made: Option<Object>)
        ensures
            final(engine).handler() == old(engine).handler(),
            continues(old(engine).trace(), final(engine).trace()),
            function_made(
                self@,
                name@,
                callback,
                added(old(engine).trace(), final(engine).trace()),
                made,
            ),
    {
        let ghost before = engine.trace();
        let definition = rust_function_defn(name);
        let cls = engine.call_for_handle(EngineCall::ClassCreate { definition });
        let ptr = engine.call_for_handle(
            EngineCall::ObjectMake { ctx: self.0.0, class: cls, private_data: callback },
        );
        let private = engine.call_for_handle(EngineCall::ObjectGetPrivate { object: ptr });
        proof {
            let run = seq![
                asked((EngineCall::ClassCreate { definition }), EngineReply::Handle(cls)),
                asked(
                    (EngineCall::ObjectMake { ctx: self.0.0, class: cls, private_data: callback }),
                    EngineReply::Handle(ptr),
                ),
                asked((EngineCall::ObjectGetPrivate { object: ptr }), EngineReply::Handle(private)),
            ];
            assert(engine.trace() =~= before + run);
            lemma_run_added(before, run);
        }
        if private == 0 {
            None
        } else {
            Some(Object(self.0, ptr))
        }
    }
}

/// Why a field of an exception could not be read as text.
#[derive(Debug)]
pub enum ExceptionError {
    /// Reading the property raised what is given here.
    Raised(Value),
    /// The property was read, but it holds no text.
    NotText(HostTextError),
}

/// What reading a text field of an exception consists of. An engine string
/// is made for the name of the field, the property of that name is read, and
/// the reference to the name is given up. Where the read raised, that is the
/// error. Else what was read is read as host text.
pub open spec fn field_read(
    exception: ObjectView,
    field: Seq<char>,
    run: Seq<Exchange>,
    read: Result<std::string::String, ExceptionError>,
) -> bool {
    &&& run.len() >= 4
    &&& run[0].call matches EngineCall::StringCreateWithUtf8CString { bytes }
    &&& bytes@ == c_string(field)
    &&& run[0].reply matches EngineReply::Handle(name)
    &&& run[1].call == (EngineCall::ObjectGetProperty {
        ctx: exception.ctx,
        object: exception.raw,
        name,
    })
    &&& run[1].reply matches EngineReply::Completion { value, exception: raised }
    &&& run[2].call == (EngineCall::ValueGetType {
        ctx: exception.ctx,
        value: completed(value, raised),
    })
    &&& run[2].reply matches EngineReply::TypeTag(tag)
    &&& ValueType::of_tag(tag) matches Some(ty)
    &&& run[3] == asked(
        (EngineCall::Release { kind: ResourceKind::InternedString, handle: name }),
        EngineReply::Unit,
    )
    &&& if raised != 0 {
        &&& run.len() == 4
        &&& read matches Err(ExceptionError::Raised(thrown))
        &&& thrown@ == (ValueView { raw: raised, ty, ctx: exception.ctx })
    } else {
        match read {
            Ok(text) => host_text_read(
                (ValueView { raw: value, ty, ctx: exception.ctx }),
                run.skip(4),
                Ok(text),
            ),
            Err(ExceptionError::NotText(error)) => host_text_read(
                (ValueView { raw: value, ty, ctx: exception.ctx }),
                run.skip(4),
                Err(error),
            ),
            Err(ExceptionError::Raised(_)) => false,
        }
    }
}

impl Exception {
    /// The thrown object.
    pub fn as_object(&self) -> (object: &Object)
        ensures
            object@ == self@,
    {
        &self.0
    }

    /// Takes an object for an exception.
    pub fn from_object(object: Object) -> (exception: Exception)
        ensures
            exception@ == object@,
    {
        Exception(object)
    }

    fn text_field<E: Fn(&EngineCall) -> EngineReply>(
        &self,
        engine: &mut Engine<E>,
        field: &str,
    ) -> (read: Result<std::string::String, ExceptionError>)
        requires
            !has_nul(field@),
        ensures
            final(engine).handler() == old(engine).handler(),
            continues(old(engine).trace(), final(engine).trace()),
            field_read(self@, field@, added(old(engine).trace(), final(engine).trace()), read),
    {
        let ghost before = engine.trace();
        let name = match String::new(engine, field) {
            Ok(name) => name,
            Err(_) => vstd::pervasive::unreached(),
        };
        let ghost named = engine.trace();
        let property = self.0.get_property(engine, &name);
        let ghost got = engine.trace();
        let ghost name_ref = name@;
        name.release(engine);
        let ghost released = engine.trace();
        let ghost freed = asked(
            (EngineCall::Release { kind: ResourceKind::InternedString, handle: name_ref }),
            EngineReply::Unit,
        );
        proof {
            lemma_continued(before, named);
            lemma_continued(named, got);
        }
        match property {
            Err(thrown) => {
                proof {
                    let run = added(before, named) + added(named, got) + seq![freed];
                    assert(engine.trace() =~= before + run);
                    lemma_run_added(before, run);
                }
                Err(ExceptionError::Raised(thrown))
            },
            Ok(value) => {
                let read = value.to_host_string(engine);
                proof {
                    lemma_continued(released, engine.trace());
                    let tail = added(released, engine.trace());
                    let run = added(before, named) + added(named, got) + seq![freed] + tail;
                    assert(engine.trace() =~= before + run);
                    lemma_run_added(before, run);
                    assert(run.skip(4) =~= tail);
                }
                match read {
                    Ok(text) => Ok(text),
                    Err(error) => Err(ExceptionError::NotText(error)),
                }
            },
        }
    }

    /// The `stack` field of the exception, as host text.
    pub fn stack<E: Fn(&EngineCall) -> EngineReply>(&self, engine: &mut Engine<E>) -> (read: Result<
        std::string::String,
        ExceptionError,
    >)
        ensures
            final(engine).handler() == old(engine).handler(),
            continues(old(engine).trace(), final(engine).trace()),
            field_read(self@, "stack"@, added(old(engine).trace(), final(engine).trace()), read),
    {
        proof {
            reveal_strlit("stack");
            lemma_ascii_without_zero_has_no_nul("stack"@);
        }
        self.text_field(engine, "stack")
    }

    /// The `message` field of the exception, as host text.
    pub fn message<E: Fn(&EngineCall) -> EngineReply>(&self, engine: &mut Engine<E>) -> (read:
        Result<std::string::String, ExceptionError>)
        ensures
            final(engine).handler() == old(engine).handler(),
            continues(old(engine).trace(), final(engine).trace()),
            field_read(self@, "message"@, added(old(engine).trace(), final(engine).trace()), read),
    {
        proof {
            reveal_strlit("message");
            lemma_ascii_without_zero_has_no_nul("message"@);
        }
        self.text_field(engine, "message")
    }

    /// The text that an exception with the given message and stack is
    /// printed as: the message on a line of its own after `Message: `, then a
    /// line `Stack:`, then the stack.
    pub fn display_text(message: &str, stack: &str) -> (text: std::string::String)
        ensures
            text@ == "Message: "@ + message@ + "\nStack:\n"@ + stack@,
    {
        let mut text = std::string::String::from_str("Message: ");
        text.append(message);
        text.append("\nStack:\n");
        text.append(stack);
        text
    }
}

} // verus!
