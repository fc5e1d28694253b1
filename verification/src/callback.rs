//! The way of a script call into a native callback and back.
//!
//! The engine calls a native function with a context, the object that `this`
//! stands for and an array of raw arguments, and takes back a raw result and,
//! through a slot, an exception. A native callback takes the context, the
//! object and the arguments as typed values, and answers with a value or with
//! an engine string that says what went wrong.
//!
//! Which callback a function object stands for is kept as one word in the
//! private data of the object. Turning that word back into something that can
//! be called is left to the host; the trampoline here takes the callback as
//! it is.
use crate::engine::{
    added, asked, continues, lemma_continued, lemma_continued_push, lemma_run_added, Engine,
    EngineCall, EngineReply, Exchange, ResourceKind,
};
use crate::types::{Context, ContextType, Object, ObjectView, String, Value};
use vstd::prelude::*;

verus! {

/// What goes back to the engine from a call of a native function.
#[derive(Debug, Clone, Copy, PartialEq, Eq)]
pub struct TrampolineReturn {
    /// The raw value that the call returns.
    pub result: usize,
    /// What is to be written into the exception slot; `None` leaves the slot
    /// as it is.
    pub exception: Option<usize>,
}

/// What wrapping the arguments of a call consists of: the engine is asked for
/// the type tag of each raw argument, in order, and each becomes a value of
/// the context with the tag it was given. There are as many values as raw
/// arguments.
pub open spec fn arguments_wrapped(
    ctx: usize,
    arguments: Seq<usize>,
    run: Seq<Exchange>,
    values: Seq<Value>,
) -> bool {
    &&& run.len() == arguments.len()
    &&& values.len() == arguments.len()
    &&& forall|i: int|
        0 <= i < arguments.len() ==> {
            &&& #[trigger] run[i] == asked(
                (EngineCall::ValueGetType { ctx, value: arguments[i] }),
                EngineReply::TypeTag(values[i]@.ty.tag()),
            )
            &&& values[i]@.raw == arguments[i]
            &&& values[i]@.ctx == ctx
        }
}

/// What handing the answer of a callback to the engine consists of. A value
/// goes back as it is, and nothing is asked. An error is made into a script
/// string, which goes into the exception slot; the call then returns the
/// `undefined` value of the context, and the reference to the error's string
/// is given up.
pub open spec fn answer_returned(
    ctx: usize,
    outcome: Result<Value, String>,
    run: Seq<Exchange>,
    returned: TrampolineReturn,
) -> bool {
    match outcome {
        Ok(value) => {
            &&& run.len() == 0
            &&& returned.result == value@.raw
            &&& returned.exception is None
        },
        Err(message) => {
            &&& run.len() == 3
            &&& run[0].call == (EngineCall::ValueMakeString { ctx, string: message@ })
            &&& run[0].reply matches EngineReply::Handle(thrown)
            &&& run[1].call == (EngineCall::ValueMakeUndefined { ctx })
            &&& run[1].reply matches EngineReply::Handle(placeholder)
            &&& run[2] == asked(
                (EngineCall::Release { kind: ResourceKind::InternedString, handle: message@ }),
                EngineReply::Unit,
            )
            &&& returned.result == placeholder
            &&& returned.exception == Some(thrown)
        },
    }
}

/// Reads back the word that identifies the callback of a function object:
/// the private data that the object was made with.
pub fn callback_word<E: Fn(&EngineCall) -> EngineReply>(
    engine: &mut Engine<E>,
    function: usize,
) -> (word: usize)
    ensures
        final(engine).handler() == old(engine).handler(),
        final(engine).trace() == old(engine).trace().push(
            asked((EngineCall::ObjectGetPrivate { object: function }), EngineReply::Handle(word)),
        ),
{
    engine.call_for_handle(EngineCall::ObjectGetPrivate { object: function })
}

/// Wraps the raw arguments of a call as values of the context, in order.
pub fn callback_arguments<E: Fn(&EngineCall) -> EngineReply>(
    engine: &mut Engine<E>,
    ctx: Context,
    arguments: &Vec<usize>,
) -> (values: Vec<Value>)
    ensures
        final(engine).handler() == old(engine).handler(),
        continues(old(engine).trace(), final(engine).trace()),
        arguments_wrapped(
            ctx@,
            arguments@,
            added(old(engine).trace(), final(engine).trace()),
            values@,
        ),
{
    let ghost before = engine.trace();
    let ghost handler = engine.handler();
    let mut values: Vec<Value> = Vec::new();
    let mut i: usize = 0;
    proof {
        lemma_run_added(before, Seq::<Exchange>::empty());
        assert(before + Seq::<Exchange>::empty() =~= before);
    }
    while i < arguments.len()
        invariant
            i <= arguments@.len(),
            engine.handler() == handler,
            continues(before, engine.trace()),
            arguments_wrapped(ctx@, arguments@.take(i as int), added(before, engine.trace()), values@),
        decreases arguments@.len() - i,
    {
        let ghost so_far = engine.trace();
        let ghost wrapped = values@;
        let value = Value::from(engine, ctx, arguments[i]);
        proof {
            let next = asked(
                (EngineCall::ValueGetType { ctx: ctx@, value: arguments@[i as int] }),
                EngineReply::TypeTag(value@.ty.tag()),
            );
            lemma_continued_push(before, so_far, next);
        }
        values.push(value);
        i += 1;
        proof {
            let run = added(before, engine.trace());
            assert forall|j: int| 0 <= j < i implies {
                &&& #[trigger] run[j] == asked(
                    (EngineCall::ValueGetType { ctx: ctx@, value: arguments@.take(i as int)[j] }),
                    EngineReply::TypeTag(values@[j]@.ty.tag()),
                )
                &&& values@[j]@.raw == arguments@.take(i as int)[j]
                &&& values@[j]@.ctx == ctx@
            } by {
                if j < i - 1 {
                    assert(run[j] == added(before, so_far)[j]);
                    assert(values@[j] == wrapped[j]);
                    assert(arguments@.take(i as int)[j] == arguments@.take(i - 1)[j]);
                }
            }
        }
    }
    proof {
        assert(arguments@.take(i as int) =~= arguments@);
    }
    values
}

/// Hands the answer of a callback to the engine.
pub fn callback_return<E: Fn(&EngineCall) -> EngineReply>(
    engine: &mut Engine<E>,
    ctx: Context,
    outcome: Result<Value, String>,
) -> (returned: TrampolineReturn)
    ensures
        final(engine).handler() == old(engine).handler(),
        continues(old(engine).trace(), final(engine).trace()),
        answer_returned(ctx@, outcome, added(old(engine).trace(), final(engine).trace()), returned),
{
    let ghost before = engine.trace();
    match outcome {
        Ok(v) => {
            proof {
                assert(engine.trace() =~= before + Seq::<Exchange>::empty());
                lemma_run_added(before, Seq::<Exchange>::empty());
            }
            TrampolineReturn { result: v.as_raw(), exception: None }
        },
        Err(e) => {
            let ghost message = e@;
            let thrown = e.to_js_value(engine, &ctx);
            let placeholder = ctx.undefined(engine);
            e.release(engine);
            proof {
                let run = seq![
                    asked(
                        (EngineCall::ValueMakeString { ctx: ctx@, string: message }),
                        EngineReply::Handle(thrown),
                    ),
                    asked(
                        (EngineCall::ValueMakeUndefined { ctx: ctx@ }),
                        EngineReply::Handle(placeholder@.raw),
                    ),
                    asked(
                        (EngineCall::Release { kind: ResourceKind::InternedString, handle: message }),
                        EngineReply::Unit,
                    ),
                ];
                assert(engine.trace() =~= before + run);
                lemma_run_added(before, run);
            }
            TrampolineReturn { result: placeholder.as_raw(), exception: Some(thrown) }
        },
    }
}

/// Whether a callback can be called with any context, object and arguments.
pub open spec fn callable<F: FnOnce(Context, Object, Vec<Value>) -> Result<Value, String>>(
    callback: F,
) -> bool {
    forall|ctx: Context, this_object: Object, arguments: Vec<Value>|
        call_requires(callback, (ctx, this_object, arguments))
}

/// Serves one call of the engine into a native callback.
///
/// The raw context and `this` object are wrapped without taking a reference,
/// the raw arguments are wrapped as values, the callback is called once with
/// them, and its answer is handed back.
pub fn callback_trampoline<
    E: Fn(&EngineCall) -> EngineReply,
    F: FnOnce(Context, Object, Vec<Value>) -> Result<Value, String>,
>(
    engine: &mut Engine<E>,
    callback: F,
    ctx: usize,
    this_object: usize,
    arguments: &Vec<usize>,
) -> (returned: TrampolineReturn)
    requires
        callable(callback),
    ensures
        final(engine).handler() == old(engine).handler(),
        continues(old(engine).trace(), final(engine).trace()),
        exists|
            context: Context,
            receiver: Object,
            values: Vec<Value>,
            outcome: Result<Value, String>,
        |
            {
                let run = added(old(engine).trace(), final(engine).trace());
                &&& context@ == ctx
                &&& receiver@ == (ObjectView { ctx, raw: this_object })
                &&& arguments@.len() <= run.len()
                &&& arguments_wrapped(ctx, arguments@, run.take(arguments@.len() as int), values@)
                &&& #[trigger] call_ensures(callback, (context, receiver, values), outcome)
                &&& answer_returned(ctx, outcome, run.skip(arguments@.len() as int), returned)
            },
{
    let ghost before = engine.trace();
    let context = Context::at(ctx);
    let receiver = Object::at(context, this_object);
    let values = callback_arguments(engine, context, arguments);
    let ghost wrapped = engine.trace();
    let ghost given = values;
    let ghost this_seen = receiver;
    let outcome = callback(context, receiver, values);
    let ghost answer = outcome;
    let returned = callback_return(engine, context, outcome);
    proof {
        lemma_continued(before, wrapped);
        lemma_continued(wrapped, engine.trace());
        let run = added(before, wrapped) + added(wrapped, engine.trace());
        assert(engine.trace() =~= before + run);
        lemma_run_added(before, run);
        assert(run.take(arguments@.len() as int) =~= added(before, wrapped));
        assert(run.skip(arguments@.len() as int) =~= added(wrapped, engine.trace()));
        assert(call_ensures(callback, (context, this_seen, given), answer));
    }
    returned
}

} // verus!
