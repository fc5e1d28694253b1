//! Counting the references that pass between this crate and the engine.
//!
//! The engine counts the references to each group, global context and string.
//! It hands one out with every resource it creates and with every retain, and
//! takes one back with every release. A trace of exchanges shows how many
//! references to a resource are out: the balance of the resource over the
//! trace.
use crate::callback::{answer_returned, TrampolineReturn};
use crate::convert::{host_text_read, HostTextError};
use crate::engine::{asked, EngineCall, EngineReply, Exchange, ResourceKind};
use crate::text::has_nul;
use crate::types::{
    field_read, function_added, AddFunctionError, ExceptionError, ObjectView, Value, ValueType,
    ValueView,
};
use vstd::prelude::*;

verus! {

/// What one exchange does to the number of references that are out for a
/// resource: one more where the engine handed out the resource, created or
/// retained, one less where the resource was released, and nothing else.
pub open spec fn credit(exchange: Exchange, kind: ResourceKind, handle: usize) -> int {
    match exchange.call {
        EngineCall::GroupCreate => if kind == ResourceKind::Group && exchange.reply
            == EngineReply::Handle(handle) {
            1
        } else {
            0
        },
        EngineCall::GlobalContextCreateInGroup { .. } => if kind == ResourceKind::GlobalContext
            && exchange.reply == EngineReply::Handle(handle) {
            1
        } else {
            0
        },
        EngineCall::StringCreateWithUtf8CString { .. } | EngineCall::ValueToStringCopy { .. } => if kind
            == ResourceKind::InternedString && exchange.reply == EngineReply::Handle(handle) {
            1
        } else {
            0
        },
        EngineCall::Retain { kind: retained, .. } => if kind == retained && exchange.reply
            == EngineReply::Handle(handle) {
            1
        } else {
            0
        },
        EngineCall::Release { kind: released, handle: given_up } => if kind == released && handle
            == given_up {
            -1
        } else {
            0
        },
        _ => 0,
    }
}

/// The number of references to a resource that a trace handed out, less the
/// number it gave back.
pub open spec fn balance(trace: Seq<Exchange>, kind: ResourceKind, handle: usize) -> int
    decreases trace.len(),
{
    if trace.len() == 0 {
        0
    } else {
        balance(trace.drop_last(), kind, handle) + credit(trace.last(), kind, handle)
    }
}

/// One more exchange changes the balance by what that exchange does.
pub proof fn lemma_balance_push(
    trace: Seq<Exchange>,
    next: Exchange,
    kind: ResourceKind,
    handle: usize,
)
    ensures
        balance(trace.push(next), kind, handle) == balance(trace, kind, handle) + credit(
            next,
            kind,
            handle,
        ),
{
    assert(trace.push(next).drop_last() =~= trace);
}

/// The balance over a trace followed by a run is the balance over the trace
/// plus the balance over the run.
pub proof fn lemma_balance_add(
    trace: Seq<Exchange>,
    run: Seq<Exchange>,
    kind: ResourceKind,
    handle: usize,
)
    ensures
        balance(trace + run, kind, handle) == balance(trace, kind, handle) + balance(
            run,
            kind,
            handle,
        ),
    decreases run.len(),
{
    if run.len() == 0 {
        assert(trace + run =~= trace);
    } else {
        lemma_balance_add(trace, run.drop_last(), kind, handle);
        assert((trace + run).drop_last() =~= trace + run.drop_last());
        assert((trace + run).last() == run.last());
    }
}

/// The exchange of retaining a resource, answered by the handle of the copy.
pub open spec fn retained(kind: ResourceKind, handle: usize, copy: usize) -> Exchange {
    asked((EngineCall::Retain { kind, handle }), EngineReply::Handle(copy))
}

/// The exchange of releasing a resource.
pub open spec fn released(kind: ResourceKind, handle: usize) -> Exchange {
    asked((EngineCall::Release { kind, handle }), EngineReply::Unit)
}

/// Cloning a handle and dropping both the clone and the handle it was cloned
/// from gives back exactly the one reference that the handle held.
///
/// Whatever went before, and in whichever order the two are dropped: after a
/// retain of the resource and a release of each of the two handles, one
/// reference less is out for the resource than before. Where the engine
/// answers the retain with another handle than the one retained, nothing has
/// changed for that other handle.
pub proof fn lemma_clone_and_drop_both(
    before: Seq<Exchange>,
    kind: ResourceKind,
    handle: usize,
    copy: usize,
)
    ensures
        ({
            let copy_first = before.push(retained(kind, handle, copy)).push(released(kind, copy)).push(
                released(kind, handle),
            );
            let source_first = before.push(retained(kind, handle, copy)).push(
                released(kind, handle),
            ).push(released(kind, copy));
            &&& balance(copy_first, kind, handle) == balance(before, kind, handle) - 1
            &&& balance(source_first, kind, handle) == balance(before, kind, handle) - 1
            &&& copy != handle ==> balance(copy_first, kind, copy) == balance(before, kind, copy)
            &&& copy != handle ==> balance(source_first, kind, copy) == balance(before, kind, copy)
        }),
{
    let cloned = before.push(retained(kind, handle, copy));
    lemma_balance_push(before, retained(kind, handle, copy), kind, handle);
    lemma_balance_push(before, retained(kind, handle, copy), kind, copy);
    lemma_balance_push(cloned, released(kind, copy), kind, handle);
    lemma_balance_push(cloned, released(kind, copy), kind, copy);
    lemma_balance_push(cloned, released(kind, handle), kind, handle);
    lemma_balance_push(cloned, released(kind, handle), kind, copy);
    lemma_balance_push(cloned.push(released(kind, copy)), released(kind, handle), kind, handle);
    lemma_balance_push(cloned.push(released(kind, copy)), released(kind, handle), kind, copy);
    lemma_balance_push(cloned.push(released(kind, handle)), released(kind, copy), kind, handle);
    lemma_balance_push(cloned.push(released(kind, handle)), released(kind, copy), kind, copy);
}

/// Reading a value as host text leaves every string with as many references
/// out as before: the copy that the engine makes is given back.
pub proof fn lemma_host_text_read_is_balanced(
    value: ValueView,
    run: Seq<Exchange>,
    read: Result<String, HostTextError>,
    handle: usize,
)
    requires
        host_text_read(value, run, read),
    ensures
        balance(run, ResourceKind::InternedString, handle) == 0,
{
    reveal_with_fuel(balance, 5);
    if value.ty == ValueType::String {
        assert(run.subrange(1, 3)[0] == run[1]);
        assert(run.subrange(1, 3)[1] == run[2]);
        assert(run.drop_last().last() == run[2]);
        assert(run.drop_last().drop_last().last() == run[1]);
        assert(run.drop_last().drop_last().drop_last().last() == run[0]);
    }
}

/// Reading a text field of an exception leaves every string with as many
/// references out as before: the name that is made for the read and the copy
/// of what was read are both given back.
pub proof fn lemma_field_read_is_balanced(
    exception: ObjectView,
    field: Seq<char>,
    run: Seq<Exchange>,
    read: Result<String, ExceptionError>,
    handle: usize,
)
    requires
        field_read(exception, field, run, read),
    ensures
        balance(run, ResourceKind::InternedString, handle) == 0,
{
    let head = run.take(4);
    let tail = run.skip(4);
    assert(run =~= head + tail);
    lemma_balance_add(head, tail, ResourceKind::InternedString, handle);
    assert(balance(head, ResourceKind::InternedString, handle) == 0) by {
        reveal_with_fuel(balance, 5);
        assert(head.last() == run[3]);
        assert(head.drop_last().last() == run[2]);
        assert(head.drop_last().drop_last().last() == run[1]);
        assert(head.drop_last().drop_last().drop_last().last() == run[0]);
    }
    let raised = run[1].reply->exception;
    if raised != 0 {
        assert(tail.len() == 0);
    } else {
        let value = ValueView {
            raw: run[1].reply->value,
            ty: ValueType::of_tag(run[2].reply->TypeTag_0)->Some_0,
            ctx: exception.ctx,
        };
        match read {
            Ok(text) => lemma_host_text_read_is_balanced(value, tail, Ok(text), handle),
            Err(ExceptionError::NotText(error)) => lemma_host_text_read_is_balanced(
                value,
                tail,
                Err(error),
                handle,
            ),
            Err(ExceptionError::Raised(_)) => {},
        }
    }
}

/// Installing a native function leaves every string with as many references
/// out as before, whether it goes through or not: the name that is made for
/// it is given back.
pub proof fn lemma_function_added_is_balanced(
    ctx: usize,
    name: Seq<char>,
    callback: usize,
    run: Seq<Exchange>,
    installed: Result<(), AddFunctionError>,
    handle: usize,
)
    requires
        function_added(ctx, name, callback, run, installed),
    ensures
        balance(run, ResourceKind::InternedString, handle) == 0,
{
    reveal_with_fuel(balance, 9);
    if !has_nul(name) {
        let a = run.drop_last();
        let b = a.drop_last();
        let c = b.drop_last();
        let d = c.drop_last();
        let e = d.drop_last();
        assert(a.last() == run[run.len() - 2]);
        assert(b.last() == run[run.len() - 3]);
        assert(c.last() == run[run.len() - 4]);
        assert(d.last() == run[run.len() - 5]);
        assert(e.last() == run[run.len() - 6]);
        if run.len() == 8 {
            let f = e.drop_last();
            let g = f.drop_last();
            assert(f.last() == run[1]);
            assert(g.last() == run[0]);
        }
    }
}

/// Handing back the answer of a callback gives up the one reference that the
/// error's string holds, and changes nothing for any other string. A value
/// that is handed back changes nothing at all.
pub proof fn lemma_answer_returned_gives_up_the_message(
    ctx: usize,
    outcome: Result<Value, crate::types::String>,
    run: Seq<Exchange>,
    returned: TrampolineReturn,
    handle: usize,
)
    requires
        answer_returned(ctx, outcome, run, returned),
    ensures
        balance(run, ResourceKind::InternedString, handle) == match outcome {
            Ok(_) => 0int,
            Err(message) => if handle == message@ {
                -1int
            } else {
                0int
            },
        },
{
    reveal_with_fuel(balance, 4);
    if outcome is Err {
        assert(run.drop_last().last() == run[1]);
        assert(run.drop_last().drop_last().last() == run[0]);
    }
}

} // verus!
