//! Script values as text for people to read.
//!
//! A value is shown by its type. A string is shown as its text, a number as
//! the host prints it, a boolean as `true` or `false`, and `undefined`, `null`
//! and symbols as fixed words. An object is shown with its enumerable
//! properties, as `Object { name: value, name: value }`, and as `Object` where
//! it has none. The values of properties are shown in the same way, objects
//! among them too, down to a fixed depth; an object below that depth is shown
//! as `Object { .. }`. Whatever cannot be read on the way (a property whose
//! read raises, text that is not UTF-8) is shown as `<unreadable>`: showing a
//! value never fails.
//!
//! The names of the properties are only looked at, so no reference to them is
//! taken or given up. The name array that the engine hands out for an object
//! stays with the engine.
use crate::convert::read_text;
use crate::engine::{
    added, asked, continues, lemma_continued, lemma_continued_twice, lemma_run_added, Engine,
    EngineCall, EngineReply, Exchange, ResourceKind,
};
use crate::text::buffer_text;
use crate::types::{Context, Object, Value, ValueType, ValueView};
use vstd::prelude::*;
use vstd::string::*;

verus! {

/// How many levels of objects within objects are shown.
pub const MAX_DISPLAY_DEPTH: usize = 4;

/// What stands for something that could not be read.
pub open spec fn unreadable() -> Seq<char> {
    "<unreadable>"@
}

/// What the engine gave while a value was shown: the replies, by the kind of
/// value they were for.
pub enum Reading {
    /// Nothing was asked.
    Nothing,
    /// The boolean that the value holds.
    Boolean { flag: bool },
    /// The number that the value holds, and how the host prints it.
    Number { bits: u64, text: String },
    /// The copy of the string that the value holds, and what the engine wrote
    /// for it.
    Text { copy: usize, size: usize, buffer: Vec<u8>, written: usize },
    /// The name array of the object, and what was read for each name.
    Object { names: usize, entries: Seq<EntryReading> },
}

/// What the engine gave for one property of an object.
pub struct EntryReading {
    /// The name, and what the engine wrote for it.
    pub name: usize,
    pub name_size: usize,
    pub name_buffer: Vec<u8>,
    pub name_written: usize,
    /// The value of the property and the exception slot of the read.
    pub value: usize,
    pub exception: usize,
    /// Where the read did not raise: the type of the value, and what was
    /// read to show it.
    pub ty: ValueType,
    pub reading: Reading,
}

/// The text that was written into a buffer, or the mark for what could not
/// be read.
pub open spec fn text_or_mark(buffer: Seq<u8>, written: nat) -> Seq<char> {
    match buffer_text(buffer, written) {
        Ok(text) => text,
        Err(_) => unreadable(),
    }
}

/// Whether a reading is one for a value of the given type, shown with the
/// given number of levels of objects left to open.
pub open spec fn fits(ty: ValueType, depth: nat, reading: Reading) -> bool
    decreases depth, 0nat, 0nat,
{
    match ty {
        ValueType::Undefined | ValueType::Null | ValueType::Symbol => reading is Nothing,
        ValueType::Boolean => reading is Boolean,
        ValueType::Number => reading is Number,
        ValueType::String => reading matches Reading::Text { copy, .. } && copy != 0,
        ValueType::Object => if depth == 0 {
            reading is Nothing
        } else {
            &&& reading matches Reading::Object { entries, .. }
            &&& entries.len() <= usize::MAX
            &&& entries_fit((depth - 1) as nat, entries)
        },
    }
}

/// Whether the reading of each property whose read did not raise is one for
/// the value of that property.
pub open spec fn entries_fit(depth: nat, entries: Seq<EntryReading>) -> bool
    decreases depth, 2nat, entries.len(),
{
    if entries.len() == 0 {
        true
    } else {
        &&& entries_fit(depth, entries.drop_last())
        &&& entries.last().exception == 0 ==> fits(
            entries.last().ty,
            depth,
            entries.last().reading,
        )
    }
}

/// The exchanges that showing a value consists of. An object is opened only
/// while levels are left, and its properties are then read with one level
/// less.
pub open spec fn value_run(value: ValueView, depth: nat, reading: Reading) -> Seq<Exchange>
    decreases depth, 0nat, 0nat,
{
    match value.ty {
        ValueType::Undefined | ValueType::Null | ValueType::Symbol => Seq::empty(),
        ValueType::Boolean => seq![
            asked(
                (EngineCall::ValueToBoolean { ctx: value.ctx, value: value.raw }),
                EngineReply::Boolean(reading->flag),
            ),
        ],
        ValueType::Number => seq![
            asked(
                (EngineCall::ValueToNumber { ctx: value.ctx, value: value.raw }),
                EngineReply::Number(reading->bits),
            ),
            asked(
                (EngineCall::NumberToText { bits: reading->bits }),
                EngineReply::Text(reading->text),
            ),
        ],
        ValueType::String => seq![
            asked(
                (EngineCall::ValueToStringCopy { ctx: value.ctx, value: value.raw }),
                EngineReply::Handle(reading->copy),
            ),
            asked(
                (EngineCall::StringGetMaximumUtf8CStringSize { string: reading->copy }),
                EngineReply::Size(reading->size),
            ),
            asked(
                (EngineCall::StringGetUtf8CString {
                    string: reading->copy,
                    buffer_size: reading->size,
                }),
                (EngineReply::Utf8 { buffer: reading->buffer, written: reading->written }),
            ),
            asked(
                (EngineCall::Release {
                    kind: ResourceKind::InternedString,
                    handle: reading->copy,
                }),
                EngineReply::Unit,
            ),
        ],
        ValueType::Object => if depth == 0 {
            Seq::empty()
        } else {
            seq![
                asked(
                    (EngineCall::ObjectCopyPropertyNames { ctx: value.ctx, object: value.raw }),
                    EngineReply::Handle(reading->names),
                ),
                asked(
                    (EngineCall::PropertyNameArrayGetCount { array: reading->names }),
                    EngineReply::Size(reading->entries.len() as usize),
                ),
            ] + entries_run(value.ctx, value.raw, reading->names, (depth - 1) as nat, reading->entries)
        },
    }
}

/// The exchanges that reading the properties of an object consists of: those
/// for the first property, then those for the second, and so on.
pub open spec fn entries_run(
    ctx: usize,
    object: usize,
    names: usize,
    depth: nat,
    entries: Seq<EntryReading>,
) -> Seq<Exchange>
    decreases depth, 2nat, entries.len(),
{
    if entries.len() == 0 {
        Seq::empty()
    } else {
        entries_run(ctx, object, names, depth, entries.drop_last()) + entry_run(
            ctx,
            object,
            names,
            depth,
            (entries.len() - 1) as nat,
            entries.last(),
        )
    }
}

/// The exchanges that reading one property consists of. The engine is asked
/// for the name at the index, the name is read as text, and the property of
/// that name is read. Where the read did not raise, the engine is asked for
/// the type tag of the value, and the value is shown.
pub open spec fn entry_run(
    ctx: usize,
    object: usize,
    names: usize,
    depth: nat,
    index: nat,
    entry: EntryReading,
) -> Seq<Exchange>
    decreases depth, 1nat, 0nat,
{
    seq![
        asked(
            (EngineCall::PropertyNameArrayGetNameAtIndex { array: names, index: index as usize }),
            EngineReply::Handle(entry.name),
        ),
        asked(
            (EngineCall::StringGetMaximumUtf8CStringSize { string: entry.name }),
            EngineReply::Size(entry.name_size),
        ),
        asked(
            (EngineCall::StringGetUtf8CString { string: entry.name, buffer_size: entry.name_size }),
            (EngineReply::Utf8 { buffer: entry.name_buffer, written: entry.name_written }),
        ),
        asked(
            (EngineCall::ObjectGetProperty { ctx, object, name: entry.name }),
            (EngineReply::Completion { value: entry.value, exception: entry.exception }),
        ),
    ] + if entry.exception == 0 {
        seq![
            asked(
                (EngineCall::ValueGetType { ctx, value: entry.value }),
                EngineReply::TypeTag(entry.ty.tag()),
            ),
        ] + value_run((ValueView { raw: entry.value, ty: entry.ty, ctx }), depth, entry.reading)
    } else {
        Seq::empty()
    }
}

/// The text that a value is shown as.
pub open spec fn value_text(ty: ValueType, depth: nat, reading: Reading) -> Seq<char>
    decreases depth, 0nat, 0nat,
{
    match ty {
        ValueType::Undefined => "undefined"@,
        ValueType::Null => "null"@,
        ValueType::Symbol => "Symbol(...)"@,
        ValueType::Boolean => if reading->flag {
            "true"@
        } else {
            "false"@
        },
        ValueType::Number => reading->text@,
        ValueType::String => text_or_mark(reading->buffer@, reading->written as nat),
        ValueType::Object => if depth == 0 {
            "Object { .. }"@
        } else {
            "Object"@ + fields_text((depth - 1) as nat, reading->entries) + if reading->entries.len()
                == 0 {
                Seq::empty()
            } else {
                " }"@
            }
        },
    }
}

/// The text that the properties of an object are shown as: ` { ` before the
/// first, `, ` before each other one, and each as its name, `: ` and its
/// value.
pub open spec fn fields_text(depth: nat, entries: Seq<EntryReading>) -> Seq<char>
    decreases depth, 2nat, entries.len(),
{
    if entries.len() == 0 {
        Seq::empty()
    } else {
        fields_text(depth, entries.drop_last()) + if entries.len() == 1 {
            " { "@
        } else {
            ", "@
        } + entry_text(depth, entries.last())
    }
}

/// The text that one property is shown as.
pub open spec fn entry_text(depth: nat, entry: EntryReading) -> Seq<char>
    decreases depth, 1nat, 0nat,
{
    text_or_mark(entry.name_buffer@, entry.name_written as nat) + ": "@ + if entry.exception == 0 {
        value_text(entry.ty, depth, entry.reading)
    } else {
        unreadable()
    }
}

/// Whether showing a value went as the reading says: the reading is one for
/// the value, the exchanges are those that showing it consists of, and the
/// text is the one it is shown as.
pub open spec fn shown(
    value: ValueView,
    depth: nat,
    reading: Reading,
    run: Seq<Exchange>,
    text: Seq<char>,
) -> bool {
    &&& fits(value.ty, depth, reading)
    &&& run == value_run(value, depth, reading)
    &&& text == value_text(value.ty, depth, reading)
}

/// Two runs of one length that are followed by rests: where the wholes are
/// the same, so are the runs and the rests.
proof fn lemma_same_whole(
    first: Seq<Exchange>,
    second: Seq<Exchange>,
    rest_first: Seq<Exchange>,
    rest_second: Seq<Exchange>,
)
    requires
        first.len() == second.len(),
        first + rest_first == second + rest_second,
    ensures
        first == second,
        rest_first == rest_second,
{
    let whole = first + rest_first;
    assert(first =~= whole.take(first.len() as int));
    assert(second =~= (second + rest_second).take(second.len() as int));
    assert(rest_first =~= whole.skip(first.len() as int));
    assert(rest_second =~= (second + rest_second).skip(second.len() as int));
}

/// The exchanges of showing a value tell where they end and what was read:
/// two readings whose exchanges, each followed by a rest, make the same whole
/// have the same exchanges, the same rest and the same text.
proof fn lemma_value_run_tells(
    value: ValueView,
    depth: nat,
    first: Reading,
    second: Reading,
    rest_first: Seq<Exchange>,
    rest_second: Seq<Exchange>,
)
    requires
        fits(value.ty, depth, first),
        fits(value.ty, depth, second),
        value_run(value, depth, first) + rest_first == value_run(value, depth, second)
            + rest_second,
    ensures
        value_run(value, depth, first) == value_run(value, depth, second),
        rest_first == rest_second,
        value_text(value.ty, depth, first) == value_text(value.ty, depth, second),
    decreases depth, 0nat, 0nat,
{
    let a = value_run(value, depth, first);
    let b = value_run(value, depth, second);
    let whole = a + rest_first;
    match value.ty {
        ValueType::Undefined | ValueType::Null | ValueType::Symbol => {
            lemma_same_whole(a, b, rest_first, rest_second);
        },
        ValueType::Boolean => {
            assert(whole[0] == a[0] && whole[0] == b[0]);
            lemma_same_whole(a, b, rest_first, rest_second);
        },
        ValueType::Number => {
            assert(whole[0] == a[0] && whole[0] == b[0]);
            assert(whole[1] == a[1] && whole[1] == b[1]);
            lemma_same_whole(a, b, rest_first, rest_second);
        },
        ValueType::String => {
            assert(whole[0] == a[0] && whole[0] == b[0]);
            assert(whole[1] == a[1] && whole[1] == b[1]);
            assert(whole[2] == a[2] && whole[2] == b[2]);
            lemma_same_whole(a, b, rest_first, rest_second);
        },
        ValueType::Object => {
            if depth == 0 {
                lemma_same_whole(a, b, rest_first, rest_second);
            } else {
                let inner = (depth - 1) as nat;
                let e1 = first->entries;
                let e2 = second->entries;
                let r1 = entries_run(value.ctx, value.raw, first->names, inner, e1);
                let r2 = entries_run(value.ctx, value.raw, second->names, inner, e2);
                assert(whole[0] == a[0] && whole[0] == b[0]);
                assert(whole[1] == a[1] && whole[1] == b[1]);
                assert(first->names == second->names);
                assert(e1.len() == e2.len());
                assert(whole.skip(2) =~= r1 + rest_first);
                assert((b + rest_second).skip(2) =~= r2 + rest_second);
                lemma_entries_run_tells(
                    value.ctx,
                    value.raw,
                    first->names,
                    inner,
                    e1,
                    e2,
                    rest_first,
                    rest_second,
                );
            }
        },
    }
}

/// The same for the properties of an object, where there are as many in
/// the one reading as in the other.
proof fn lemma_entries_run_tells(
    ctx: usize,
    object: usize,
    names: usize,
    depth: nat,
    first: Seq<EntryReading>,
    second: Seq<EntryReading>,
    rest_first: Seq<Exchange>,
    rest_second: Seq<Exchange>,
)
    requires
        first.len() == second.len(),
        entries_fit(depth, first),
        entries_fit(depth, second),
        entries_run(ctx, object, names, depth, first) + rest_first == entries_run(
            ctx,
            object,
            names,
            depth,
            second,
        ) + rest_second,
    ensures
        entries_run(ctx, object, names, depth, first) == entries_run(
            ctx,
            object,
            names,
            depth,
            second,
        ),
        rest_first == rest_second,
        fields_text(depth, first) == fields_text(depth, second),
    decreases depth, 2nat, first.len(),
{
    if first.len() == 0 {
        lemma_same_whole(
            entries_run(ctx, object, names, depth, first),
            entries_run(ctx, object, names, depth, second),
            rest_first,
            rest_second,
        );
    } else {
        let index = (first.len() - 1) as nat;
        let a1 = entries_run(ctx, object, names, depth, first.drop_last());
        let a2 = entries_run(ctx, object, names, depth, second.drop_last());
        let b1 = entry_run(ctx, object, names, depth, index, first.last());
        let b2 = entry_run(ctx, object, names, depth, index, second.last());
        assert((a1 + b1) + rest_first =~= a1 + (b1 + rest_first));
        assert((a2 + b2) + rest_second =~= a2 + (b2 + rest_second));
        lemma_entries_run_tells(
            ctx,
            object,
            names,
            depth,
            first.drop_last(),
            second.drop_last(),
            b1 + rest_first,
            b2 + rest_second,
        );
        lemma_entry_run_tells(
            ctx,
            object,
            names,
            depth,
            index,
            first.last(),
            second.last(),
            rest_first,
            rest_second,
        );
    }
}

/// The same for one property.
proof fn lemma_entry_run_tells(
    ctx: usize,
    object: usize,
    names: usize,
    depth: nat,
    index: nat,
    first: EntryReading,
    second: EntryReading,
    rest_first: Seq<Exchange>,
    rest_second: Seq<Exchange>,
)
    requires
        first.exception == 0 ==> fits(first.ty, depth, first.reading),
        second.exception == 0 ==> fits(second.ty, depth, second.reading),
        entry_run(ctx, object, names, depth, index, first) + rest_first == entry_run(
            ctx,
            object,
            names,
            depth,
            index,
            second,
        ) + rest_second,
    ensures
        entry_run(ctx, object, names, depth, index, first) == entry_run(
            ctx,
            object,
            names,
            depth,
            index,
            second,
        ),
        rest_first == rest_second,
        entry_text(depth, first) == entry_text(depth, second),
    decreases depth, 1nat, 0nat,
{
    let a = entry_run(ctx, object, names, depth, index, first);
    let b = entry_run(ctx, object, names, depth, index, second);
    let whole = a + rest_first;
    assert(whole[0] == a[0] && whole[0] == b[0]);
    assert(whole[1] == a[1] && whole[1] == b[1]);
    assert(whole[2] == a[2] && whole[2] == b[2]);
    assert(whole[3] == a[3] && whole[3] == b[3]);
    assert(first.name == second.name);
    assert(first.name_buffer == second.name_buffer);
    assert(first.name_written == second.name_written);
    assert(first.exception == second.exception);
    if first.exception != 0 {
        lemma_same_whole(a, b, rest_first, rest_second);
    } else {
        assert(whole[4] == a[4] && whole[4] == b[4]);
        assert(first.ty.tag() == second.ty.tag());
        assert(first.ty == second.ty);
        let value = ValueView { raw: first.value, ty: first.ty, ctx };
        let v1 = value_run(value, depth, first.reading);
        let v2 = value_run(value, depth, second.reading);
        assert(whole.skip(5) =~= v1 + rest_first);
        assert((b + rest_second).skip(5) =~= v2 + rest_second);
        lemma_value_run_tells(value, depth, first.reading, second.reading, rest_first, rest_second);
    }
}

/// The text that a value is shown as follows from the exchanges that were
/// made to show it: whichever readings account for the same exchanges, the
/// text is the same.
pub proof fn lemma_text_follows_from_the_run(
    value: ValueView,
    depth: nat,
    first: Reading,
    second: Reading,
    run: Seq<Exchange>,
    text_first: Seq<char>,
    text_second: Seq<char>,
)
    requires
        shown(value, depth, first, run, text_first),
        shown(value, depth, second, run, text_second),
    ensures
        text_first == text_second,
{
    lemma_value_run_tells(
        value,
        depth,
        first,
        second,
        Seq::<Exchange>::empty(),
        Seq::<Exchange>::empty(),
    );
}

/// Shows the properties of an object: what stands between `Object` and the
/// closing brace.
fn show_properties<E: Fn(&EngineCall) -> EngineReply>(
    engine: &mut Engine<E>,
    ctx: Context,
    object: usize,
    names: usize,
    count: usize,
    depth: usize,
) -> (out: (String, Ghost<Seq<EntryReading>>))
    ensures
        final(engine).handler() == old(engine).handler(),
        continues(old(engine).trace(), final(engine).trace()),
        out.1@.len() == count,
        entries_fit(depth as nat, out.1@),
        added(old(engine).trace(), final(engine).trace()) == entries_run(
            ctx@,
            object,
            names,
            depth as nat,
            out.1@,
        ),
        out.0@ == fields_text(depth as nat, out.1@),
    decreases depth, 1nat,
{
    let ghost before = engine.trace();
    let ghost handler = engine.handler();
    let ghost mut entries: Seq<EntryReading> = Seq::empty();
    let mut text = String::from_str("");
    let mut i: usize = 0;
    proof {
        reveal_strlit("");
        lemma_run_added(before, Seq::<Exchange>::empty());
        assert(before + Seq::<Exchange>::empty() =~= before);
        assert(text@ =~= Seq::<char>::empty());
    }
    while i < count
        invariant
            i <= count,
            entries.len() == i,
            engine.handler() == handler,
            continues(before, engine.trace()),
            entries_fit(depth as nat, entries),
            added(before, engine.trace()) == entries_run(ctx@, object, names, depth as nat, entries),
            text@ == fields_text(depth as nat, entries),
        decreases count - i,
    {
        let ghost start = engine.trace();
        let ghost earlier = entries;
        let ghost text_before = text@;
        let name = engine.call_for_handle(
            EngineCall::PropertyNameArrayGetNameAtIndex { array: names, index: i },
        );
        let ghost named = engine.trace();
        let name_read = read_text(engine, name);
        let ghost name_run = added(named, engine.trace());
        let ghost name_size = name_run[0].reply->Size_0;
        let ghost name_buffer = name_run[1].reply->buffer;
        let ghost name_written = name_run[1].reply->written;
        let ghost name_read_at = engine.trace();
        let (value_ref, exception) = engine.call_for_completion(
            EngineCall::ObjectGetProperty { ctx: ctx.as_raw(), object, name },
        );
        let ghost fetched = engine.trace();
        let ghost head = seq![
            asked(
                (EngineCall::PropertyNameArrayGetNameAtIndex { array: names, index: i }),
                EngineReply::Handle(name),
            ),
            asked(
                (EngineCall::StringGetMaximumUtf8CStringSize { string: name }),
                EngineReply::Size(name_size),
            ),
            asked(
                (EngineCall::StringGetUtf8CString { string: name, buffer_size: name_size }),
                (EngineReply::Utf8 { buffer: name_buffer, written: name_written }),
            ),
            asked(
                (EngineCall::ObjectGetProperty { ctx: ctx@, object, name }),
                (EngineReply::Completion { value: value_ref, exception }),
            ),
        ];
        proof {
            lemma_continued(named, name_read_at);
            assert(name_run =~= seq![head[1], head[2]]);
            assert(fetched =~= start + head);
        }
        let name_text = match name_read {
            Ok(read) => read,
            Err(_) => String::from_str("<unreadable>"),
        };
        assert(name_text@ == text_or_mark(name_buffer@, name_written as nat));
        text.append(
            if i == 0 {
                " { "
            } else {
                ", "
            },
        );
        text.append(name_text.as_str());
        text.append(": ");
        let ghost entry;
        if exception == 0 {
            let value = Value::from(engine, ctx, value_ref);
            let ghost tagged = engine.trace();
            let (value_text, Ghost(reading)) = show_value(engine, &value, depth);
            text.append(value_text.as_str());
            proof {
                entry = EntryReading {
                    name,
                    name_size,
                    name_buffer,
                    name_written,
                    value: value_ref,
                    exception,
                    ty: value@.ty,
                    reading,
                };
                lemma_continued(tagged, engine.trace());
                let this_run = entry_run(ctx@, object, names, depth as nat, i as nat, entry);
                assert(value@ == (ValueView { raw: value_ref, ty: value@.ty, ctx: ctx@ }));
                assert(engine.trace() =~= start + this_run);
            }
        } else {
            text.append("<unreadable>");
            proof {
                entry = EntryReading {
                    name,
                    name_size,
                    name_buffer,
                    name_written,
                    value: value_ref,
                    exception,
                    ty: ValueType::Undefined,
                    reading: Reading::Nothing,
                };
                let this_run = entry_run(ctx@, object, names, depth as nat, i as nat, entry);
                assert(engine.trace() =~= start + this_run);
            }
        }
        proof {
            let this_run = entry_run(ctx@, object, names, depth as nat, i as nat, entry);
            lemma_run_added(start, this_run);
            lemma_continued_twice(before, start, engine.trace());
            entries = earlier.push(entry);
            assert(entries.drop_last() =~= earlier);
            assert(entries.last() == entry);
            assert(text@ =~= text_before + if i == 0 {
                " { "@
            } else {
                ", "@
            } + entry_text(depth as nat, entry));
        }
        i += 1;
    }
    (text, Ghost(entries))
}

/// Shows a value, with the given number of levels of objects left to open.
fn show_value<E: Fn(&EngineCall) -> EngineReply>(
    engine: &mut Engine<E>,
    value: &Value,
    depth: usize,
) -> (out: (String, Ghost<Reading>))
    ensures
        final(engine).handler() == old(engine).handler(),
        continues(old(engine).trace(), final(engine).trace()),
        shown(
            value@,
            depth as nat,
            out.1@,
            added(old(engine).trace(), final(engine).trace()),
            out.0@,
        ),
    decreases depth, 0nat,
{
    let ghost before = engine.trace();
    proof {
        lemma_run_added(before, Seq::<Exchange>::empty());
        assert(before + Seq::<Exchange>::empty() =~= before);
    }
    match value.js_type() {
        ValueType::Undefined => (String::from_str("undefined"), Ghost(Reading::Nothing)),
        ValueType::Null => (String::from_str("null"), Ghost(Reading::Nothing)),
        ValueType::Symbol => (String::from_str("Symbol(...)"), Ghost(Reading::Nothing)),
        ValueType::Boolean => {
            let flag = match value.to_boolean(engine) {
                Ok(flag) => flag,
                Err(_) => vstd::pervasive::unreached(),
            };
            let ghost reading = Reading::Boolean { flag };
            proof {
                assert(engine.trace() =~= before + value_run(value@, depth as nat, reading));
                lemma_run_added(before, value_run(value@, depth as nat, reading));
            }
            let text = if flag {
                String::from_str("true")
            } else {
                String::from_str("false")
            };
            (text, Ghost(reading))
        },
        ValueType::Number => {
            let bits = match value.to_number_bits(engine) {
                Ok(bits) => bits,
                Err(_) => vstd::pervasive::unreached(),
            };
            let reply = engine.call(EngineCall::NumberToText { bits });
            match reply {
                EngineReply::Text(text) => {
                    let ghost reading = Reading::Number { bits, text };
                    proof {
                        assert(engine.trace() =~= before + value_run(value@, depth as nat, reading));
                        lemma_run_added(before, value_run(value@, depth as nat, reading));
                    }
                    (text, Ghost(reading))
                },
                _ => vstd::pervasive::unreached(),
            }
        },
        ValueType::String => {
            let read = value.to_host_string(engine);
            let ghost run = added(before, engine.trace());
            let ghost copy = run[0].reply->Handle_0;
            let ghost size = run[1].reply->Size_0;
            let ghost buffer = run[2].reply->buffer;
            let ghost written = run[2].reply->written;
            let ghost reading = Reading::Text { copy, size, buffer, written };
            proof {
                assert(run.subrange(1, 3)[0] == run[1]);
                assert(run.subrange(1, 3)[1] == run[2]);
                assert(run =~= value_run(value@, depth as nat, reading));
            }
            let text = match read {
                Ok(text) => text,
                Err(_) => String::from_str("<unreadable>"),
            };
            (text, Ghost(reading))
        },
        ValueType::Object => {
            if depth == 0 {
                (String::from_str("Object { .. }"), Ghost(Reading::Nothing))
            } else {
                let ctx = value.context();
                let object = value.as_raw();
                let names = engine.call_for_handle(
                    EngineCall::ObjectCopyPropertyNames { ctx: ctx.as_raw(), object },
                );
                let count = engine.call_for_size(
                    EngineCall::PropertyNameArrayGetCount { array: names },
                );
                let ghost opened = engine.trace();
                let (fields, Ghost(entries)) = show_properties(
                    engine,
                    ctx,
                    object,
                    names,
                    count,
                    depth - 1,
                );
                let ghost reading = Reading::Object { names, entries };
                proof {
                    lemma_continued(opened, engine.trace());
                    let run = value_run(value@, depth as nat, reading);
                    assert(engine.trace() =~= before + run);
                    lemma_run_added(before, run);
                }
                let mut text = String::from_str("Object");
                text.append(fields.as_str());
                if count > 0 {
                    text.append(" }");
                }
                proof {
                    assert(text@ =~= value_text(value@.ty, depth as nat, reading));
                }
                (text, Ghost(reading))
            }
        },
    }
}

impl Value {
    /// Shows the value as text. Objects within objects are shown down to
    /// [`MAX_DISPLAY_DEPTH`] levels.
    pub fn to_string<E: Fn(&EngineCall) -> EngineReply>(&self, engine: &mut Engine<E>) -> (text:
        String)
        ensures
            final(engine).handler() == old(engine).handler(),
            continues(old(engine).trace(), final(engine).trace()),
            exists|reading: Reading|
                shown(
                    self@,
                    MAX_DISPLAY_DEPTH as nat,
                    reading,
                    added(old(engine).trace(), final(engine).trace()),
                    text@,
                ),
    {
        let (text, Ghost(reading)) = show_value(engine, self, MAX_DISPLAY_DEPTH);
        text
    }
}

} // verus!
