//! Typed reads of script values, and engine strings as host text.
//!
//! A conversion looks at the type tag that the value carries before anything
//! else. Where the tag is not the one the conversion is for, it fails and
//! names the tag; nothing is coerced. Where it is, one engine call copies the
//! payload out.
use crate::engine::{
    added, asked, continues, lemma_continued, lemma_run_added, Engine, EngineCall, EngineReply,
    Exchange, ResourceKind,
};
use crate::text::{
    lemma_nul_byte_is_nul_char, lemma_round_trip, reads_as, text_from_buffer, NulError, TextError,
};
use crate::types::{string_made, Object, ObjectView, String, Value, ValueType, ValueView};
use vstd::prelude::*;
use vstd::string::StringExecFns;

verus! {

/// Why a typed read of a value failed.
#[derive(Debug, Clone, Copy, PartialEq, Eq, Structural)]
pub enum TryFromValueError {
    /// The value has the type given here, not the one that was asked for.
    InvalidConversion(ValueType),
}

/// What reading an engine string as host text consists of: the engine is
/// asked for an upper bound on the size, then to write the string into a
/// buffer of that size, and the text is read out of what it wrote.
pub open spec fn text_read(
    string: usize,
    run: Seq<Exchange>,
    read: Result<std::string::String, TextError>,
) -> bool {
    &&& run.len() == 2
    &&& run[0].call == (EngineCall::StringGetMaximumUtf8CStringSize { string })
    &&& run[0].reply matches EngineReply::Size(size)
    &&& run[1].call == (EngineCall::StringGetUtf8CString { string, buffer_size: size })
    &&& run[1].reply matches EngineReply::Utf8 { buffer, written }
    &&& reads_as(read, buffer@, written as nat)
}

/// Reads the engine string at an address as host text. The string is only
/// looked at: no reference to it is taken or given up.
pub fn read_text<E: Fn(&EngineCall) -> EngineReply>(engine: &mut Engine<E>, string: usize) -> (read:
    Result<std::string::String, TextError>)
    ensures
        final(engine).handler() == old(engine).handler(),
        continues(old(engine).trace(), final(engine).trace()),
        text_read(string, added(old(engine).trace(), final(engine).trace()), read),
{
    let ghost before = engine.trace();
    let size = engine.call_for_size(EngineCall::StringGetMaximumUtf8CStringSize { string });
    let reply = engine.call(EngineCall::StringGetUtf8CString { string, buffer_size: size });
    proof {
        let run = seq![
            asked((EngineCall::StringGetMaximumUtf8CStringSize { string }), EngineReply::Size(size)),
            asked((EngineCall::StringGetUtf8CString { string, buffer_size: size }), reply),
        ];
        assert(engine.trace() =~= before + run);
        lemma_run_added(before, run);
    }
    match reply {
        EngineReply::Utf8 { buffer, written } => text_from_buffer(buffer, written),
        _ => vstd::pervasive::unreached(),
    }
}

/// Why a value could not be read as host text.
#[derive(Debug, Clone, Copy, PartialEq, Eq, Structural)]
pub enum HostTextError {
    /// The value is not a string.
    Conversion(TryFromValueError),
    /// The value is a string, but what the engine wrote for it is not text.
    Text(TextError),
}

/// The typed reads that a value offers.
#[derive(Debug, Clone, Copy, PartialEq, Eq, Structural)]
pub enum Conversion {
    EngineString,
    Number,
    Boolean,
    Object,
}

impl Conversion {
    /// The one type of value that the conversion is for.
    pub open spec fn target(self) -> ValueType {
        match self {
            Conversion::EngineString => ValueType::String,
            Conversion::Number => ValueType::Number,
            Conversion::Boolean => ValueType::Boolean,
            Conversion::Object => ValueType::Object,
        }
    }

    /// Whether the conversion goes through on a value of the given type, and
    /// the error it fails with where it does not.
    pub open spec fn admits(self, ty: ValueType) -> Result<(), TryFromValueError> {
        if ty == self.target() {
            Ok(())
        } else {
            Err(TryFromValueError::InvalidConversion(ty))
        }
    }
}

/// A value of type boolean, number, string or object is admitted by exactly
/// one typed read, the one for its type. Every other read fails on it, and
/// the error names the type that the value has.
pub proof fn lemma_one_conversion_admits(ty: ValueType)
    requires
        ty == ValueType::Boolean || ty == ValueType::Number || ty == ValueType::String || ty
            == ValueType::Object,
    ensures
        exists|fitting: Conversion|
            {
                &&& #[trigger] fitting.admits(ty) is Ok
                &&& forall|other: Conversion|
                    other != fitting ==> #[trigger] other.admits(ty) == Err::<
                        (),
                        TryFromValueError,
                    >(TryFromValueError::InvalidConversion(ty))
            },
{
    let fitting = match ty {
        ValueType::Boolean => Conversion::Boolean,
        ValueType::Number => Conversion::Number,
        ValueType::String => Conversion::EngineString,
        _ => Conversion::Object,
    };
    assert(fitting.admits(ty) is Ok);
    assert forall|other: Conversion| other != fitting implies #[trigger] other.admits(ty) == Err::<
        (),
        TryFromValueError,
    >(TryFromValueError::InvalidConversion(ty)) by {
        assert(other.target() != ty);
    }
}

/// A value that is undefined, null or a symbol is admitted by no typed read:
/// each fails on it, and the error names the type that the value has.
pub proof fn lemma_no_conversion_admits(ty: ValueType, conversion: Conversion)
    requires
        ty == ValueType::Undefined || ty == ValueType::Null || ty == ValueType::Symbol,
    ensures
        conversion.admits(ty) == Err::<(), TryFromValueError>(
            TryFromValueError::InvalidConversion(ty),
        ),
{
}

impl String {
    /// Reads a string value as an engine string. The handle owns the copy
    /// that the engine makes.
    pub fn try_from<E: Fn(&EngineCall) -> EngineReply>(engine: &mut Engine<E>, value: &Value) -> (read:
        Result<String, TryFromValueError>)
        ensures
            final(engine).handler() == old(engine).handler(),
            match read {
                Ok(string) => {
                    &&& Conversion::EngineString.admits(value@.ty) is Ok
                    &&& string@ != 0
                    &&& final(engine).trace() == old(engine).trace().push(
                        asked(
                            (EngineCall::ValueToStringCopy { ctx: value@.ctx, value: value@.raw }),
                            EngineReply::Handle(string@),
                        ),
                    )
                },
                Err(error) => {
                    &&& Conversion::EngineString.admits(value@.ty) == Err::<(), TryFromValueError>(
                        error,
                    )
                    &&& final(engine).trace() == old(engine).trace()
                },
            },
    {
        match value.js_type() {
            ValueType::String => {
                let copy = engine.call_for_handle(
                    EngineCall::ValueToStringCopy {
                        ctx: value.context().as_raw(),
                        value: value.as_raw(),
                    },
                );
                Ok(String::owning(copy))
            },
            ty => Err(TryFromValueError::InvalidConversion(ty)),
        }
    }

    /// Reads this engine string as host text.
    pub fn to_host_string<E: Fn(&EngineCall) -> EngineReply>(&self, engine: &mut Engine<E>) -> (read:
        Result<std::string::String, TextError>)
        ensures
            final(engine).handler() == old(engine).handler(),
            continues(old(engine).trace(), final(engine).trace()),
            text_read(self@, added(old(engine).trace(), final(engine).trace()), read),
    {
        read_text(engine, self.as_raw())
    }
}

impl Object {
    /// Reads an object value as an object. The engine is not asked: the
    /// object is the value's own handle under another type.
    pub fn try_from(value: &Value) -> (read: Result<Object, TryFromValueError>)
        ensures
            match read {
                Ok(object) => {
                    &&& Conversion::Object.admits(value@.ty) is Ok
                    &&& object@ == (ObjectView { ctx: value@.ctx, raw: value@.raw })
                },
                Err(error) => Conversion::Object.admits(value@.ty) == Err::<(), TryFromValueError>(
                    error,
                ),
            },
    {
        match value.js_type() {
            ValueType::Object => Ok(Object::at(value.context(), value.as_raw())),
            ty => Err(TryFromValueError::InvalidConversion(ty)),
        }
    }
}

impl Value {
    /// Reads a number value, as the bits of the double it holds.
    pub fn to_number_bits<E: Fn(&EngineCall) -> EngineReply>(&self, engine: &mut Engine<E>) -> (read:
        Result<u64, TryFromValueError>)
        ensures
            final(engine).handler() == old(engine).handler(),
            match read {
                Ok(bits) => {
                    &&& Conversion::Number.admits(self@.ty) is Ok
                    &&& final(engine).trace() == old(engine).trace().push(
                        asked(
                            (EngineCall::ValueToNumber { ctx: self@.ctx, value: self@.raw }),
                            EngineReply::Number(bits),
                        ),
                    )
                },
                Err(error) => {
                    &&& Conversion::Number.admits(self@.ty) == Err::<(), TryFromValueError>(error)
                    &&& final(engine).trace() == old(engine).trace()
                },
            },
    {
        match self.js_type() {
            ValueType::Number => {
                let reply = engine.call(
                    EngineCall::ValueToNumber { ctx: self.context().as_raw(), value: self.as_raw() },
                );
                match reply {
                    EngineReply::Number(bits) => Ok(bits),
                    _ => vstd::pervasive::unreached(),
                }
            },
            ty => Err(TryFromValueError::InvalidConversion(ty)),
        }
    }

    /// Reads a boolean value.
    pub fn to_boolean<E: Fn(&EngineCall) -> EngineReply>(&self, engine: &mut Engine<E>) -> (read:
        Result<bool, TryFromValueError>)
        ensures
            final(engine).handler() == old(engine).handler(),
            match read {
                Ok(flag) => {
                    &&& Conversion::Boolean.admits(self@.ty) is Ok
                    &&& final(engine).trace() == old(engine).trace().push(
                        asked(
                            (EngineCall::ValueToBoolean { ctx: self@.ctx, value: self@.raw }),
                            EngineReply::Boolean(flag),
                        ),
                    )
                },
                Err(error) => {
                    &&& Conversion::Boolean.admits(self@.ty) == Err::<(), TryFromValueError>(error)
                    &&& final(engine).trace() == old(engine).trace()
                },
            },
    {
        match self.js_type() {
            ValueType::Boolean => {
                let reply = engine.call(
                    EngineCall::ValueToBoolean { ctx: self.context().as_raw(), value: self.as_raw() },
                );
                match reply {
                    EngineReply::Boolean(flag) => Ok(flag),
                    _ => vstd::pervasive::unreached(),
                }
            },
            ty => Err(TryFromValueError::InvalidConversion(ty)),
        }
    }
}

/// What reading a value as host text consists of. A value that is not a
/// string is refused before the engine is asked. For a string, the engine
/// makes a copy, the copy is read as text, and the reference to the copy is
/// given up again.
pub open spec fn host_text_read(
    value: ValueView,
    run: Seq<Exchange>,
    read: Result<std::string::String, HostTextError>,
) -> bool {
    if value.ty != ValueType::String {
        &&& run.len() == 0
        &&& read matches Err(HostTextError::Conversion(error))
        &&& error == TryFromValueError::InvalidConversion(value.ty)
    } else {
        &&& run.len() == 4
        &&& run[0].call == (EngineCall::ValueToStringCopy { ctx: value.ctx, value: value.raw })
        &&& run[0].reply matches EngineReply::Handle(copy)
        &&& copy != 0
        &&& match read {
            Ok(text) => text_read(copy, run.subrange(1, 3), Ok(text)),
            Err(HostTextError::Text(error)) => text_read(copy, run.subrange(1, 3), Err(error)),
            Err(HostTextError::Conversion(_)) => false,
        }
        &&& run[3] == asked(
            (EngineCall::Release { kind: ResourceKind::InternedString, handle: copy }),
            EngineReply::Unit,
        )
    }
}

impl Value {
    /// Reads a string value as host text.
    pub fn to_host_string<E: Fn(&EngineCall) -> EngineReply>(&self, engine: &mut Engine<E>) -> (read:
        Result<std::string::String, HostTextError>)
        ensures
            final(engine).handler() == old(engine).handler(),
            continues(old(engine).trace(), final(engine).trace()),
            host_text_read(self@, added(old(engine).trace(), final(engine).trace()), read),
    {
        let ghost before = engine.trace();
        match String::try_from(engine, self) {
            Err(error) => {
                proof {
                    assert(engine.trace() =~= before + Seq::<Exchange>::empty());
                    lemma_run_added(before, Seq::<Exchange>::empty());
                }
                Err(HostTextError::Conversion(error))
            },
            Ok(js_string) => {
                let ghost copied = engine.trace();
                let read = js_string.to_host_string(engine);
                let ghost written = engine.trace();
                let ghost copy = js_string@;
                js_string.release(engine);
                proof {
                    lemma_continued(copied, written);
                    let run = seq![
                        asked(
                            (EngineCall::ValueToStringCopy { ctx: self@.ctx, value: self@.raw }),
                            EngineReply::Handle(copy),
                        ),
                    ] + added(copied, written) + seq![
                        asked(
                            (EngineCall::Release { kind: ResourceKind::InternedString, handle: copy }),
                            EngineReply::Unit,
                        ),
                    ];
                    assert(engine.trace() =~= before + run);
                    lemma_run_added(before, run);
                    assert(run.subrange(1, 3) =~= added(copied, written));
                }
                match read {
                    Ok(text) => Ok(text),
                    Err(error) => Err(HostTextError::Text(error)),
                }
            },
        }
    }
}

/// A host string that goes to the engine and comes back is the same string.
///
/// Take any text that holds no zero character. An engine string can be made
/// from it. Where the engine, asked to write that string, writes the bytes it
/// was made from, reading the string as host text succeeds and gives the
/// text, character for character.
pub proof fn lemma_string_round_trip(
    text: Seq<char>,
    making: Seq<Exchange>,
    made: Result<String, NulError>,
    reading: Seq<Exchange>,
    read: Result<std::string::String, TextError>,
)
    requires
        forall|i: int| 0 <= i < text.len() ==> text[i] != '\0',
        string_made(text, making, made),
        made matches Ok(string) ==> text_read(string@, reading, read),
        made is Ok ==> {
            &&& making[0].call matches EngineCall::StringCreateWithUtf8CString { bytes }
            &&& reading[1].reply matches EngineReply::Utf8 { buffer, written }
            &&& written == bytes@.len() <= buffer@.len()
            &&& buffer@.take(written as int) == bytes@
        },
    ensures
        made is Ok,
        read matches Ok(back) && back@ == text,
{
    lemma_nul_byte_is_nul_char(text);
    let buffer = reading[1].reply->buffer;
    lemma_round_trip(text, buffer@);
}

impl ValueType {
    /// The name of the type.
    pub open spec fn name(self) -> Seq<char> {
        match self {
            ValueType::Undefined => "Undefined"@,
            ValueType::Null => "Null"@,
            ValueType::Boolean => "Boolean"@,
            ValueType::Number => "Number"@,
            ValueType::String => "String"@,
            ValueType::Object => "Object"@,
            ValueType::Symbol => "Symbol"@,
        }
    }

    /// The name of the type, as text.
    pub fn as_str(&self) -> (name: &'static str)
        ensures
            name@ == self.name(),
    {
        match self {
            ValueType::Undefined => "Undefined",
            ValueType::Null => "Null",
            ValueType::Boolean => "Boolean",
            ValueType::Number => "Number",
            ValueType::String => "String",
            ValueType::Object => "Object",
            ValueType::Symbol => "Symbol",
        }
    }
}

impl TryFromValueError {
    /// The text that the error is printed as.
    pub open spec fn text(self) -> Seq<char> {
        match self {
            TryFromValueError::InvalidConversion(ty) => "InvalidConversion("@ + ty.name() + ")"@,
        }
    }

    /// Prints the error: `InvalidConversion`, and in brackets the name of the
    /// type that the value has.
    pub fn to_string(&self) -> (text: std::string::String)
        ensures
            text@ == self.text(),
    {
        match self {
            TryFromValueError::InvalidConversion(ty) => {
                let mut text = std::string::String::from_str("InvalidConversion(");
                text.append(ty.as_str());
                text.append(")");
                text
            },
        }
    }
}

} // verus!
