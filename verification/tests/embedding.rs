use jscore::callback::{
    callback_arguments, callback_return, callback_trampoline, callback_word, TrampolineReturn,
};
use jscore::convert::{read_text, HostTextError, TryFromValueError};
use jscore::display::MAX_DISPLAY_DEPTH;
use jscore::engine::{
    ClassDefinition, Engine, EngineCall, EngineReply, ResourceKind, SlotHandler,
};
use jscore::text::{NulError, TextError};
use jscore::types::{
    rust_function_defn, AddFunctionError, Context, ContextGroup, ContextType, Exception,
    ExceptionError, GlobalContext, Object, Value, ValueType,
};
use std::cell::RefCell;
use std::collections::HashMap;

type JsString = jscore::types::String;

#[derive(Clone, Debug, PartialEq)]
enum Js {
    Undefined,
    Null,
    Boolean(bool),
    Number(f64),
    Text(String),
    Object(Vec<(String, usize)>),
    Symbol,
}

/// A small stand-in for the engine: it keeps strings and values by handle,
/// answers each call as the engine would, and writes down every call.
struct World {
    next: usize,
    strings: HashMap<usize, Vec<u8>>,
    values: HashMap<usize, Js>,
    arrays: HashMap<usize, Vec<usize>>,
    private: HashMap<usize, usize>,
    classes: HashMap<usize, ClassDefinition>,
    scripts: HashMap<String, Result<Js, Js>>,
    raising: Vec<String>,
    drop_private: bool,
    global: usize,
    log: Vec<String>,
}

impl World {
    fn new() -> World {
        let mut world = World {
            next: 0x1000,
            strings: HashMap::new(),
            values: HashMap::new(),
            arrays: HashMap::new(),
            private: HashMap::new(),
            classes: HashMap::new(),
            scripts: HashMap::new(),
            raising: Vec::new(),
            drop_private: false,
            global: 0,
            log: Vec::new(),
        };
        world.global = world.value(Js::Object(Vec::new()));
        world
    }

    fn fresh(&mut self) -> usize {
        self.next += 8;
        self.next
    }

    fn value(&mut self, js: Js) -> usize {
        let handle = self.fresh();
        self.values.insert(handle, js);
        handle
    }

    fn string(&mut self, text: &str) -> usize {
        let handle = self.fresh();
        self.strings.insert(handle, text.as_bytes().to_vec());
        handle
    }

    fn text_of(&self, string: usize) -> String {
        String::from_utf8_lossy(&self.strings[&string]).into_owned()
    }

    fn object_with(&mut self, properties: &[(&str, Js)]) -> usize {
        let mut held = Vec::new();
        for (name, js) in properties {
            let handle = self.value(js.clone());
            held.push((name.to_string(), handle));
        }
        self.value(Js::Object(held))
    }

    fn error_object(&mut self, message: &str, stack: &str) -> Js {
        let message = self.value(Js::Text(message.to_string()));
        let stack = self.value(Js::Text(stack.to_string()));
        Js::Object(vec![("message".to_string(), message), ("stack".to_string(), stack)])
    }

    fn answer(&mut self, call: &EngineCall) -> EngineReply {
        self.log.push(format!("{:?}", call));
        match call {
            EngineCall::GroupCreate => EngineReply::Handle(self.fresh()),
            EngineCall::GlobalContextCreateInGroup { .. } => EngineReply::Handle(self.fresh()),
            EngineCall::Retain { handle, .. } => EngineReply::Handle(*handle),
            EngineCall::Release { .. } => EngineReply::Unit,
            EngineCall::ContextGetGlobalObject { .. } => EngineReply::Handle(self.global),
            EngineCall::EvaluateScript { script, .. } => {
                let source = self.text_of(*script);
                match self.scripts.get(&source).cloned() {
                    Some(Ok(js)) => EngineReply::Completion { value: self.value(js), exception: 0 },
                    Some(Err(js)) => EngineReply::Completion { value: 0, exception: self.value(js) },
                    None => {
                        let error = self.error_object("SyntaxError: Unexpected end of script", "");
                        EngineReply::Completion { value: 0, exception: self.value(error) }
                    },
                }
            },
            EngineCall::ValueGetType { value, .. } => EngineReply::TypeTag(match &self.values[value] {
                Js::Undefined => 0,
                Js::Null => 1,
                Js::Boolean(_) => 2,
                Js::Number(_) => 3,
                Js::Text(_) => 4,
                Js::Object(_) => 5,
                Js::Symbol => 6,
            }),
            EngineCall::ValueMakeUndefined { .. } => EngineReply::Handle(self.value(Js::Undefined)),
            EngineCall::ValueMakeString { string, .. } => {
                let text = self.text_of(*string);
                EngineReply::Handle(self.value(Js::Text(text)))
            },
            EngineCall::ValueToBoolean { value, .. } => EngineReply::Boolean(
                match &self.values[value] {
                    Js::Boolean(flag) => *flag,
                    _ => true,
                },
            ),
            EngineCall::ValueToNumber { value, .. } => EngineReply::Number(
                match &self.values[value] {
                    Js::Number(number) => number.to_bits(),
                    _ => f64::NAN.to_bits(),
                },
            ),
            EngineCall::ValueToStringCopy { value, .. } => {
                let text = match &self.values[value] {
                    Js::Text(text) => text.clone(),
                    other => format!("{:?}", other),
                };
                EngineReply::Handle(self.string(&text))
            },
            EngineCall::ClassCreate { definition } => {
                let handle = self.fresh();
                self.classes.insert(handle, *definition);
                EngineReply::Handle(handle)
            },
            EngineCall::ObjectMake { private_data, .. } => {
                let handle = self.value(Js::Object(Vec::new()));
                if !self.drop_private {
                    self.private.insert(handle, *private_data);
                }
                EngineReply::Handle(handle)
            },
            EngineCall::ObjectGetPrivate { object } => {
                EngineReply::Handle(self.private.get(object).copied().unwrap_or(0))
            },
            EngineCall::ObjectGetProperty { object, name, .. } => {
                let name = self.text_of(*name);
                if self.raising.contains(&name) {
                    let thrown = self.value(Js::Text(format!("cannot read {}", name)));
                    return EngineReply::Completion { value: 0, exception: thrown };
                }
                let found = match &self.values[object] {
                    Js::Object(held) => held.iter().find(|(n, _)| *n == name).map(|(_, v)| *v),
                    _ => None,
                };
                let value = match found {
                    Some(value) => value,
                    None => self.value(Js::Undefined),
                };
                EngineReply::Completion { value, exception: 0 }
            },
            EngineCall::ObjectSetProperty { object, name, value, .. } => {
                let name = self.text_of(*name);
                if let Some(Js::Object(held)) = self.values.get_mut(object) {
                    held.retain(|(n, _)| *n != name);
                    held.push((name, *value));
                }
                EngineReply::Unit
            },
            EngineCall::ObjectCopyPropertyNames { object, .. } => {
                let names: Vec<String> = match &self.values[object] {
                    Js::Object(held) => held.iter().map(|(n, _)| n.clone()).collect(),
                    _ => Vec::new(),
                };
                let handles = names.iter().map(|n| self.string(n)).collect();
                let array = self.fresh();
                self.arrays.insert(array, handles);
                EngineReply::Handle(array)
            },
            EngineCall::PropertyNameArrayGetCount { array } => {
                EngineReply::Size(self.arrays[array].len())
            },
            EngineCall::PropertyNameArrayGetNameAtIndex { array, index } => {
                EngineReply::Handle(self.arrays[array][*index])
            },
            EngineCall::StringCreateWithUtf8CString { bytes } => {
                let handle = self.fresh();
                self.strings.insert(handle, bytes[..bytes.len() - 1].to_vec());
                EngineReply::Handle(handle)
            },
            EngineCall::StringGetMaximumUtf8CStringSize { string } => {
                EngineReply::Size(self.strings[string].len() * 3 + 1)
            },
            EngineCall::StringGetUtf8CString { string, buffer_size } => {
                let bytes = &self.strings[string];
                let mut buffer = vec![0u8; *buffer_size];
                buffer[..bytes.len()].copy_from_slice(bytes);
                EngineReply::Utf8 { buffer, written: bytes.len() + 1 }
            },
            EngineCall::NumberToText { bits } => {
                EngineReply::Text(format!("{}", f64::from_bits(*bits)))
            },
        }
    }
}

fn log_of(world: &RefCell<World>) -> Vec<String> {
    world.borrow().log.clone()
}

fn release_of(kind: ResourceKind, handle: usize) -> String {
    format!("{:?}", EngineCall::Release { kind, handle })
}

fn retain_of(kind: ResourceKind, handle: usize) -> String {
    format!("{:?}", EngineCall::Retain { kind, handle })
}

#[test]
fn a_group_and_its_context_come_from_the_engine() {
    let world = RefCell::new(World::new());
    let mut engine = Engine::new(|call: &EngineCall| world.borrow_mut().answer(call));
    let group = ContextGroup::new(&mut engine);
    let context = group.create_global_context(&mut engine);
    assert_ne!(group.as_raw(), 0);
    assert_ne!(context.as_raw(), 0);
    assert_eq!(context.as_ptr(), context.as_raw());
    assert_eq!(context.context().as_raw(), context.as_raw());
    assert_eq!(
        log_of(&world),
        vec![
            format!("{:?}", EngineCall::GroupCreate),
            format!("{:?}", EngineCall::GlobalContextCreateInGroup { group: group.as_raw() }),
        ]
    );
}

#[test]
fn clone_and_drop_both_releases_once_more_than_it_retains() {
    let world = RefCell::new(World::new());
    let mut engine = Engine::new(|call: &EngineCall| world.borrow_mut().answer(call));
    let group = ContextGroup::new(&mut engine);
    let raw = group.as_raw();
    let copy = group.retain(&mut engine);
    assert_eq!(copy.as_raw(), raw);
    copy.release(&mut engine);
    group.release(&mut engine);
    let log = log_of(&world);
    let retains = log.iter().filter(|c| **c == retain_of(ResourceKind::Group, raw)).count();
    let releases = log.iter().filter(|c| **c == release_of(ResourceKind::Group, raw)).count();
    assert_eq!(retains, 1);
    assert_eq!(releases, 2);
}

#[test]
fn repeated_clone_and_drop_stays_balanced() {
    let world = RefCell::new(World::new());
    let mut engine = Engine::new(|call: &EngineCall| world.borrow_mut().answer(call));
    let group = ContextGroup::new(&mut engine);
    let context = group.create_global_context(&mut engine);
    let string = JsString::new(&mut engine, "kept").unwrap();
    for _ in 0..100 {
        group.retain(&mut engine).release(&mut engine);
        context.retain(&mut engine).release(&mut engine);
        string.retain(&mut engine).release(&mut engine);
    }
    let log = log_of(&world);
    for (kind, raw) in [
        (ResourceKind::Group, group.as_raw()),
        (ResourceKind::GlobalContext, context.as_raw()),
        (ResourceKind::InternedString, string.as_raw()),
    ] {
        let retains = log.iter().filter(|c| **c == retain_of(kind, raw)).count();
        let releases = log.iter().filter(|c| **c == release_of(kind, raw)).count();
        assert_eq!(retains, 100);
        assert_eq!(releases, 100);
    }
}

#[test]
fn host_text_goes_to_the_engine_and_comes_back() {
    let world = RefCell::new(World::new());
    let mut engine = Engine::new(|call: &EngineCall| world.borrow_mut().answer(call));
    for text in ["", "log", "1 + 2", "grüße ✓", "日本語 😀"] {
        let string = JsString::new(&mut engine, text).unwrap();
        assert_eq!(string.to_host_string(&mut engine), Ok(text.to_string()));
        assert_eq!(read_text(&mut engine, string.as_raw()), Ok(text.to_string()));
    }
}

#[test]
fn a_string_is_made_from_the_c_string_of_the_text() {
    let world = RefCell::new(World::new());
    let mut engine = Engine::new(|call: &EngineCall| world.borrow_mut().answer(call));
    JsString::new(&mut engine, "hi").unwrap();
    assert_eq!(
        log_of(&world),
        vec![format!("{:?}", EngineCall::StringCreateWithUtf8CString { bytes: vec![104, 105, 0] })]
    );
}

#[test]
fn text_with_a_zero_byte_never_reaches_the_engine() {
    let world = RefCell::new(World::new());
    let mut engine = Engine::new(|call: &EngineCall| world.borrow_mut().answer(call));
    let made = JsString::new(&mut engine, "lo\0g");
    assert_eq!(made.err(), Some(NulError { position: 2 }));
    assert!(log_of(&world).is_empty());
}

#[test]
fn text_that_the_engine_leaves_unterminated_is_an_error() {
    let mut engine = Engine::new(|call: &EngineCall| match call {
        EngineCall::StringGetMaximumUtf8CStringSize { .. } => EngineReply::Size(4),
        EngineCall::StringGetUtf8CString { .. } => {
            EngineReply::Utf8 { buffer: vec![1, 2, 3, 4], written: 4 }
        },
        _ => EngineReply::Unit,
    });
    assert_eq!(read_text(&mut engine, 8), Err(TextError::NotTerminated));
}

fn values_of_every_type(world: &RefCell<World>) -> Vec<(usize, ValueType)> {
    let mut world = world.borrow_mut();
    let object = world.object_with(&[]);
    vec![
        (world.value(Js::Undefined), ValueType::Undefined),
        (world.value(Js::Null), ValueType::Null),
        (world.value(Js::Boolean(true)), ValueType::Boolean),
        (world.value(Js::Number(1.5)), ValueType::Number),
        (world.value(Js::Text("text".to_string())), ValueType::String),
        (object, ValueType::Object),
        (world.value(Js::Symbol), ValueType::Symbol),
    ]
}

#[test]
fn a_value_carries_the_tag_the_engine_gave_it() {
    let world = RefCell::new(World::new());
    let handles = values_of_every_type(&world);
    let mut engine = Engine::new(|call: &EngineCall| world.borrow_mut().answer(call));
    let ctx = Context::at(0x40);
    for (raw, ty) in handles {
        assert_eq!(ValueType::from(&mut engine, ctx, raw), ty);
        let value = Value::from(&mut engine, ctx, raw);
        assert_eq!(value.js_type(), ty);
        assert_eq!(value.as_raw(), raw);
        assert_eq!(value.context().as_raw(), 0x40);
        assert!(value.context().same(&ctx));
    }
}

#[test]
fn only_the_conversion_for_the_type_goes_through() {
    let world = RefCell::new(World::new());
    let handles = values_of_every_type(&world);
    let mut engine = Engine::new(|call: &EngineCall| world.borrow_mut().answer(call));
    let ctx = Context::at(0x40);
    for (raw, ty) in handles {
        let value = Value::from(&mut engine, ctx, raw);
        let wrong = TryFromValueError::InvalidConversion(ty);
        let outcomes = [
            JsString::try_from(&mut engine, &value).map(|_| ()),
            value.to_number_bits(&mut engine).map(|_| ()),
            value.to_boolean(&mut engine).map(|_| ()),
            Object::try_from(&value).map(|_| ()),
        ];
        let targets =
            [ValueType::String, ValueType::Number, ValueType::Boolean, ValueType::Object];
        for (outcome, target) in outcomes.iter().zip(targets) {
            if target == ty {
                assert_eq!(*outcome, Ok(()));
            } else {
                assert_eq!(*outcome, Err(wrong));
            }
        }
        let passed = outcomes.iter().filter(|o| o.is_ok()).count();
        let expected = if targets.contains(&ty) { 1 } else { 0 };
        assert_eq!(passed, expected);
    }
}

#[test]
fn a_string_is_not_read_as_a_number() {
    let world = RefCell::new(World::new());
    let raw = world.borrow_mut().value(Js::Text("12".to_string()));
    let mut engine = Engine::new(|call: &EngineCall| world.borrow_mut().answer(call));
    let value = Value::from(&mut engine, Context::at(0x40), raw);
    let asked_before = log_of(&world).len();
    assert_eq!(
        value.to_number_bits(&mut engine),
        Err(TryFromValueError::InvalidConversion(ValueType::String))
    );
    assert_eq!(log_of(&world).len(), asked_before);
}

#[test]
fn typed_reads_copy_the_payload_out() {
    let world = RefCell::new(World::new());
    let (number, flag, text, object) = {
        let mut world = world.borrow_mut();
        (
            world.value(Js::Number(-2.25)),
            world.value(Js::Boolean(false)),
            world.value(Js::Text("päy".to_string())),
            world.object_with(&[]),
        )
    };
    let mut engine = Engine::new(|call: &EngineCall| world.borrow_mut().answer(call));
    let ctx = Context::at(0x40);
    let value = Value::from(&mut engine, ctx, number);
    assert_eq!(value.to_number_bits(&mut engine).map(f64::from_bits), Ok(-2.25));
    let value = Value::from(&mut engine, ctx, flag);
    assert_eq!(value.to_boolean(&mut engine), Ok(false));
    let value = Value::from(&mut engine, ctx, text);
    assert_eq!(value.to_host_string(&mut engine), Ok("päy".to_string()));
    let value = Value::from(&mut engine, ctx, object);
    let read = Object::try_from(&value).unwrap();
    assert_eq!(read.as_raw(), object);
    assert_eq!(read.context().as_raw(), 0x40);
    assert_eq!(read.to_js_value().js_type(), ValueType::Object);
    assert_eq!(read.to_js_value().as_raw(), object);
}

#[test]
fn reading_host_text_gives_the_copy_back() {
    let world = RefCell::new(World::new());
    let text = world.borrow_mut().value(Js::Text("copy".to_string()));
    let mut engine = Engine::new(|call: &EngineCall| world.borrow_mut().answer(call));
    let value = Value::from(&mut engine, Context::at(0x40), text);
    let before = log_of(&world).len();
    assert_eq!(value.to_host_string(&mut engine), Ok("copy".to_string()));
    let log = log_of(&world);
    assert_eq!(log.len(), before + 4);
    assert!(log[before].starts_with("ValueToStringCopy"));
    assert!(log[before + 3].starts_with("Release"));
}

#[test]
fn a_number_is_not_read_as_host_text() {
    let world = RefCell::new(World::new());
    let raw = world.borrow_mut().value(Js::Number(3.0));
    let mut engine = Engine::new(|call: &EngineCall| world.borrow_mut().answer(call));
    let value = Value::from(&mut engine, Context::at(0x40), raw);
    assert_eq!(
        value.to_host_string(&mut engine),
        Err(HostTextError::Conversion(TryFromValueError::InvalidConversion(ValueType::Number)))
    );
}

#[test]
fn a_string_that_is_not_utf8_is_not_host_text() {
    let world = RefCell::new(World::new());
    let raw = world.borrow_mut().value(Js::Text("x".to_string()));
    let mut engine = Engine::new(|call: &EngineCall| match call {
        EngineCall::StringGetUtf8CString { .. } => {
            EngineReply::Utf8 { buffer: vec![0xff, 0xfe, 0], written: 3 }
        },
        other => world.borrow_mut().answer(other),
    });
    let value = Value::from(&mut engine, Context::at(0x40), raw);
    assert_eq!(value.to_host_string(&mut engine), Err(HostTextError::Text(TextError::InvalidUtf8)));
}

#[test]
fn evaluating_a_sum_gives_its_value() {
    let world = RefCell::new(World::new());
    world.borrow_mut().scripts.insert("1 + 2".to_string(), Ok(Js::Number(3.0)));
    let mut engine = Engine::new(|call: &EngineCall| world.borrow_mut().answer(call));
    let group = ContextGroup::new(&mut engine);
    let context = group.create_global_context(&mut engine);
    let script = JsString::new(&mut engine, "1 + 2").unwrap();
    let value = context.evaluate_script_sync(&mut engine, &script).unwrap();
    assert_eq!(value.js_type(), ValueType::Number);
    assert_eq!(value.context().as_raw(), context.as_raw());
    assert_eq!(value.to_number_bits(&mut engine).map(f64::from_bits), Ok(3.0));
}

#[test]
fn evaluating_a_broken_script_gives_an_exception_with_a_message() {
    let world = RefCell::new(World::new());
    let mut engine = Engine::new(|call: &EngineCall| world.borrow_mut().answer(call));
    let group = ContextGroup::new(&mut engine);
    let context = group.create_global_context(&mut engine);
    let script = JsString::new(&mut engine, "(").unwrap();
    let before = log_of(&world).len();
    let exception = context.evaluate_script_sync(&mut engine, &script).unwrap_err();
    assert_eq!(log_of(&world).len(), before + 1);
    assert_eq!(exception.as_object().context().as_raw(), context.as_raw());
    let message = exception.message(&mut engine).unwrap();
    assert!(!message.is_empty());
    assert_eq!(message, "SyntaxError: Unexpected end of script");
    assert_eq!(exception.stack(&mut engine).unwrap(), "");
}

#[test]
fn reading_a_field_of_an_exception_gives_back_what_it_took() {
    let world = RefCell::new(World::new());
    let error = world.borrow_mut().error_object("boom", "at line 1");
    let raw = world.borrow_mut().value(error);
    let mut engine = Engine::new(|call: &EngineCall| world.borrow_mut().answer(call));
    let exception = Exception::from_object(Object::at(Context::at(0x40), raw));
    assert_eq!(exception.stack(&mut engine).unwrap(), "at line 1");
    let log = log_of(&world);
    assert_eq!(log.len(), 8);
    let kinds: Vec<&str> = log.iter().map(|c| c.split(' ').next().unwrap()).collect();
    assert_eq!(
        kinds,
        vec![
            "StringCreateWithUtf8CString",
            "ObjectGetProperty",
            "ValueGetType",
            "Release",
            "ValueToStringCopy",
            "StringGetMaximumUtf8CStringSize",
            "StringGetUtf8CString",
            "Release",
        ]
    );
    assert_eq!(log[0], format!("{:?}", EngineCall::StringCreateWithUtf8CString {
        bytes: vec![115, 116, 97, 99, 107, 0]
    }));
}

#[test]
fn an_exception_without_a_message_has_no_text_field() {
    let world = RefCell::new(World::new());
    let raw = world.borrow_mut().object_with(&[("message", Js::Number(4.0))]);
    let mut engine = Engine::new(|call: &EngineCall| world.borrow_mut().answer(call));
    let exception = Exception::from_object(Object::at(Context::at(0x40), raw));
    match exception.message(&mut engine) {
        Err(ExceptionError::NotText(HostTextError::Conversion(
            TryFromValueError::InvalidConversion(ValueType::Number),
        ))) => {},
        other => panic!("{:?}", other),
    }
    match exception.stack(&mut engine) {
        Err(ExceptionError::NotText(HostTextError::Conversion(
            TryFromValueError::InvalidConversion(ValueType::Undefined),
        ))) => {},
        other => panic!("{:?}", other),
    }
}

#[test]
fn an_exception_whose_field_raises_on_read() {
    let world = RefCell::new(World::new());
    let raw = world.borrow_mut().object_with(&[]);
    world.borrow_mut().raising.push("message".to_string());
    let mut engine = Engine::new(|call: &EngineCall| world.borrow_mut().answer(call));
    let exception = Exception::from_object(Object::at(Context::at(0x40), raw));
    match exception.message(&mut engine) {
        Err(ExceptionError::Raised(thrown)) => assert_eq!(thrown.js_type(), ValueType::String),
        other => panic!("{:?}", other),
    }
    assert_eq!(log_of(&world).len(), 4);
}

#[test]
fn an_exception_is_printed_with_message_and_stack() {
    assert_eq!(Exception::display_text("boom", "f@1\ng@2"), "Message: boom\nStack:\nf@1\ng@2");
    assert_eq!(Exception::display_text("", ""), "Message: \nStack:\n");
}

#[test]
fn a_property_is_read_by_name() {
    let world = RefCell::new(World::new());
    let raw = world.borrow_mut().object_with(&[("answer", Js::Number(42.0))]);
    let mut engine = Engine::new(|call: &EngineCall| world.borrow_mut().answer(call));
    let object = Object::at(Context::at(0x40), raw);
    let name = JsString::new(&mut engine, "answer").unwrap();
    let found = object.get_property(&mut engine, &name).unwrap();
    assert_eq!(found.js_type(), ValueType::Number);
    assert_eq!(found.context().as_raw(), 0x40);
    assert_eq!(found.to_number_bits(&mut engine).map(f64::from_bits), Ok(42.0));
    let other = JsString::new(&mut engine, "other").unwrap();
    let missing = object.get_property(&mut engine, &other).unwrap();
    assert_eq!(missing.js_type(), ValueType::Undefined);
}

#[test]
fn a_property_read_that_raises_gives_what_was_raised() {
    let world = RefCell::new(World::new());
    let raw = world.borrow_mut().object_with(&[]);
    world.borrow_mut().raising.push("trap".to_string());
    let mut engine = Engine::new(|call: &EngineCall| world.borrow_mut().answer(call));
    let object = Object::at(Context::at(0x40), raw);
    let name = JsString::new(&mut engine, "trap").unwrap();
    let raised = object.get_property(&mut engine, &name).unwrap_err();
    assert_eq!(raised.js_type(), ValueType::String);
    assert_eq!(raised.to_host_string(&mut engine), Ok("cannot read trap".to_string()));
}

#[test]
fn a_property_is_written_without_attributes() {
    let world = RefCell::new(World::new());
    let raw = world.borrow_mut().object_with(&[]);
    let seven = world.borrow_mut().value(Js::Number(7.0));
    let mut engine = Engine::new(|call: &EngineCall| world.borrow_mut().answer(call));
    let ctx = Context::at(0x40);
    let object = Object::at(ctx, raw);
    let name = JsString::new(&mut engine, "seven").unwrap();
    let value = Value::from(&mut engine, ctx, seven);
    object.set_property(&mut engine, &name, value);
    assert_eq!(
        log_of(&world).last().unwrap(),
        &format!("{:?}", EngineCall::ObjectSetProperty {
            ctx: 0x40,
            object: raw,
            name: name.as_raw(),
            value: seven,
            attributes: 0,
        })
    );
    let found = object.get_property(&mut engine, &name).unwrap();
    assert_eq!(found.as_raw(), seven);
}

#[test]
fn the_global_object_belongs_to_its_context() {
    let world = RefCell::new(World::new());
    let mut engine = Engine::new(|call: &EngineCall| world.borrow_mut().answer(call));
    let group = ContextGroup::new(&mut engine);
    let context = group.create_global_context(&mut engine);
    let global = context.global_object(&mut engine);
    assert_eq!(global.context().as_raw(), context.as_raw());
    assert_eq!(global.as_raw(), world.borrow().global);
}

#[test]
fn undefined_is_made_without_asking_for_its_type() {
    let world = RefCell::new(World::new());
    let mut engine = Engine::new(|call: &EngineCall| world.borrow_mut().answer(call));
    let ctx = Context::at(0x40);
    let value = ctx.undefined(&mut engine);
    assert_eq!(value.js_type(), ValueType::Undefined);
    assert_eq!(value.context().as_raw(), 0x40);
    assert_eq!(log_of(&world), vec![format!("{:?}", EngineCall::ValueMakeUndefined { ctx: 0x40 })]);
}

#[test]
fn the_class_of_a_native_function_calls_the_trampoline() {
    let world = RefCell::new(World::new());
    let mut engine = Engine::new(|call: &EngineCall| world.borrow_mut().answer(call));
    let name = JsString::new(&mut engine, "echo").unwrap();
    let definition = rust_function_defn(&name);
    assert_eq!(definition, ClassDefinition {
        version: 0,
        attributes: 0,
        class_name: name.as_raw(),
        parent_class: 0,
        static_values: 0,
        static_functions: 0,
        initialize: SlotHandler::Default,
        finalize: SlotHandler::Default,
        has_property: SlotHandler::Default,
        get_property: SlotHandler::Default,
        set_property: SlotHandler::Default,
        delete_property: SlotHandler::Default,
        get_property_names: SlotHandler::Default,
        call_as_function: SlotHandler::Trampoline,
        call_as_constructor: SlotHandler::Default,
        has_instance: SlotHandler::Default,
        convert_to_type: SlotHandler::Default,
    });
}

#[test]
fn a_function_object_keeps_the_word_of_its_callback() {
    let world = RefCell::new(World::new());
    let mut engine = Engine::new(|call: &EngineCall| world.borrow_mut().answer(call));
    let parent = Object::at(Context::at(0x40), world.borrow().global);
    let name = JsString::new(&mut engine, "echo").unwrap();
    let made = parent.make_function_with_callback(&mut engine, &name, 0xca11).unwrap();
    assert_eq!(made.context().as_raw(), 0x40);
    assert_eq!(world.borrow().private[&made.as_raw()], 0xca11);
    let class = *world.borrow().classes.values().next().unwrap();
    assert_eq!(class, rust_function_defn(&name));
}

#[test]
fn a_function_object_without_private_data_is_not_handed_out() {
    let world = RefCell::new(World::new());
    world.borrow_mut().drop_private = true;
    let mut engine = Engine::new(|call: &EngineCall| world.borrow_mut().answer(call));
    let parent = Object::at(Context::at(0x40), world.borrow().global);
    let name = JsString::new(&mut engine, "echo").unwrap();
    assert!(parent.make_function_with_callback(&mut engine, &name, 0xca11).is_none());
}

#[test]
fn a_native_function_is_installed_on_the_global_object() {
    let world = RefCell::new(World::new());
    let mut engine = Engine::new(|call: &EngineCall| world.borrow_mut().answer(call));
    let group = ContextGroup::new(&mut engine);
    let context = group.create_global_context(&mut engine);
    let before = log_of(&world).len();
    assert_eq!(context.add_function(&mut engine, "echo", 0xca11), Ok(()));
    let log = log_of(&world);
    let kinds: Vec<&str> = log[before..].iter().map(|c| c.split(' ').next().unwrap()).collect();
    assert_eq!(
        kinds,
        vec![
            "StringCreateWithUtf8CString",
            "ContextGetGlobalObject",
            "ClassCreate",
            "ObjectMake",
            "ObjectGetPrivate",
            "ValueGetType",
            "ObjectSetProperty",
            "Release",
        ]
    );
    let global = context.global_object(&mut engine);
    let name = JsString::new(&mut engine, "echo").unwrap();
    let installed = global.get_property(&mut engine, &name).unwrap();
    assert_eq!(installed.js_type(), ValueType::Object);
    assert_eq!(world.borrow().private[&installed.as_raw()], 0xca11);
}

#[test]
fn a_native_function_needs_a_name_without_a_zero_byte() {
    let world = RefCell::new(World::new());
    let mut engine = Engine::new(|call: &EngineCall| world.borrow_mut().answer(call));
    let group = ContextGroup::new(&mut engine);
    let context = group.create_global_context(&mut engine);
    let before = log_of(&world).len();
    assert_eq!(
        context.add_function(&mut engine, "ec\0ho", 0xca11),
        Err(AddFunctionError::Name(NulError { position: 2 }))
    );
    assert_eq!(log_of(&world).len(), before);
}

#[test]
fn a_native_function_without_private_data_is_not_installed() {
    let world = RefCell::new(World::new());
    world.borrow_mut().drop_private = true;
    let mut engine = Engine::new(|call: &EngineCall| world.borrow_mut().answer(call));
    let group = ContextGroup::new(&mut engine);
    let context = group.create_global_context(&mut engine);
    let before = log_of(&world).len();
    assert_eq!(
        context.add_function(&mut engine, "echo", 0xca11),
        Err(AddFunctionError::NoPrivateData)
    );
    let log = log_of(&world);
    assert_eq!(log.len(), before + 6);
    assert!(log.last().unwrap().starts_with("Release"));
    assert!(!log.iter().any(|c| c.starts_with("ObjectSetProperty")));
}

fn echo(_ctx: Context, _this: Object, mut arguments: Vec<Value>) -> Result<Value, JsString> {
    Ok(arguments.remove(0))
}

#[test]
fn arguments_are_wrapped_in_order() {
    let world = RefCell::new(World::new());
    let raws = {
        let mut world = world.borrow_mut();
        vec![
            world.value(Js::Text("it works".to_string())),
            world.value(Js::Number(42.0)),
            world.value(Js::Null),
        ]
    };
    let mut engine = Engine::new(|call: &EngineCall| world.borrow_mut().answer(call));
    let values = callback_arguments(&mut engine, Context::at(0x40), &raws);
    assert_eq!(values.len(), 3);
    let types: Vec<ValueType> = values.iter().map(|v| v.js_type()).collect();
    assert_eq!(types, vec![ValueType::String, ValueType::Number, ValueType::Null]);
    let seen: Vec<usize> = values.iter().map(|v| v.as_raw()).collect();
    assert_eq!(seen, raws);
    assert!(values.iter().all(|v| v.context().as_raw() == 0x40));
    let none = callback_arguments(&mut engine, Context::at(0x40), &Vec::new());
    assert!(none.is_empty());
}

#[test]
fn a_callback_that_echoes_gives_its_argument_back() {
    let world = RefCell::new(World::new());
    let raw = world.borrow_mut().value(Js::Number(42.0));
    let this_object = world.borrow().global;
    let mut engine = Engine::new(|call: &EngineCall| world.borrow_mut().answer(call));
    let returned = callback_trampoline(&mut engine, echo, 0x40, this_object, &vec![raw]);
    assert_eq!(returned, TrampolineReturn { result: raw, exception: None });
    let value = Value::from(&mut engine, Context::at(0x40), returned.result);
    assert_eq!(value.to_number_bits(&mut engine).map(f64::from_bits), Ok(42.0));
}

#[test]
fn a_callback_sees_the_context_and_this_object() {
    let world = RefCell::new(World::new());
    let mut engine = Engine::new(|call: &EngineCall| world.borrow_mut().answer(call));
    let seen = RefCell::new((0, 0, 0, 0));
    let returned = callback_trampoline(
        &mut engine,
        |ctx: Context, this: Object, arguments: Vec<Value>| -> Result<Value, JsString> {
            *seen.borrow_mut() =
                (ctx.as_raw(), this.as_raw(), this.context().as_raw(), arguments.len());
            Ok(this.to_js_value())
        },
        0x40,
        0x88,
        &Vec::new(),
    );
    assert_eq!(*seen.borrow(), (0x40, 0x88, 0x40, 0));
    assert_eq!(returned, TrampolineReturn { result: 0x88, exception: None });
}

#[test]
fn a_callback_that_fails_raises_its_message() {
    let world = RefCell::new(World::new());
    let boom = world.borrow_mut().string("boom");
    let mut engine = Engine::new(|call: &EngineCall| world.borrow_mut().answer(call));
    let failing = JsString::new(&mut engine, "boom").unwrap();
    let message = failing.as_raw();
    let before = log_of(&world).len();
    let returned = callback_return(&mut engine, Context::at(0x40), Err(failing));
    let thrown = returned.exception.unwrap();
    assert_eq!(world.borrow().values[&thrown], Js::Text("boom".to_string()));
    assert_eq!(world.borrow().values[&returned.result], Js::Undefined);
    let log = log_of(&world);
    assert_eq!(
        log[before..].to_vec(),
        vec![
            format!("{:?}", EngineCall::ValueMakeString { ctx: 0x40, string: message }),
            format!("{:?}", EngineCall::ValueMakeUndefined { ctx: 0x40 }),
            release_of(ResourceKind::InternedString, message),
        ]
    );
    assert_ne!(boom, message);
}

#[test]
fn a_failing_callback_is_seen_by_the_script_as_an_exception() {
    let world = RefCell::new(World::new());
    let mut engine = Engine::new(|call: &EngineCall| world.borrow_mut().answer(call));
    let made = RefCell::new(Vec::new());
    let returned = callback_trampoline(
        &mut engine,
        |_ctx: Context, _this: Object, _arguments: Vec<Value>| -> Result<Value, JsString> {
            let mut inner = Engine::new(|call: &EngineCall| world.borrow_mut().answer(call));
            let message = JsString::new(&mut inner, "boom").unwrap();
            made.borrow_mut().push(message.as_raw());
            Err(message)
        },
        0x40,
        0x88,
        &Vec::new(),
    );
    let thrown = Value::from(&mut engine, Context::at(0x40), returned.exception.unwrap());
    assert_eq!(thrown.to_host_string(&mut engine), Ok("boom".to_string()));
    let undefined = Value::from(&mut engine, Context::at(0x40), returned.result);
    assert_eq!(undefined.js_type(), ValueType::Undefined);
    assert_eq!(made.borrow().len(), 1);
}

fn shown(world: &RefCell<World>, raw: usize) -> String {
    let mut engine = Engine::new(|call: &EngineCall| world.borrow_mut().answer(call));
    let value = Value::from(&mut engine, Context::at(0x40), raw);
    value.to_string(&mut engine)
}

#[test]
fn values_without_properties_are_shown_by_their_type() {
    let world = RefCell::new(World::new());
    let cases = [
        (Js::Undefined, "undefined"),
        (Js::Null, "null"),
        (Js::Symbol, "Symbol(...)"),
        (Js::Boolean(true), "true"),
        (Js::Boolean(false), "false"),
        (Js::Number(3.0), "3"),
        (Js::Number(5207166.828), "5207166.828"),
        (Js::Number(-0.5), "-0.5"),
        (Js::Text("it works".to_string()), "it works"),
        (Js::Text(String::new()), ""),
    ];
    for (js, text) in cases {
        let raw = world.borrow_mut().value(js);
        assert_eq!(shown(&world, raw), text);
    }
}

#[test]
fn showing_a_fixed_word_asks_nothing() {
    let world = RefCell::new(World::new());
    let raw = world.borrow_mut().value(Js::Null);
    assert_eq!(shown(&world, raw), "null");
    assert_eq!(log_of(&world).len(), 1);
}

#[test]
fn an_object_is_shown_with_its_properties() {
    let world = RefCell::new(World::new());
    let raw = world.borrow_mut().object_with(&[
        ("a", Js::Number(1.0)),
        ("b", Js::Boolean(true)),
        ("c", Js::Text("see".to_string())),
        ("d", Js::Null),
    ]);
    assert_eq!(shown(&world, raw), "Object { a: 1, b: true, c: see, d: null }");
    let single = world.borrow_mut().object_with(&[("only", Js::Undefined)]);
    assert_eq!(shown(&world, single), "Object { only: undefined }");
}

#[test]
fn an_object_without_properties_is_shown_bare() {
    let world = RefCell::new(World::new());
    let raw = world.borrow_mut().object_with(&[]);
    assert_eq!(shown(&world, raw), "Object");
}

#[test]
fn a_property_that_raises_is_shown_as_unreadable() {
    let world = RefCell::new(World::new());
    let raw = world.borrow_mut().object_with(&[("a", Js::Number(1.0)), ("trap", Js::Null)]);
    world.borrow_mut().raising.push("trap".to_string());
    assert_eq!(shown(&world, raw), "Object { a: 1, trap: <unreadable> }");
}

#[test]
fn a_string_that_is_not_text_is_shown_as_unreadable() {
    let world = RefCell::new(World::new());
    let raw = world.borrow_mut().value(Js::Text("x".to_string()));
    let mut engine = Engine::new(|call: &EngineCall| match call {
        EngineCall::StringGetUtf8CString { .. } => {
            EngineReply::Utf8 { buffer: vec![0xff, 0], written: 2 }
        },
        other => world.borrow_mut().answer(other),
    });
    let value = Value::from(&mut engine, Context::at(0x40), raw);
    assert_eq!(value.to_string(&mut engine), "<unreadable>");
}

fn nested(world: &RefCell<World>, levels: usize) -> usize {
    let mut world = world.borrow_mut();
    let mut raw = world.object_with(&[("leaf", Js::Number(0.0))]);
    for _ in 0..levels {
        raw = world.value(Js::Object(vec![("in".to_string(), raw)]));
    }
    raw
}

#[test]
fn objects_within_objects_are_shown_too() {
    let world = RefCell::new(World::new());
    let raw = nested(&world, 2);
    assert_eq!(shown(&world, raw), "Object { in: Object { in: Object { leaf: 0 } } }");
}

#[test]
fn objects_are_shown_down_to_a_fixed_depth() {
    assert_eq!(MAX_DISPLAY_DEPTH, 4);
    let world = RefCell::new(World::new());
    let raw = nested(&world, 3);
    assert_eq!(
        shown(&world, raw),
        "Object { in: Object { in: Object { in: Object { leaf: 0 } } } }"
    );
    let deeper = nested(&world, 4);
    assert_eq!(
        shown(&world, deeper),
        "Object { in: Object { in: Object { in: Object { in: Object { .. } } } } }"
    );
}

#[test]
fn an_object_that_holds_itself_is_shown_without_end_of_patience() {
    let world = RefCell::new(World::new());
    let raw = world.borrow_mut().object_with(&[]);
    world.borrow_mut().values.insert(raw, Js::Object(vec![("me".to_string(), raw)]));
    assert_eq!(
        shown(&world, raw),
        "Object { me: Object { me: Object { me: Object { me: Object { .. } } } } }"
    );
}

#[test]
fn a_reply_is_tested_against_its_call() {
    let tag = EngineCall::ValueGetType { ctx: 1, value: 2 };
    assert!(EngineReply::TypeTag(6).is_answer_to(&tag));
    assert!(!EngineReply::TypeTag(7).is_answer_to(&tag));
    assert!(!EngineReply::Handle(6).is_answer_to(&tag));
    let copy = EngineCall::ValueToStringCopy { ctx: 1, value: 2 };
    assert!(EngineReply::Handle(8).is_answer_to(&copy));
    assert!(!EngineReply::Handle(0).is_answer_to(&copy));
    let private = EngineCall::ObjectGetPrivate { object: 2 };
    assert!(EngineReply::Handle(0).is_answer_to(&private));
    let release = EngineCall::Release { kind: ResourceKind::Group, handle: 2 };
    assert!(EngineReply::Unit.is_answer_to(&release));
    assert!(!EngineReply::Size(0).is_answer_to(&release));
    let evaluate = EngineCall::EvaluateScript { ctx: 1, script: 2 };
    assert!(EngineReply::Completion { value: 0, exception: 9 }.is_answer_to(&evaluate));
    let write = EngineCall::StringGetUtf8CString { string: 1, buffer_size: 2 };
    assert!(EngineReply::Utf8 { buffer: vec![], written: 5 }.is_answer_to(&write));
    let print = EngineCall::NumberToText { bits: 0 };
    assert!(EngineReply::Text(String::new()).is_answer_to(&print));
    assert!(!EngineReply::Boolean(true).is_answer_to(&print));
}

#[test]
fn a_global_context_is_a_context() {
    let world = RefCell::new(World::new());
    let mut engine = Engine::new(|call: &EngineCall| world.borrow_mut().answer(call));
    let group = ContextGroup::new(&mut engine);
    let context: GlobalContext = group.create_global_context(&mut engine);
    let value = context.undefined(&mut engine);
    assert_eq!(value.context().as_raw(), context.as_ptr());
}

fn fail(_ctx: Context, _this: Object, _arguments: Vec<Value>) -> Result<Value, JsString> {
    Err(JsString::new(&mut Engine::new(|_: &EngineCall| EngineReply::Handle(0xb00)), "boom").unwrap())
}

/// Answers like the stand-in engine, and runs the script `name(42)` by
/// calling the native function installed under `name` with the number 42.
fn answer_with_calls(
    world: &RefCell<World>,
    installed: &[(&str, usize)],
    call: &EngineCall,
) -> EngineReply {
    if let EngineCall::EvaluateScript { ctx, script } = call {
        let source = world.borrow().text_of(*script);
        for (name, word) in installed {
            if source == format!("{}(42)", name) {
                let global = world.borrow().global;
                let function = match &world.borrow().values[&global] {
                    Js::Object(held) => held.iter().find(|(n, _)| n == name).map(|(_, v)| *v),
                    _ => None,
                };
                let mut asking = Engine::new(|call: &EngineCall| world.borrow_mut().answer(call));
                let private = callback_word(&mut asking, function.unwrap());
                assert_eq!(private, *word);
                let argument = world.borrow_mut().value(Js::Number(42.0));
                let mut inner = Engine::new(|call: &EngineCall| world.borrow_mut().answer(call));
                let returned = if *word == 1 {
                    callback_trampoline(&mut inner, echo, *ctx, global, &vec![argument])
                } else {
                    world.borrow_mut().strings.insert(0xb00, b"boom".to_vec());
                    callback_trampoline(&mut inner, fail, *ctx, global, &vec![argument])
                };
                return match returned.exception {
                    None => EngineReply::Completion { value: returned.result, exception: 0 },
                    Some(thrown) => EngineReply::Completion { value: 0, exception: thrown },
                };
            }
        }
    }
    world.borrow_mut().answer(call)
}

#[test]
fn an_installed_echo_gives_back_what_the_script_passes() {
    let world = RefCell::new(World::new());
    let installed = [("echo", 1), ("fail", 2)];
    let mut engine =
        Engine::new(|call: &EngineCall| answer_with_calls(&world, &installed, call));
    let group = ContextGroup::new(&mut engine);
    let context = group.create_global_context(&mut engine);
    assert_eq!(context.add_function(&mut engine, "echo", 1), Ok(()));
    let script = JsString::new(&mut engine, "echo(42)").unwrap();
    let value = context.evaluate_script_sync(&mut engine, &script).unwrap();
    assert_eq!(value.to_number_bits(&mut engine).map(f64::from_bits), Ok(42.0));
    assert_eq!(value.to_string(&mut engine), "42");
}

#[test]
fn an_installed_function_that_fails_raises_in_the_script() {
    let world = RefCell::new(World::new());
    let installed = [("echo", 1), ("fail", 2)];
    let mut engine =
        Engine::new(|call: &EngineCall| answer_with_calls(&world, &installed, call));
    let group = ContextGroup::new(&mut engine);
    let context = group.create_global_context(&mut engine);
    assert_eq!(context.add_function(&mut engine, "fail", 2), Ok(()));
    let script = JsString::new(&mut engine, "fail(42)").unwrap();
    let exception = context.evaluate_script_sync(&mut engine, &script).unwrap_err();
    let thrown = Value::from(&mut engine, context.context(), exception.as_object().as_raw());
    assert_eq!(thrown.js_type(), ValueType::String);
    assert_eq!(thrown.to_host_string(&mut engine), Ok("boom".to_string()));
}

#[test]
fn the_word_of_a_callback_is_read_back_from_its_function_object() {
    let world = RefCell::new(World::new());
    let mut engine = Engine::new(|call: &EngineCall| world.borrow_mut().answer(call));
    let parent = Object::at(Context::at(0x40), world.borrow().global);
    let name = JsString::new(&mut engine, "echo").unwrap();
    let made = parent.make_function_with_callback(&mut engine, &name, 0xca11).unwrap();
    assert_eq!(callback_word(&mut engine, made.as_raw()), 0xca11);
    assert_eq!(callback_word(&mut engine, parent.as_raw()), 0);
}
