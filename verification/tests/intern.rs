//! Interned literals.

use monty::intern::{InternerBuilder, Interns, StringId};
use monty::modules::BuiltinModule;
use monty::static_strings::StaticStrings;
use num_bigint::BigInt;

#[test]
fn interning_twice_gives_one_id() {
    let mut builder = InternerBuilder::new("x = 'abc'");
    let a = builder.intern("some_name");
    let b = builder.intern("other_name");
    assert_ne!(a, b);
    assert_eq!(builder.intern("some_name"), a);
    assert_eq!(builder.get_str(a), "some_name");
    assert_eq!(builder.get_str(b), "other_name");
}

#[test]
fn single_ascii_characters_have_ids_of_their_own() {
    let mut builder = InternerBuilder::new("");
    assert_eq!(builder.intern("x"), StringId::from_ascii(b'x'));
    let interns = Interns::new(builder, Vec::new());
    for byte in 0u8..128 {
        let id = StringId::from_ascii(byte);
        assert_eq!(interns.get_str(id), (byte as char).to_string());
        assert_eq!(interns.get_string_id_by_name(&(byte as char).to_string()), Some(id));
    }
    // A character outside of ASCII is interned like any text.
    assert_eq!(interns.get_string_id_by_name("\u{e9}"), None);
}

#[test]
fn known_names_have_ids_of_their_own() {
    let mut builder = InternerBuilder::new("");
    let id = builder.intern("append");
    assert_eq!(StaticStrings::from_string_id(id), StaticStrings::from_text("append"));
    assert_eq!(StaticStrings::from_text("append").unwrap().as_str(), "append");
    assert_eq!(StaticStrings::from_text("no such name"), None);
    let other = builder.intern("no such name");
    assert_eq!(StaticStrings::from_string_id(other), None);
    let mut seen: Vec<String> = Vec::new();
    for repr in 0..=u8::MAX {
        if let Some(s) = StaticStrings::from_repr(repr) {
            assert_eq!(s.to_repr(), repr);
            assert_eq!(StaticStrings::from_text(s.as_str()), Some(s));
            assert!(!seen.contains(&s.as_str().to_owned()));
            seen.push(s.as_str().to_owned());
        }
    }
    assert!(seen.len() > 100);
}

#[test]
fn bytes_and_long_integers_are_kept_in_order() {
    let mut builder = InternerBuilder::new("");
    let a = builder.intern_bytes(&[1, 2, 3]);
    let b = builder.intern_bytes(&[1, 2, 3]);
    // Bytes are not deduplicated.
    assert_ne!(a, b);
    let n: BigInt = "123456789012345678901234567890".parse().unwrap();
    let i = builder.intern_long_int(n.clone());
    let interns = Interns::new(builder, Vec::new());
    assert_eq!(interns.get_bytes(a), &[1, 2, 3]);
    assert_eq!(interns.get_bytes(b), &[1, 2, 3]);
    assert_eq!(interns.get_long_int(i), &n);
}

#[test]
fn later_snippets_keep_earlier_ids() {
    let mut builder = InternerBuilder::new("");
    let a = builder.intern("first");
    let bytes = builder.intern_bytes(&[9]);
    let interns = Interns::new(builder, Vec::new());
    let mut more = InternerBuilder::from_interns(&interns, "second");
    let b = more.intern("second");
    assert_eq!(more.intern("first"), a);
    let interns = Interns::new(more, Vec::new());
    assert_eq!(interns.get_str(a), "first");
    assert_eq!(interns.get_str(b), "second");
    assert_eq!(interns.get_bytes(bytes), &[9]);
    assert_eq!(interns.get_string_id_by_name("second"), Some(b));
    assert_eq!(interns.get_string_id_by_name("third"), None);
}

#[test]
fn modules_are_known_by_name() {
    let mut builder = InternerBuilder::new("");
    for (name, module) in [
        ("sys", BuiltinModule::Sys),
        ("collections", BuiltinModule::Collections),
        ("typing", BuiltinModule::Typing),
        ("asyncio", BuiltinModule::Asyncio),
        ("pathlib", BuiltinModule::Pathlib),
        ("os", BuiltinModule::Os),
        ("re", BuiltinModule::Re),
    ] {
        assert_eq!(BuiltinModule::from_string_id(builder.intern(name)), Some(module));
    }
    assert_eq!(BuiltinModule::from_string_id(builder.intern("append")), None);
    assert_eq!(BuiltinModule::from_string_id(builder.intern("numpy")), None);
}
