use std::hint;

use lox::symbols::{Symbol, SymbolTable};

/// Tests that the pre-interned [`Symbol`]s have the expected string slices.
#[test]
fn pre_interned_symbols_have_expected_string_slices() {
    let symbols = SymbolTable::new();
    assert_eq!(symbols.string(Symbol::error()), "<error>");
}

/// Tests that string slices are interned to the expected pre-interned symbols.
#[test]
fn string_slices_intern_to_expected_pre_interned_symbols() {
    let mut symbols = SymbolTable::new();
    assert_eq!(symbols.intern("<error>"), Symbol::error());
}

/// Tests that the first interned [`Symbol`] has index zero.
#[test]
fn first_symbol_has_index_zero() {
    let mut symbols = SymbolTable::new_empty();
    assert_eq!(symbols.intern("first"), Symbol(0));
}

/// Tests that [`Symbol`]s are interned with incrementing indices.
#[test]
fn symbols_have_incrementing_indices() {
    let mut symbols = SymbolTable::new();
    let base = symbols.intern("test::0").0;
    assert_eq!(symbols.intern("test::1"), Symbol(base + 1));
    assert_eq!(symbols.intern("test::2"), Symbol(base + 2));
    assert_eq!(symbols.intern("test::0"), Symbol(base));
    assert_eq!(symbols.intern("no_correlation;;1337"), Symbol(base + 3));
}

/// Tests that [`Symbol`]s preserve the string slices they were interned from.
#[test]
fn symbols_preserve_string_slices() {
    let mut symbols = SymbolTable::new();
    let first = symbols.intern("foo");
    let second = symbols.intern("bar");
    let third = symbols.intern("baz");
    assert_eq!(symbols.string(first), "foo");
    assert_eq!(symbols.string(second), "bar");
    assert_eq!(symbols.string(third), "baz");
}

/// Tests that [`Symbol`]s interned from equal string slices are equal.
#[test]
fn symbols_preserve_equality() {
    let mut symbols = SymbolTable::new();
    let mut string = String::new();
    string.push(hint::black_box('f'));
    string.push(hint::black_box('o'));
    string.push(hint::black_box('o'));
    assert_eq!(symbols.intern(&string), symbols.intern("foo"));
}

/// Tests that [`Symbol`]s interned from unequal string slices are unequal.
#[test]
fn symbols_preserve_inequality() {
    let mut symbols = SymbolTable::new();
    let mut string = String::from("foo");
    let foo = symbols.intern(&string);
    string.pop();
    string.push('r');
    assert_ne!(foo, symbols.intern(&string));
}

/// Tests that [`Symbol`]s are case-sensitive.
#[test]
fn symbols_are_case_sensitive() {
    let mut symbols = SymbolTable::new();
    let lower = symbols.intern("foo");
    let accent = symbols.intern("fóó");
    let title = symbols.intern("Foo");
    let upper = symbols.intern("FOO");
    assert_ne!(lower, accent);
    assert_ne!(lower, title);
    assert_ne!(lower, upper);
    assert_ne!(accent, title);
    assert_ne!(accent, upper);
    assert_ne!(title, upper);
}

/// Tests that [`Symbol`]s are length-sensitive.
#[test]
fn symbols_are_length_sensitive() {
    let mut symbols = SymbolTable::new();
    let empty = symbols.intern("");
    let one = symbols.intern("f");
    let short = symbols.intern("foo");
    let long = symbols.intern("food");
    let longer = symbols.intern("foods");
    assert_ne!(empty, one);
    assert_ne!(empty, short);
    assert_ne!(empty, long);
    assert_ne!(empty, longer);
    assert_ne!(one, short);
    assert_ne!(one, long);
    assert_ne!(one, longer);
    assert_ne!(short, long);
    assert_ne!(short, longer);
    assert_ne!(long, longer);
}

/// Tests that a new table holds only the error symbol, and that lookups find
/// interned strings only.
#[test]
fn new_table_holds_only_the_error_symbol() {
    let mut symbols = SymbolTable::new();
    assert_eq!(symbols.len(), 1);
    assert_eq!(symbols.lookup("<error>"), Some(Symbol::error()));
    assert_eq!(symbols.lookup("foo"), None);
    let foo = symbols.intern("foo");
    assert_eq!(foo, Symbol(1));
    assert_eq!(symbols.lookup("foo"), Some(foo));
    assert_eq!(symbols.len(), 2);
}

/// Tests that interning a string twice keeps the table's size.
#[test]
fn interning_twice_keeps_the_table() {
    let mut symbols = SymbolTable::new_empty();
    let a = symbols.intern("a");
    let b = symbols.intern("a");
    assert_eq!(a, b);
    assert_eq!(symbols.len(), 1);
    assert_eq!(symbols.string(a), "a");
}

#[test]
fn a_symbol_survives_many_later_interns() {
    let mut symbols = SymbolTable::new();
    let foo = symbols.intern("foo");
    for word in ["for", "fo", "food", "bar", "foo", "baz"] {
        let symbol = symbols.intern(word);
        assert_eq!(symbol == foo, word == "foo");
    }
    assert_eq!(symbols.string(foo), "foo");
    let before = symbols.len();
    assert_eq!(symbols.intern(&(String::from("fo") + "o")), foo);
    assert_eq!(symbols.len(), before);
}
