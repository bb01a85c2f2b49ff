use vstd::prelude::*;

verus! {

/// An interned identifier for a string slice: the index of its string in the
/// [`SymbolTable`].
#[derive(Clone, Copy, Debug, PartialEq, Eq, Hash, Structural)]
pub struct Symbol(pub u32);

impl Symbol {
    /// The synthetic `Symbol` for error recovery, pre-interned as `"<error>"`.
    pub open spec fn spec_error() -> Symbol {
        Symbol(0)
    }

    /// Returns the synthetic `Symbol` for error recovery.
    #[verifier::when_used_as_spec(spec_error)]
    pub fn error() -> (symbol: Symbol)
        ensures
            symbol == Symbol(0),
    {
        Symbol(0)
    }
}

/// The strings of a table with `s` interned: unchanged if `s` is already
/// there, else `s` appended.
pub open spec fn after_intern(table: Seq<Seq<char>>, s: Seq<char>) -> Seq<Seq<char>> {
    if table.contains(s) {
        table
    } else {
        table.push(s)
    }
}

/// The [`Symbol`] of a string in a table: the index where it occurs.
pub open spec fn symbol_of(table: Seq<Seq<char>>, s: Seq<char>) -> Symbol {
    Symbol((choose|k: int| 0 <= k < table.len() && table[k] == s) as u32)
}

/// In a table without duplicates, the [`Symbol`] at an index is that index.
pub proof fn lemma_symbol_of(table: Seq<Seq<char>>, s: Seq<char>, k: int)
    requires
        distinct(table),
        table.len() <= u32::MAX + 1,
        0 <= k < table.len(),
        table[k] == s,
    ensures
        symbol_of(table, s) == Symbol(k as u32),
{
    let j = choose|j: int| 0 <= j < table.len() && table[j] == s;
    assert(0 <= j < table.len() && table[j] == s);
}

/// No string occurs twice in a table.
pub open spec fn distinct(table: Seq<Seq<char>>) -> bool {
    forall|i: int, j: int| 0 <= i < table.len() && 0 <= j < table.len() && i != j ==> table[i] != table[j]
}

/// A table of [`Symbol`]s. `Symbol(i)` stands for the `i`th interned string.
pub struct SymbolTable {
    /// The interned strings, indexed by [`Symbol`].
    strings: Vec<String>,
}

impl View for SymbolTable {
    /// The interned strings, in the order of their [`Symbol`]s.
    type V = Seq<Seq<char>>;

    closed spec fn view(&self) -> Seq<Seq<char>> {
        self.strings@.map_values(|s: String| s@)
    }
}

impl SymbolTable {
    /// The table's invariant: its strings are distinct and fit in `u32`
    /// indices.
    #[verifier::type_invariant]
    pub closed spec fn inv(self) -> bool {
        &&& distinct(self@)
        &&& self@.len() <= u32::MAX
    }

    /// No string is interned twice, and there are at most `u32::MAX + 1`
    /// of them.
    pub proof fn lemma_wf(&self)
        requires
            self.inv(),
        ensures
            distinct(self@),
            self@.len() <= u32::MAX,
    {
    }

    /// Creates a new `SymbolTable` with [`Symbol::error()`] pre-interned as
    /// `"<error>"`.
    pub fn new() -> (symbols: Self)
        ensures
            symbols@ == seq!["<error>"@],
    {
        let mut symbols = Self::new_empty();
        symbols.pre_intern("<error>", Symbol::error());
        symbols
    }

    /// Creates a new `SymbolTable` without any pre-interned [`Symbol`]s.
    pub fn new_empty() -> (symbols: Self)
        ensures
            symbols@ == Seq::<Seq<char>>::empty(),
    {
        let symbols = SymbolTable { strings: Vec::new() };
        assert(symbols@ =~= Seq::<Seq<char>>::empty());
        symbols
    }

    /// Returns the number of interned strings.
    pub fn len(&self) -> (n: usize)
        ensures
            n == self@.len(),
    {
        self.strings.len()
    }

    /// Returns a [`Symbol`]'s string slice. The symbol must come from this
    /// table.
    pub fn string(&self, symbol: Symbol) -> (s: &str)
        requires
            symbol.0 < self@.len(),
        ensures
            s@ == self@[symbol.0 as int],
    {
        self.strings[symbol.0 as usize].as_str()
    }

    /// Returns the [`Symbol`] of a string slice, if it is interned.
    pub fn lookup(&self, string: &str) -> (symbol: Option<Symbol>)
        ensures
            match symbol {
                Some(sym) => sym.0 < self@.len() && self@[sym.0 as int] == string@,
                None => !self@.contains(string@),
            },
    {
        proof {
            use_type_invariant(self);
        }
        let owned = string.to_owned();
        let mut i: usize = 0;
        while i < self.strings.len()
            invariant
                i <= self.strings@.len(),
                owned@ == string@,
                self@.len() == self.strings@.len(),
                self@.len() <= u32::MAX,
                forall|j: int| 0 <= j < i ==> self@[j] != string@,
            decreases self.strings@.len() - i,
        {
            if self.strings[i] == owned {
                return Some(Symbol(i as u32));
            }
            i = i + 1;
        }
        proof {
            if self@.contains(string@) {
                let k = choose|k: int| 0 <= k < self@.len() && self@[k] == string@;
                assert(self@[k] == string@);
            }
        }
        None
    }

    /// Interns and returns a [`Symbol`] from a string slice. A string that is
    /// already interned keeps its [`Symbol`]; a new string gets the next
    /// index, which must fit in `u32`.
    pub fn intern(&mut self, string: &str) -> (symbol: Symbol)
        requires
            old(self)@.contains(string@) || old(self)@.len() < u32::MAX,
        ensures
            final(self)@ == after_intern(old(self)@, string@),
            symbol.0 < final(self)@.len(),
            final(self)@[symbol.0 as int] == string@,
            symbol == symbol_of(final(self)@, string@),
            !old(self)@.contains(string@) ==> symbol.0 == old(self)@.len(),
    {
        if let Some(symbol) = self.lookup(string) {
            proof {
                use_type_invariant(&*self);
                assert(self@.contains(string@));
                lemma_symbol_of(self@, string@, symbol.0 as int);
            }
            return symbol;
        }
        proof {
            use_type_invariant(&*self);
        }
        let symbol = Symbol(self.strings.len() as u32);
        let owned = string.to_owned();
        let ghost old_view = self@;
        let mut strings = Vec::new();
        std::mem::swap(&mut strings, &mut self.strings);
        strings.push(owned);
        proof {
            let new_view = strings@.map_values(|s: String| s@);
            assert(new_view =~= old_view.push(string@));
            assert(distinct(new_view)) by {
                assert forall|i: int, j: int|
                    0 <= i < new_view.len() && 0 <= j < new_view.len() && i != j implies new_view[i] != new_view[j] by {
                    if i < old_view.len() && j < old_view.len() {
                        assert(old_view[i] != old_view[j]);
                    } else if i < old_view.len() {
                        assert(old_view.contains(old_view[i]));
                    } else {
                        assert(old_view.contains(old_view[j]));
                    }
                }
            }
        }
        self.strings = strings;
        assert(self@ =~= old_view.push(string@));
        proof {
            use_type_invariant(&*self);
            lemma_symbol_of(self@, string@, symbol.0 as int);
        }
        symbol
    }

    /// Pre-interns a [`Symbol`] from a string slice and the [`Symbol`] it is
    /// expected to get.
    fn pre_intern(&mut self, string: &'static str, expected_symbol: Symbol)
        requires
            old(self)@.contains(string@) || old(self)@.len() < u32::MAX,
            !old(self)@.contains(string@) ==> expected_symbol.0 == old(self)@.len(),
            old(self)@.contains(string@) ==> expected_symbol.0 < old(self)@.len()
                && old(self)@[expected_symbol.0 as int] == string@,
        ensures
            final(self)@ == after_intern(old(self)@, string@),
    {
        let symbol = self.intern(string);
        proof {
            use_type_invariant(&*self);
        }
        assert(symbol == expected_symbol);
    }
}

/// Interning never changes the [`Symbol`]s interned before: the table
/// before is a prefix of the table after, and distinct strings stay
/// distinct.
pub proof fn law_intern_keeps_symbols(table: Seq<Seq<char>>, s: Seq<char>)
    requires
        distinct(table),
    ensures
        after_intern(table, s).len() >= table.len(),
        after_intern(table, s).subrange(0, table.len() as int) == table,
        distinct(after_intern(table, s)),
        after_intern(table, s).contains(s),
{
    assert(after_intern(table, s).subrange(0, table.len() as int) =~= table);
    if !table.contains(s) {
        let t = table.push(s);
        assert(t[table.len() as int] == s);
        assert forall|i: int, j: int| 0 <= i < t.len() && 0 <= j < t.len() && i != j implies t[i] != t[j] by {
            if i < table.len() && j < table.len() {
            } else if i < table.len() {
                assert(table.contains(table[i]));
            } else {
                assert(table.contains(table[j]));
            }
        }
    } else {
        let k = choose|k: int| 0 <= k < table.len() && table[k] == s;
        assert(table[k] == s);
    }
}

/// The [`Symbol`] of an interned string names that string: looking the
/// symbol up gives the string back.
pub proof fn law_interned_string(table: Seq<Seq<char>>, s: Seq<char>)
    requires
        distinct(table),
        table.len() < u32::MAX,
    ensures
        ({
            let t = after_intern(table, s);
            let symbol = symbol_of(t, s);
            &&& symbol.0 < t.len()
            &&& t[symbol.0 as int] == s
            &&& !table.contains(s) ==> symbol.0 == table.len()
        }),
{
    law_intern_keeps_symbols(table, s);
    let t = after_intern(table, s);
    if table.contains(s) {
        let k = choose|k: int| 0 <= k < table.len() && table[k] == s;
        lemma_symbol_of(t, s, k);
    } else {
        lemma_symbol_of(t, s, table.len() as int);
    }
}

/// Interning two strings gives them equal [`Symbol`]s exactly when the
/// strings are equal, whatever the order, and the first string's symbol
/// does not change when the second is interned.
pub proof fn law_intern_injective(table: Seq<Seq<char>>, a: Seq<char>, b: Seq<char>)
    requires
        distinct(table),
        table.len() + 2 <= u32::MAX,
    ensures
        ({
            let t1 = after_intern(table, a);
            let t2 = after_intern(t1, b);
            &&& symbol_of(t2, a) == symbol_of(t1, a)
            &&& (symbol_of(t2, a) == symbol_of(t2, b)) == (a == b)
        }),
{
    let t1 = after_intern(table, a);
    let t2 = after_intern(t1, b);
    law_intern_keeps_symbols(table, a);
    law_intern_keeps_symbols(t1, b);
    law_interned_string(table, a);
    law_interned_string(t1, b);
    let ka = symbol_of(t1, a).0 as int;
    assert(t2[ka] == t1.subrange(0, t1.len() as int)[ka]) by {
        assert(t2.subrange(0, t1.len() as int)[ka] == t2[ka]);
    }
    lemma_symbol_of(t2, a, ka);
}

/// The strings of a table after interning each string of a sequence, in
/// order.
pub open spec fn after_interns(table: Seq<Seq<char>>, strings: Seq<Seq<char>>) -> Seq<Seq<char>>
    decreases strings.len(),
{
    if strings.len() == 0 {
        table
    } else {
        after_intern(after_interns(table, strings.drop_last()), strings.last())
    }
}

/// Whether each string of a sequence can be interned in turn: when its turn
/// comes, it is already in the table or the table has room for a new `u32`
/// [`Symbol`].
pub open spec fn room_for(table: Seq<Seq<char>>, strings: Seq<Seq<char>>) -> bool
    decreases strings.len(),
{
    if strings.len() == 0 {
        true
    } else {
        let before = after_interns(table, strings.drop_last());
        &&& room_for(table, strings.drop_last())
        &&& before.contains(strings.last()) || before.len() < u32::MAX
    }
}

/// Interning strings in turn keeps the table's strings in their places, and
/// keeps the table duplicate-free and within `u32` [`Symbol`]s.
proof fn lemma_after_interns(table: Seq<Seq<char>>, strings: Seq<Seq<char>>)
    requires
        distinct(table),
        table.len() <= u32::MAX,
        room_for(table, strings),
    ensures
        distinct(after_interns(table, strings)),
        after_interns(table, strings).len() <= u32::MAX,
        table.len() <= after_interns(table, strings).len(),
        forall|i: int| 0 <= i < table.len() ==> #[trigger] after_interns(table, strings)[i] == table[i],
    decreases strings.len(),
{
    if strings.len() > 0 {
        let before = after_interns(table, strings.drop_last());
        lemma_after_interns(table, strings.drop_last());
        law_intern_keeps_symbols(before, strings.last());
        let after = after_intern(before, strings.last());
        assert forall|i: int| 0 <= i < table.len() implies #[trigger] after[i] == table[i] by {
            assert(after[i] == after.subrange(0, before.len() as int)[i]);
        }
    }
}

/// Interning a string gives it a [`Symbol`] that no later interning changes:
/// after any number of further calls, interning the string again gives the
/// same symbol and adds nothing, the symbol still names the string, and no
/// other string shares it. Each call must find the string interned or room
/// for a new symbol, as [`SymbolTable::intern`] requires.
pub proof fn law_symbol_is_stable(table: Seq<Seq<char>>, s: Seq<char>, later: Seq<Seq<char>>)
    requires
        distinct(table),
        table.len() <= u32::MAX,
        table.contains(s) || table.len() < u32::MAX,
        room_for(after_intern(table, s), later),
    ensures
        ({
            let first = after_intern(table, s);
            let symbol = symbol_of(first, s);
            let last = after_interns(first, later);
            &&& symbol.0 < last.len()
            &&& last[symbol.0 as int] == s
            &&& symbol_of(last, s) == symbol
            &&& after_intern(last, s) == last
            &&& forall|w: Seq<char>| #[trigger] last.contains(w) && w != s ==> symbol_of(last, w) != symbol
        }),
{
    let first = after_intern(table, s);
    law_intern_keeps_symbols(table, s);
    let k = if table.contains(s) {
        choose|k: int| 0 <= k < table.len() && table[k] == s
    } else {
        table.len() as int
    };
    assert(first[k] == s) by {
        if table.contains(s) {
            assert(first[k] == first.subrange(0, table.len() as int)[k]);
        }
    }
    lemma_symbol_of(first, s, k);
    let symbol = symbol_of(first, s);
    lemma_after_interns(first, later);
    let last = after_interns(first, later);
    assert(last[k] == first[k]);
    lemma_symbol_of(last, s, k);
    assert(last.contains(s));
    assert forall|w: Seq<char>| #[trigger] last.contains(w) && w != s implies symbol_of(last, w) != symbol by {
        let j = choose|j: int| 0 <= j < last.len() && last[j] == w;
        lemma_symbol_of(last, w, j);
    }
}

} // verus!
