use vstd::prelude::*;

use crate::diagnostics::Diag;
use crate::spans::Span;
use crate::symbols::{Symbol, SymbolTable};

verus! {

/// A [`Diag`] reported at a [`Span`].
#[derive(Debug)]
pub struct Report {
    /// The [`Diag`].
    pub diag: Diag,
    /// The [`Span`].
    pub span: Span,
}

/// A log of reported [`Diag`]s, in the order they were reported.
pub struct Log {
    /// The reports.
    reports: Vec<Report>,
}

impl View for Log {
    type V = Seq<Report>;

    closed spec fn view(&self) -> Seq<Report> {
        self.reports@
    }
}

impl Log {
    /// Creates a new empty `Log`.
    pub fn new() -> (log: Self)
        ensures
            log@ == Seq::<Report>::empty(),
    {
        Log { reports: Vec::new() }
    }

    /// Reports a [`Diag`] at a [`Span`].
    pub fn report(&mut self, diag: Diag, span: Span)
        ensures
            final(self)@ == old(self)@.push(Report { diag, span }),
    {
        self.reports.push(Report { diag, span });
    }

    /// Returns the reports, in the order they were reported.
    pub fn reports(&self) -> (reports: &Vec<Report>)
        ensures
            reports@ == self@,
    {
        &self.reports
    }

    /// Returns the number of reports.
    pub fn len(&self) -> (n: usize)
        ensures
            n == self@.len(),
    {
        self.reports.len()
    }
}

/// A context for formatting a value: the source code and the
/// [`SymbolTable`] that its [`Symbol`]s come from.
#[derive(Clone, Copy)]
pub struct RenderContext<'src, 'sym> {
    /// The source code.
    source: &'src str,
    /// The [`SymbolTable`].
    symbols: &'sym SymbolTable,
}

impl<'src, 'sym> RenderContext<'src, 'sym> {
    /// The source code's characters.
    pub closed spec fn source_view(self) -> Seq<char> {
        self.source@
    }

    /// The interned strings of the [`SymbolTable`].
    pub closed spec fn symbols_view(self) -> Seq<Seq<char>> {
        self.symbols@
    }

    /// Creates a new `RenderContext` from source code and a [`SymbolTable`].
    pub fn new(source: &'src str, symbols: &'sym SymbolTable) -> (ctx: Self)
        ensures
            ctx.source_view() == source@,
            ctx.symbols_view() == symbols@,
    {
        RenderContext { source, symbols }
    }

    /// Returns the source code.
    pub fn source(self) -> (source: &'src str)
        ensures
            source@ == self.source_view(),
    {
        self.source
    }

    /// Returns the [`SymbolTable`].
    pub fn symbols(self) -> (symbols: &'sym SymbolTable)
        ensures
            symbols@ == self.symbols_view(),
    {
        self.symbols
    }

    /// Returns a [`Symbol`]'s string slice. The symbol must come from the
    /// context's [`SymbolTable`].
    pub fn symbol_string(self, symbol: Symbol) -> (s: &'sym str)
        requires
            symbol.0 < self.symbols_view().len(),
        ensures
            s@ == self.symbols_view()[symbol.0 as int],
    {
        self.symbols.string(symbol)
    }
}

} // verus!
