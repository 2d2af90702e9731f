//! The symbol table: a stack of scopes that map names to variables.

use crate::ast::error::ErrorKind;
use crate::ast::float::{FloatBits, FloatUnit};
use crate::ast::text::same_text;
use crate::ast::types::{DataType, Value, ValueView};
use vstd::prelude::*;

verus! {

/// A variable: its value, type and mutability.
#[derive(Debug)]
pub struct Symbol {
    pub name: String,
    pub value: Value,
    pub data_type: DataType,
    pub is_mutable: bool,
    pub is_initialized: bool,
}

/// A variable as contracts see it.
pub struct SymbolView {
    pub name: Seq<char>,
    pub value: ValueView,
    pub data_type: DataType,
    pub is_mutable: bool,
    pub is_initialized: bool,
}

impl View for Symbol {
    type V = SymbolView;

    open spec fn view(&self) -> SymbolView {
        SymbolView {
            name: self.name@,
            value: self.value@,
            data_type: self.data_type,
            is_mutable: self.is_mutable,
            is_initialized: self.is_initialized,
        }
    }
}

impl Clone for Symbol {
    fn clone(&self) -> (r: Self)
        ensures
            r == *self,
    {
        Symbol {
            name: self.name.clone(),
            value: self.value.clone(),
            data_type: self.data_type,
            is_mutable: self.is_mutable,
            is_initialized: self.is_initialized,
        }
    }
}

impl Symbol {
    /// An initialized variable.
    pub fn new(name: String, value: Value, data_type: DataType, is_mutable: bool) -> (r: Self)
        ensures
            r.name == name,
            r.value == value,
            r.data_type == data_type,
            r.is_mutable == is_mutable,
            r.is_initialized,
    {
        Symbol { name, value, data_type, is_mutable, is_initialized: true }
    }
}

/// A scope as contracts see it: a map from names to variables.
pub type ScopeView = Map<Seq<char>, SymbolView>;

/// The variable that a declaration of `name` with `value` creates.
pub open spec fn declared(name: Seq<char>, value: ValueView, is_mutable: bool) -> SymbolView {
    SymbolView { name, value, data_type: value.data_type(), is_mutable, is_initialized: true }
}

/// The map that a list of keys and a list of variables stand for: each key
/// is bound to the variable at its place.
pub open spec fn bindings(keys: Seq<String>, symbols: Seq<Symbol>) -> ScopeView
    decreases keys.len(),
{
    if keys.len() == 0 || symbols.len() != keys.len() {
        Map::empty()
    } else {
        bindings(keys.drop_last(), symbols.drop_last()).insert(keys.last()@, symbols.last()@)
    }
}

/// Whether no two keys are the same text.
pub open spec fn distinct(keys: Seq<String>) -> bool {
    forall|i: int, j: int| 0 <= i < j < keys.len() ==> keys[i]@ != keys[j]@
}

/// The names that are bound are the keys.
proof fn lemma_bindings_domain(keys: Seq<String>, symbols: Seq<Symbol>, name: Seq<char>)
    requires
        keys.len() == symbols.len(),
    ensures
        bindings(keys, symbols).dom().contains(name) <==> exists|i: int|
            0 <= i < keys.len() && keys[i]@ == name,
    decreases keys.len(),
{
    if keys.len() > 0 {
        lemma_bindings_domain(keys.drop_last(), symbols.drop_last(), name);
        if bindings(keys, symbols).dom().contains(name) {
            if keys.last()@ == name {
                assert(keys[keys.len() - 1]@ == name);
            } else {
                let i = choose|i: int| 0 <= i < keys.len() - 1 && keys.drop_last()[i]@ == name;
                assert(keys[i]@ == name);
            }
        }
        if exists|i: int| 0 <= i < keys.len() && keys[i]@ == name {
            let i = choose|i: int| 0 <= i < keys.len() && keys[i]@ == name;
            if i < keys.len() - 1 {
                assert(keys.drop_last()[i]@ == name);
            }
        }
    }
}

/// A key is bound to the variable at its place.
proof fn lemma_bindings_at(keys: Seq<String>, symbols: Seq<Symbol>, i: int)
    requires
        keys.len() == symbols.len(),
        distinct(keys),
        0 <= i < keys.len(),
    ensures
        bindings(keys, symbols).dom().contains(keys[i]@),
        bindings(keys, symbols)[keys[i]@] == symbols[i]@,
    decreases keys.len(),
{
    if i < keys.len() - 1 {
        assert(keys.drop_last()[i] == keys[i]);
        assert(symbols.drop_last()[i] == symbols[i]);
        assert(distinct(keys.drop_last())) by {
            assert forall|a: int, b: int| 0 <= a < b < keys.drop_last().len() implies keys.drop_last()[a]@
                != keys.drop_last()[b]@ by {
                assert(keys[a]@ != keys[b]@);
            }
        }
        lemma_bindings_at(keys.drop_last(), symbols.drop_last(), i);
        assert(keys[i]@ != keys[keys.len() - 1]@);
    }
}

/// Replacing the variable at a place rebinds its key.
proof fn lemma_bindings_update(keys: Seq<String>, symbols: Seq<Symbol>, i: int, symbol: Symbol)
    requires
        keys.len() == symbols.len(),
        distinct(keys),
        0 <= i < keys.len(),
    ensures
        bindings(keys, symbols.update(i, symbol)) == bindings(keys, symbols).insert(
            keys[i]@,
            symbol@,
        ),
    decreases keys.len(),
{
    let updated = symbols.update(i, symbol);
    if i < keys.len() - 1 {
        assert(keys.drop_last()[i] == keys[i]);
        assert(distinct(keys.drop_last())) by {
            assert forall|a: int, b: int| 0 <= a < b < keys.drop_last().len() implies keys.drop_last()[a]@
                != keys.drop_last()[b]@ by {
                assert(keys[a]@ != keys[b]@);
            }
        }
        lemma_bindings_update(keys.drop_last(), symbols.drop_last(), i, symbol);
        assert(updated.drop_last() =~= symbols.drop_last().update(i, symbol));
        assert(updated.last() == symbols.last());
        assert(keys[i]@ != keys[keys.len() - 1]@);
        assert(bindings(keys, updated) =~= bindings(keys, symbols).insert(keys[i]@, symbol@));
    } else {
        assert(updated.drop_last() =~= symbols.drop_last());
        assert(bindings(keys, updated) =~= bindings(keys, symbols).insert(keys[i]@, symbol@));
    }
}

/// One level of scope: the variables declared in it, each under a name that
/// no other has.
#[derive(Debug)]
pub struct Scope {
    keys: Vec<String>,
    symbols: Vec<Symbol>,
}

impl View for Scope {
    type V = ScopeView;

    closed spec fn view(&self) -> ScopeView {
        bindings(self.keys@, self.symbols@)
    }
}

impl Scope {
    /// The invariant of a scope: one variable for each key, and no key twice.
    pub closed spec fn wf(&self) -> bool {
        &&& self.keys@.len() == self.symbols@.len()
        &&& distinct(self.keys@)
    }

    /// A scope without variables.
    pub fn new() -> (r: Self)
        ensures
            r.wf(),
            r@ == Map::<Seq<char>, SymbolView>::empty(),
    {
        Scope { keys: Vec::new(), symbols: Vec::new() }
    }

    /// The place of a name among the keys.
    fn position(&self, name: &str) -> (r: Option<usize>)
        requires
            self.wf(),
        ensures
            r matches Some(i) ==> i < self.keys@.len() && self.keys@[i as int]@ == name@,
            r is Some <==> self@.dom().contains(name@),
    {
        let mut i: usize = 0;
        while i < self.keys.len()
            invariant
                self.wf(),
                i <= self.keys@.len(),
                forall|j: int| 0 <= j < i ==> self.keys@[j]@ != name@,
            decreases self.keys@.len() - i,
        {
            if same_text(self.keys[i].as_str(), name) {
                proof {
                    lemma_bindings_domain(self.keys@, self.symbols@, name@);
                }
                return Some(i);
            }
            i += 1;
        }
        proof {
            lemma_bindings_domain(self.keys@, self.symbols@, name@);
        }
        None
    }

    /// Binds `name` to a variable, unless the scope binds the name already.
    pub fn define(&mut self, name: String, symbol: Symbol) -> (r: Result<(), ErrorKind>)
        requires
            old(self).wf(),
        ensures
            final(self).wf(),
            old(self)@.dom().contains(name@) ==> r == Err::<(), ErrorKind>(
                ErrorKind::AlreadyDeclared,
            ) && final(self)@ == old(self)@,
            !old(self)@.dom().contains(name@) ==> r is Ok && final(self)@ == old(self)@.insert(
                name@,
                symbol@,
            ),
    {
        if self.position(name.as_str()).is_some() {
            return Err(ErrorKind::AlreadyDeclared);
        }
        proof {
            lemma_bindings_domain(self.keys@, self.symbols@, name@);
            assert(self.keys@.push(name).drop_last() =~= self.keys@);
            assert(self.symbols@.push(symbol).drop_last() =~= self.symbols@);
        }
        self.keys.push(name);
        self.symbols.push(symbol);
        Ok(())
    }

    /// The variable that a name is bound to.
    pub fn get(&self, name: &str) -> (r: Option<&Symbol>)
        requires
            self.wf(),
        ensures
            r is Some <==> self@.dom().contains(name@),
            r matches Some(symbol) ==> symbol@ == self@[name@],
    {
        match self.position(name) {
            Some(i) => {
                proof {
                    lemma_bindings_at(self.keys@, self.symbols@, i as int);
                }
                Some(&self.symbols[i])
            },
            None => None,
        }
    }

    /// Whether the scope binds a name.
    pub fn contains(&self, name: &str) -> (r: bool)
        requires
            self.wf(),
        ensures
            r == self@.dom().contains(name@),
    {
        self.position(name).is_some()
    }

    /// Gives the variable that a name is bound to a new value.
    pub fn set_value(&mut self, name: &str, value: Value) -> (r: bool)
        requires
            old(self).wf(),
        ensures
            final(self).wf(),
            r == old(self)@.dom().contains(name@),
            !r ==> final(self)@ == old(self)@,
            r ==> final(self)@ == old(self)@.insert(
                name@,
                SymbolView { value: value@, ..old(self)@[name@] },
            ),
    {
        match self.position(name) {
            Some(i) => {
                proof {
                    lemma_bindings_at(self.keys@, self.symbols@, i as int);
                }
                let previous = &self.symbols[i];
                let symbol = Symbol {
                    name: previous.name.clone(),
                    value,
                    data_type: previous.data_type,
                    is_mutable: previous.is_mutable,
                    is_initialized: previous.is_initialized,
                };
                proof {
                    lemma_bindings_update(self.keys@, self.symbols@, i as int, symbol);
                }
                self.symbols.set(i, symbol);
                true
            },
            None => false,
        }
    }
}


impl Scope {
    /// The variable that a name is bound to, for change in place.
    pub fn get_mut(&mut self, name: &str) -> (r: Option<&mut Symbol>)
        requires
            old(self).wf(),
        ensures
            r is Some <==> old(self)@.dom().contains(name@),
            r is None ==> final(self)@ == old(self)@ && final(self).wf(),
            r matches Some(symbol) ==> {
                &&& (*symbol)@ == old(self)@[name@]
                &&& final(self)@ == old(self)@.insert(name@, (*final(symbol))@)
                &&& final(self).wf()
            },
    {
        match self.position(name) {
            Some(i) => {
                proof {
                    lemma_bindings_at(self.keys@, self.symbols@, i as int);
                    assert forall|symbol: Symbol| true implies #[trigger] bindings(
                        self.keys@,
                        self.symbols@.update(i as int, symbol),
                    ) == bindings(self.keys@, self.symbols@).insert(name@, symbol@) by {
                        lemma_bindings_update(self.keys@, self.symbols@, i as int, symbol);
                    }
                }
                Some(&mut self.symbols[i])
            },
            None => None,
        }
    }
}


/// The innermost scope that binds a name: its index, counted from the global scope.
pub open spec fn resolve_depth(scopes: Seq<ScopeView>, name: Seq<char>) -> Option<int>
    decreases scopes.len(),
{
    if scopes.len() == 0 {
        None
    } else if scopes.last().dom().contains(name) {
        Some(scopes.len() - 1)
    } else {
        resolve_depth(scopes.drop_last(), name)
    }
}

/// The variable that a name stands for: the one bound in the innermost scope
/// that binds the name.
pub open spec fn resolve(scopes: Seq<ScopeView>, name: Seq<char>) -> Option<SymbolView> {
    match resolve_depth(scopes, name) {
        Some(depth) => Some(scopes[depth][name]),
        None => None,
    }
}

/// The scopes after a declaration in the innermost scope, or the error of a
/// name that the innermost scope binds already.
pub open spec fn define_model(
    scopes: Seq<ScopeView>,
    name: Seq<char>,
    value: ValueView,
    is_mutable: bool,
) -> Result<Seq<ScopeView>, ErrorKind>
    recommends
        scopes.len() > 0,
{
    if scopes.last().dom().contains(name) {
        Err(ErrorKind::AlreadyDeclared)
    } else {
        Ok(
            scopes.update(
                scopes.len() - 1,
                scopes.last().insert(name, declared(name, value, is_mutable)),
            ),
        )
    }
}

/// The scopes after an assignment, or its error. The variable is the one that
/// the name resolves to. A value of the variable's type replaces its value; an
/// integer assigned to a float variable is stored as the float `widened`.
pub open spec fn assign_model(
    scopes: Seq<ScopeView>,
    name: Seq<char>,
    value: ValueView,
    widened: FloatBits,
) -> Result<Seq<ScopeView>, ErrorKind> {
    match resolve_depth(scopes, name) {
        None => Err(ErrorKind::NotFound),
        Some(depth) => {
            let symbol = scopes[depth][name];
            if !symbol.is_mutable {
                Err(ErrorKind::Immutable)
            } else if symbol.data_type == value.data_type() {
                Ok(scopes.update(depth, scopes[depth].insert(name, SymbolView { value, ..symbol })))
            } else if symbol.data_type == DataType::Float && value is Integer {
                Ok(
                    scopes.update(
                        depth,
                        scopes[depth].insert(
                            name,
                            SymbolView { value: ValueView::Float(widened), ..symbol },
                        ),
                    ),
                )
            } else {
                Err(
                    ErrorKind::TypeMismatch {
                        expected: symbol.data_type,
                        found: value.data_type(),
                    },
                )
            }
        },
    }
}

/// The scopes after the innermost scope has ended, or the error of ending the global scope.
pub open spec fn exit_model(scopes: Seq<ScopeView>) -> Result<Seq<ScopeView>, ErrorKind> {
    if scopes.len() <= 1 {
        Err(ErrorKind::CannotExitGlobal)
    } else {
        Ok(scopes.drop_last())
    }
}

/// The scopes after a new innermost scope has begun.
pub open spec fn enter_model(scopes: Seq<ScopeView>) -> Seq<ScopeView> {
    scopes.push(Map::empty())
}

/// Whether every variable is bound under its own name and typed by its value.
pub open spec fn well_typed(scopes: Seq<ScopeView>) -> bool {
    forall|depth: int, name: Seq<char>|
        0 <= depth < scopes.len() && #[trigger] scopes[depth].dom().contains(name) ==> {
            &&& scopes[depth][name].name == name
            &&& scopes[depth][name].data_type == scopes[depth][name].value.data_type()
        }
}

/// The number that a float value holds; zero for any other value.
pub open spec fn float_of(value: ValueView) -> FloatBits {
    match value {
        ValueView::Float(f) => f,
        _ => FloatBits(0),
    }
}

/// A name resolves in the scopes below `depth` as in all scopes, where no
/// scope from `depth` on binds it.
proof fn lemma_resolve_prefix(scopes: Seq<ScopeView>, name: Seq<char>, depth: int)
    requires
        0 <= depth <= scopes.len(),
        forall|i: int| depth <= i < scopes.len() ==> !scopes[i].dom().contains(name),
    ensures
        resolve_depth(scopes, name) == resolve_depth(scopes.subrange(0, depth), name),
    decreases scopes.len() - depth,
{
    if depth < scopes.len() {
        let shorter = scopes.drop_last();
        assert forall|i: int| depth <= i < shorter.len() implies !shorter[i].dom().contains(
            name,
        ) by {
            assert(shorter[i] == scopes[i]);
        }
        lemma_resolve_prefix(shorter, name, depth);
        assert(shorter.subrange(0, depth) =~= scopes.subrange(0, depth));
    } else {
        assert(scopes.subrange(0, depth) =~= scopes);
    }
}

/// The stack of scopes: the global scope at the bottom, the innermost on top.
#[derive(Debug)]
pub struct SymbolTable {
    scopes: Vec<Scope>,
}

impl View for SymbolTable {
    type V = Seq<ScopeView>;

    closed spec fn view(&self) -> Seq<ScopeView> {
        Seq::new(self.scopes@.len(), |i: int| self.scopes@[i]@)
    }
}

impl SymbolTable {
    /// The invariant of a table: the global scope exists, no scope binds a
    /// name twice, and every variable is typed by its value.
    pub closed spec fn wf(&self) -> bool {
        &&& self.scopes@.len() >= 1
        &&& forall|i: int| 0 <= i < self.scopes@.len() ==> (#[trigger] self.scopes@[i]).wf()
        &&& well_typed(self@)
    }

    /// What the invariant gives: the global scope exists, and every variable
    /// is bound under its own name and typed by its value.
    pub proof fn lemma_invariant(&self)
        requires
            self.wf(),
        ensures
            self@.len() >= 1,
            well_typed(self@),
    {
    }

    /// A table with the global scope alone, and no variable in it.
    pub fn new() -> (r: Self)
        ensures
            r.wf(),
            r@ == seq![Map::<Seq<char>, SymbolView>::empty()],
    {
        let mut scopes: Vec<Scope> = Vec::new();
        scopes.push(Scope::new());
        let r = SymbolTable { scopes };
        assert(r@ =~= seq![Map::<Seq<char>, SymbolView>::empty()]);
        r
    }

    /// Begins a new innermost scope.
    pub fn enter_scope(&mut self)
        requires
            old(self).wf(),
        ensures
            final(self).wf(),
            final(self)@ == enter_model(old(self)@),
    {
        self.scopes.push(Scope::new());
        assert(self@ =~= enter_model(old(self)@));
    }

    /// Ends the innermost scope. The global scope cannot end.
    pub fn exit_scope(&mut self) -> (r: Result<(), ErrorKind>)
        requires
            old(self).wf(),
        ensures
            final(self).wf(),
            match exit_model(old(self)@) {
                Ok(scopes) => r is Ok && final(self)@ == scopes,
                Err(error) => r == Err::<(), ErrorKind>(error) && final(self)@ == old(self)@,
            },
    {
        if self.scopes.len() <= 1 {
            return Err(ErrorKind::CannotExitGlobal);
        }
        self.scopes.pop();
        assert(self@ =~= old(self)@.drop_last());
        Ok(())
    }

    /// The number of scopes, the global scope included.
    pub fn scope_depth(&self) -> (r: usize)
        ensures
            r == self@.len(),
    {
        self.scopes.len()
    }

    /// Declares a variable in the innermost scope, typed by its value.
    pub fn define(&mut self, name: String, value: Value, is_mutable: bool) -> (r: Result<
        (),
        ErrorKind,
    >)
        requires
            old(self).wf(),
        ensures
            final(self).wf(),
            final(self)@.len() == old(self)@.len(),
            match define_model(old(self)@, name@, value@, is_mutable) {
                Ok(scopes) => r is Ok && final(self)@ == scopes,
                Err(error) => r == Err::<(), ErrorKind>(error) && final(self)@ == old(self)@,
            },
    {
        let data_type = value.get_type();
        let symbol = Symbol::new(name.clone(), value, data_type, is_mutable);
        let last = self.scopes.len() - 1;
        let r = self.scopes[last].define(name, symbol);
        proof {
            if r is Ok {
                assert(self@ =~= define_model(old(self)@, name@, value@, is_mutable)->Ok_0);
            } else {
                assert(self@ =~= old(self)@);
            }
        }
        r
    }

    /// The innermost scope that binds a name.
    fn depth_of(&self, name: &str) -> (r: Option<usize>)
        requires
            self.wf(),
        ensures
            match r {
                Some(depth) => resolve_depth(self@, name@) == Some(depth as int) && depth
                    < self.scopes@.len() && self@[depth as int].dom().contains(name@),
                None => resolve_depth(self@, name@) is None,
            },
    {
        let mut i: usize = self.scopes.len();
        while i > 0
            invariant
                self.wf(),
                i <= self.scopes@.len(),
                forall|j: int| i <= j < self@.len() ==> !self@[j].dom().contains(name@),
            decreases i,
        {
            i -= 1;
            if self.scopes[i].contains(name) {
                proof {
                    lemma_resolve_prefix(self@, name@, i + 1);
                }
                return Some(i);
            }
        }
        proof {
            lemma_resolve_prefix(self@, name@, 0);
        }
        None
    }

    /// The variable that a name stands for, searched from the innermost scope outwards.
    pub fn lookup(&self, name: &str) -> (r: Option<&Symbol>)
        requires
            self.wf(),
        ensures
            match r {
                Some(symbol) => resolve(self@, name@) == Some(symbol@),
                None => resolve(self@, name@) is None,
            },
    {
        match self.depth_of(name) {
            Some(depth) => self.scopes[depth].get(name),
            None => None,
        }
    }

    /// Gives a variable a new value. The variable must be mutable, and the
    /// value of its type; an integer assigned to a float variable is widened
    /// to a float.
    pub fn assign<F: FloatUnit>(&mut self, name: &str, value: Value, unit: &F) -> (r: Result<
        (),
        ErrorKind,
    >)
        requires
            old(self).wf(),
        ensures
            final(self).wf(),
            final(self)@.len() == old(self)@.len(),
            match assign_model(
                old(self)@,
                name@,
                value@,
                float_of(resolve(final(self)@, name@)->0.value),
            ) {
                Ok(scopes) => r is Ok && final(self)@ == scopes,
                Err(error) => r == Err::<(), ErrorKind>(error) && final(self)@ == old(self)@,
            },
    {
        let depth = match self.depth_of(name) {
            Some(depth) => depth,
            None => {
                return Err(ErrorKind::NotFound);
            },
        };
        let (is_mutable, data_type) = match self.scopes[depth].get(name) {
            Some(symbol) => (symbol.is_mutable, symbol.data_type),
            None => {
                return Err(ErrorKind::NotFound);
            },
        };
        if !is_mutable {
            return Err(ErrorKind::Immutable);
        }
        let new_type = value.get_type();
        let widens = data_type == DataType::Float && new_type == DataType::Integer;
        if data_type != new_type && !widens {
            return Err(ErrorKind::TypeMismatch { expected: data_type, found: new_type });
        }
        let stored = match value {
            Value::Integer(i) if widens => Value::Float(unit.from_integer(i)),
            other => other,
        };
        let ghost symbol = old(self)@[depth as int][name@];
        let ghost after = old(self)@.update(
            depth as int,
            old(self)@[depth as int].insert(name@, SymbolView { value: stored@, ..symbol }),
        );
        self.scopes[depth].set_value(name, stored);
        proof {
            assert(self@ =~= after);
            assert(after[depth as int].dom() =~= old(self)@[depth as int].dom());
            lemma_resolve_update(old(self)@, name@, depth as int, after[depth as int]);
        }
        Ok(())
    }

    /// Whether a name stands for a variable.
    pub fn contains(&self, name: &str) -> (r: bool)
        requires
            self.wf(),
        ensures
            r == resolve(self@, name@).is_some(),
    {
        self.lookup(name).is_some()
    }

    /// The value of the variable that a name stands for.
    pub fn get_value(&self, name: &str) -> (r: Result<Value, ErrorKind>)
        requires
            self.wf(),
        ensures
            match resolve(self@, name@) {
                Some(symbol) => r matches Ok(value) && value@ == symbol.value,
                None => r matches Err(error) && error == ErrorKind::NotFound,
            },
    {
        match self.lookup(name) {
            Some(symbol) => Ok(symbol.value.clone()),
            None => Err(ErrorKind::NotFound),
        }
    }

    /// Whether the variable that a name stands for is mutable.
    pub fn is_mutable(&self, name: &str) -> (r: Result<bool, ErrorKind>)
        requires
            self.wf(),
        ensures
            match resolve(self@, name@) {
                Some(symbol) => r == Ok::<bool, ErrorKind>(symbol.is_mutable),
                None => r == Err::<bool, ErrorKind>(ErrorKind::NotFound),
            },
    {
        match self.lookup(name) {
            Some(symbol) => Ok(symbol.is_mutable),
            None => Err(ErrorKind::NotFound),
        }
    }
}

/// A scope that binds the same names after a change leaves every name
/// resolving to the scope it resolved to.
pub proof fn lemma_resolve_update(
    scopes: Seq<ScopeView>,
    name: Seq<char>,
    depth: int,
    scope: ScopeView,
)
    requires
        0 <= depth < scopes.len(),
        scope.dom() == scopes[depth].dom(),
    ensures
        resolve_depth(scopes.update(depth, scope), name) == resolve_depth(scopes, name),
    decreases scopes.len(),
{
    let updated = scopes.update(depth, scope);
    if depth == scopes.len() - 1 {
        assert(updated.drop_last() =~= scopes.drop_last());
    } else {
        lemma_resolve_update(scopes.drop_last(), name, depth, scope);
        assert(updated.drop_last() =~= scopes.drop_last().update(depth, scope));
    }
}


/// A name resolves to the innermost scope that binds it, and to no scope
/// where none binds it.
pub proof fn lemma_resolve_depth(scopes: Seq<ScopeView>, name: Seq<char>)
    ensures
        match resolve_depth(scopes, name) {
            Some(depth) => {
                &&& 0 <= depth < scopes.len()
                &&& scopes[depth].dom().contains(name)
                &&& forall|i: int| depth < i < scopes.len() ==> !scopes[i].dom().contains(name)
            },
            None => forall|i: int| 0 <= i < scopes.len() ==> !scopes[i].dom().contains(name),
        },
    decreases scopes.len(),
{
    if scopes.len() > 0 && !scopes.last().dom().contains(name) {
        lemma_resolve_depth(scopes.drop_last(), name);
        assert forall|i: int| 0 <= i < scopes.len() - 1 implies scopes[i] == scopes.drop_last()[i] by {}
    }
}

/// A declaration binds the name in the innermost scope: the name then
/// resolves to the declared variable, and every other name as before.
pub proof fn law_declared_resolves(
    scopes: Seq<ScopeView>,
    name: Seq<char>,
    value: ValueView,
    is_mutable: bool,
    other: Seq<char>,
)
    requires
        scopes.len() > 0,
        define_model(scopes, name, value, is_mutable) is Ok,
    ensures
        resolve(define_model(scopes, name, value, is_mutable)->Ok_0, name) == Some(
            declared(name, value, is_mutable),
        ),
        other != name ==> resolve(define_model(scopes, name, value, is_mutable)->Ok_0, other)
            == resolve(scopes, other),
{
    let after = define_model(scopes, name, value, is_mutable)->Ok_0;
    assert(after.last().dom().contains(name));
    if other != name {
        lemma_resolve_depth(scopes, other);
        lemma_resolve_depth(after, other);
        assert forall|i: int| 0 <= i < scopes.len() implies (after[i].dom().contains(other)
            <==> scopes[i].dom().contains(other)) by {}
        match resolve_depth(scopes, other) {
            Some(depth) => {
                assert(after[depth].dom().contains(other));
                assert(resolve_depth(after, other) == Some(depth));
            },
            None => {
                assert(resolve_depth(after, other) is None);
            },
        }
    }
}

/// An immutable variable keeps its value: every assignment to a name that
/// was declared immutable is refused, and leaves the variable as declared.
pub proof fn law_immutable_refuses(
    scopes: Seq<ScopeView>,
    name: Seq<char>,
    value: ValueView,
    assigned: ValueView,
    widened: FloatBits,
)
    requires
        scopes.len() > 0,
        define_model(scopes, name, value, false) is Ok,
    ensures
        assign_model(define_model(scopes, name, value, false)->Ok_0, name, assigned, widened)
            == Err::<Seq<ScopeView>, ErrorKind>(ErrorKind::Immutable),
        resolve(define_model(scopes, name, value, false)->Ok_0, name) matches Some(symbol)
            && symbol.value == value,
{
    law_declared_resolves(scopes, name, value, false, name);
}

/// An integer assigned to a mutable float variable is stored as a float:
/// the assignment succeeds, and the variable holds the widened number and
/// keeps its type.
pub proof fn law_assignment_widens(
    scopes: Seq<ScopeView>,
    name: Seq<char>,
    initial: FloatBits,
    assigned: i64,
    widened: FloatBits,
)
    requires
        scopes.len() > 0,
        define_model(scopes, name, ValueView::Float(initial), true) is Ok,
    ensures
        ({
            let declared = define_model(scopes, name, ValueView::Float(initial), true)->Ok_0;
            let after = assign_model(declared, name, ValueView::Integer(assigned), widened);
            &&& after is Ok
            &&& resolve(after->Ok_0, name) matches Some(symbol) && symbol.value
                == ValueView::Float(widened) && symbol.data_type == DataType::Float
                && symbol.is_mutable
        }),
{
    let declared = define_model(scopes, name, ValueView::Float(initial), true)->Ok_0;
    law_declared_resolves(scopes, name, ValueView::Float(initial), true, name);
    lemma_resolve_depth(declared, name);
    let depth = resolve_depth(declared, name)->0;
    let after = assign_model(declared, name, ValueView::Integer(assigned), widened)->Ok_0;
    assert(after[depth].dom() =~= declared[depth].dom());
    lemma_resolve_update(declared, name, depth, after[depth]);
}

/// An assignment of a value of the variable's type succeeds on a mutable
/// variable, and the variable then holds the value; every other name
/// resolves as before.
pub proof fn law_assigned_resolves(
    scopes: Seq<ScopeView>,
    name: Seq<char>,
    value: ValueView,
    widened: FloatBits,
    other: Seq<char>,
)
    requires
        resolve(scopes, name) matches Some(symbol) && symbol.is_mutable && symbol.data_type
            == value.data_type(),
    ensures
        assign_model(scopes, name, value, widened) is Ok,
        resolve(assign_model(scopes, name, value, widened)->Ok_0, name) == Some(
            SymbolView { value, ..resolve(scopes, name)->0 },
        ),
        other != name ==> resolve(assign_model(scopes, name, value, widened)->Ok_0, other)
            == resolve(scopes, other),
{
    lemma_resolve_depth(scopes, name);
    let depth = resolve_depth(scopes, name)->0;
    let after = assign_model(scopes, name, value, widened)->Ok_0;
    assert(after[depth].dom() =~= scopes[depth].dom());
    lemma_resolve_update(scopes, name, depth, after[depth]);
    lemma_resolve_update(scopes, other, depth, after[depth]);
    if other != name {
        lemma_resolve_depth(scopes, other);
    }
}

/// What is declared in an inner scope ends with the scope: entering a scope,
/// declaring a variable in it and leaving it gives the scopes as they were.
/// So a name that resolved outside still resolves to the same variable, and
/// the declared name resolves as it did before the scope was entered.
pub proof fn law_scope_ends(
    scopes: Seq<ScopeView>,
    name: Seq<char>,
    value: ValueView,
    is_mutable: bool,
)
    requires
        scopes.len() > 0,
    ensures
        define_model(enter_model(scopes), name, value, is_mutable) is Ok,
        exit_model(define_model(enter_model(scopes), name, value, is_mutable)->Ok_0) == Ok::<
            Seq<ScopeView>,
            ErrorKind,
        >(scopes),
        resolve(define_model(enter_model(scopes), name, value, is_mutable)->Ok_0, name) == Some(
            declared(name, value, is_mutable),
        ),
        forall|other: Seq<char>|
            other != name ==> #[trigger] resolve(
                define_model(enter_model(scopes), name, value, is_mutable)->Ok_0,
                other,
            ) == resolve(scopes, other),
{
    let entered = enter_model(scopes);
    let inner = define_model(entered, name, value, is_mutable)->Ok_0;
    assert(inner.drop_last() =~= scopes);
    law_declared_resolves(entered, name, value, is_mutable, name);
    assert forall|other: Seq<char>| other != name implies #[trigger] resolve(inner, other)
        == resolve(scopes, other) by {
        law_declared_resolves(entered, name, value, is_mutable, other);
        assert(entered.drop_last() =~= scopes);
        lemma_resolve_depth(scopes, other);
    }
}

/// The global scope never ends: whatever scopes are entered and left, one
/// scope is left at least.
pub proof fn law_global_scope_stays(scopes: Seq<ScopeView>)
    requires
        scopes.len() > 0,
    ensures
        exit_model(scopes) matches Ok(left) ==> left.len() > 0,
        scopes.len() == 1 ==> exit_model(scopes) == Err::<Seq<ScopeView>, ErrorKind>(
            ErrorKind::CannotExitGlobal,
        ),
        exit_model(enter_model(scopes)) == Ok::<Seq<ScopeView>, ErrorKind>(scopes),
{
    assert(enter_model(scopes).drop_last() =~= scopes);
}

/// Declarations and assignments keep every variable typed by its value.
pub proof fn law_changes_keep_types(
    scopes: Seq<ScopeView>,
    name: Seq<char>,
    value: ValueView,
    is_mutable: bool,
    widened: FloatBits,
)
    requires
        scopes.len() > 0,
        well_typed(scopes),
    ensures
        define_model(scopes, name, value, is_mutable) matches Ok(after) ==> well_typed(after),
        assign_model(scopes, name, value, widened) matches Ok(after) ==> well_typed(after),
        well_typed(enter_model(scopes)),
        exit_model(scopes) matches Ok(after) ==> well_typed(after),
{
    lemma_resolve_depth(scopes, name);
    if define_model(scopes, name, value, is_mutable) is Ok {
        let after = define_model(scopes, name, value, is_mutable)->Ok_0;
        assert forall|depth: int, other: Seq<char>|
            0 <= depth < after.len() && #[trigger] after[depth].dom().contains(other) implies {
            &&& after[depth][other].name == other
            &&& after[depth][other].data_type == after[depth][other].value.data_type()
        } by {
            if !(depth == scopes.len() - 1 && other == name) {
                assert(scopes[depth].dom().contains(other));
            }
        }
    }
    if assign_model(scopes, name, value, widened) is Ok {
        let after = assign_model(scopes, name, value, widened)->Ok_0;
        let at = resolve_depth(scopes, name)->0;
        assert forall|depth: int, other: Seq<char>|
            0 <= depth < after.len() && #[trigger] after[depth].dom().contains(other) implies {
            &&& after[depth][other].name == other
            &&& after[depth][other].data_type == after[depth][other].value.data_type()
        } by {
            assert(scopes[depth].dom().contains(other));
        }
    }
    assert forall|depth: int, other: Seq<char>|
        0 <= depth < enter_model(scopes).len() && #[trigger] enter_model(
            scopes,
        )[depth].dom().contains(other) implies {
        &&& enter_model(scopes)[depth][other].name == other
        &&& enter_model(scopes)[depth][other].data_type == enter_model(
            scopes,
        )[depth][other].value.data_type()
    } by {
        assert(scopes[depth].dom().contains(other));
    }
    if exit_model(scopes) is Ok {
        let after = exit_model(scopes)->Ok_0;
        assert forall|depth: int, other: Seq<char>|
            0 <= depth < after.len() && #[trigger] after[depth].dom().contains(other) implies {
            &&& after[depth][other].name == other
            &&& after[depth][other].data_type == after[depth][other].value.data_type()
        } by {
            assert(scopes[depth].dom().contains(other));
        }
    }
}

} // verus!
