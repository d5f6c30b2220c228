//! The program tree of a module: statements and expressions held in arenas
//! and referred to by index, with every name interned in a [`NameTable`].
use vstd::prelude::*;
use crate::ast::{Span, BinaryOperator, UnaryOperator};
use string_interner::Symbol as _;

verus! {

/// The index of a statement in its module's arena.
pub type StmtId = usize;

/// The index of an expression in its module's arena.
pub type ExprId = usize;

/// The index of an interned name.
pub type Symbol = usize;

/// The number of names a table can hold: a `string_interner` symbol is a
/// non-zero `u32` one above the name's index.
pub open spec fn name_capacity() -> nat {
    4294967295
}

/// The interned names of a module, held in a `string_interner` interner
/// with its default string backend: a symbol is the index of its name in
/// the order of interning.
#[verifier::external_body]
pub struct NameTable {
    interner: string_interner::DefaultStringInterner,
}

/// The names a table holds, in the order they were interned.
pub uninterp spec fn table_names(t: NameTable) -> Seq<Seq<char>>;

impl View for NameTable {
    type V = Seq<Seq<char>>;

    open spec fn view(&self) -> Seq<Seq<char>> {
        table_names(*self)
    }
}

impl NameTable {
    /// No name is interned twice, and the symbols fit.
    pub open spec fn wf(&self) -> bool {
        &&& forall|i: int, j: int| 0 <= i < j < self@.len() ==> self@[i] != self@[j]
        &&& self@.len() <= name_capacity()
    }

    /// `StringInterner::new`: an interner holding no name.
    #[verifier::external_body]
    fn raw_new() -> (r: NameTable)
        ensures
            table_names(r) == Seq::<Seq<char>>::empty(),
    {
        NameTable { interner: string_interner::DefaultStringInterner::new() }
    }

    /// `StringInterner::len`: the number of names held.
    #[verifier::external_body]
    fn raw_len(&self) -> (r: usize)
        ensures
            r == table_names(*self).len(),
    {
        self.interner.len()
    }

    /// `StringInterner::get`, the symbol turned into its index: the index
    /// of a name equal to `name`, if one is held.
    #[verifier::external_body]
    fn raw_get(&self, name: &str) -> (r: Option<Symbol>)
        ensures
            match r {
                Some(s) => s < table_names(*self).len() && table_names(*self)[s as int] == name@,
                None => !table_names(*self).contains(name@),
            },
    {
        match self.interner.get(name) {
            Some(sym) => Some(sym.to_usize()),
            None => None,
        }
    }

    /// `StringInterner::get_or_intern`, the symbol turned into its index: a
    /// name already held keeps its index; a new one is appended.
    #[verifier::external_body]
    fn raw_get_or_intern(&mut self, name: &str) -> (r: Symbol)
        requires
            table_names(*old(self)).len() < name_capacity(),
        ensures
            table_names(*old(self)).contains(name@) ==> table_names(*final(self)) == table_names(*old(self)) && r < table_names(*final(self)).len()
                && table_names(*final(self))[r as int] == name@,
            !table_names(*old(self)).contains(name@) ==> table_names(*final(self)) == table_names(*old(self)).push(name@) && r == table_names(*old(self)).len(),
    {
        self.interner.get_or_intern(name).to_usize()
    }

    /// `StringInterner::resolve` on the symbol of index `symbol`.
    #[verifier::external_body]
    fn raw_resolve(&self, symbol: Symbol) -> (r: &str)
        requires
            symbol < table_names(*self).len(),
            table_names(*self).len() <= name_capacity(),
        ensures
            r@ == table_names(*self)[symbol as int],
    {
        let sym: string_interner::DefaultSymbol = string_interner::Symbol::try_from_usize(symbol).unwrap();
        self.interner.resolve(sym).unwrap()
    }

    /// An empty table.
    pub fn new() -> (r: NameTable)
        ensures
            r.wf(),
            r@ == Seq::<Seq<char>>::empty(),
    {
        NameTable::raw_new()
    }

    /// The number of names held.
    pub fn len(&self) -> (r: usize)
        ensures
            r == self@.len(),
    {
        self.raw_len()
    }

    /// The symbol of `name`, if it is interned.
    pub fn find(&self, name: &str) -> (r: Option<Symbol>)
        requires
            self.wf(),
        ensures
            match r {
                Some(s) => s < self@.len() && self@[s as int] == name@,
                None => forall|i: int| 0 <= i < self@.len() ==> self@[i] != name@,
            },
    {
        let r = self.raw_get(name);
        proof {
            if r is None {
                assert forall|i: int| 0 <= i < self@.len() implies self@[i] != name@ by {
                    if self@[i] == name@ {
                        assert(self@.contains(name@));
                    }
                }
            }
        }
        r
    }

    /// The symbol of `name`, interned first if it is new.
    pub fn intern(&mut self, name: &str) -> (r: Symbol)
        requires
            old(self).wf(),
            old(self)@.len() < name_capacity(),
        ensures
            final(self).wf(),
            r < final(self)@.len(),
            final(self)@[r as int] == name@,
            old(self)@.contains(name@) ==> final(self)@ == old(self)@,
            !old(self)@.contains(name@) ==> final(self)@ == old(self)@.push(name@),
    {
        let ghost before = self@;
        let r = self.raw_get_or_intern(name);
        proof {
            if !before.contains(name@) {
                assert forall|i: int, j: int| 0 <= i < j < self@.len() implies self@[i] != self@[j] by {
                    if j == before.len() {
                        assert(before[i] == self@[i]);
                        if self@[i] == self@[j] {
                            assert(before.contains(name@));
                        }
                    } else {
                        assert(before[i] == self@[i] && before[j] == self@[j]);
                    }
                }
            }
        }
        r
    }

    /// The text of a symbol, empty for one that was never interned.
    pub fn resolve(&self, symbol: Symbol) -> (r: &str)
        requires
            self.wf(),
        ensures
            r@ == resolved(self@, symbol),
    {
        if symbol < self.len() {
            self.raw_resolve(symbol)
        } else {
            proof {
                reveal_strlit("");
            }
            ""
        }
    }
}

/// The text of `symbol` in `names`, empty where there is none.
pub open spec fn resolved(names: Seq<Seq<char>>, symbol: Symbol) -> Seq<char> {
    if symbol < names.len() {
        names[symbol as int]
    } else {
        Seq::empty()
    }
}

/// A literal value. Float literals keep the text they were written with.
#[derive(Debug)]
pub enum LiteralValue {
    Number(i64),
    Float(String),
    Text(Symbol),
    Boolean(bool),
    Unit,
}

/// A call argument, positional or named.
#[derive(Debug)]
pub struct CallArgument {
    pub name: Option<Symbol>,
    pub value: ExprId,
}

/// The kinds of expressions.
#[derive(Debug)]
pub enum ExpressionKind {
    Literal(LiteralValue),
    Identifier(Symbol),
    Binary { op: BinaryOperator, left: ExprId, right: ExprId },
    Unary { op: UnaryOperator, operand: ExprId },
    FunctionCall { function: ExprId, args: Vec<CallArgument> },
    Index { object: ExprId, index: ExprId },
    PropertyAccess { object: ExprId, property: Symbol },
    MethodCall { object: ExprId, method: Symbol, args: Vec<CallArgument> },
    ObjectCreation { class_name: Symbol, args: Vec<CallArgument> },
    This,
}

/// An expression with its source span.
#[derive(Debug)]
pub struct Expression {
    pub kind: ExpressionKind,
    pub span: Span,
}

/// A parameter of a function, with its default value if it has one.
#[derive(Debug)]
pub struct Parameter {
    pub name: Symbol,
    pub default_value: Option<ExprId>,
}

/// A function: its name, parameters and body.
#[derive(Debug)]
pub struct FunctionDefinition {
    pub name: Symbol,
    pub params: Vec<Parameter>,
    pub body: StmtId,
    pub span: Span,
}

/// A field of a class, with its initial value if it has one.
#[derive(Debug)]
pub struct ClassField {
    pub name: Symbol,
    pub value: Option<ExprId>,
}

/// A class: fields, methods and constructor, in the order declared.
#[derive(Debug)]
pub struct ClassDefinition {
    pub name: Symbol,
    pub fields: Vec<ClassField>,
    pub methods: Vec<FunctionDefinition>,
    pub constructor: Option<FunctionDefinition>,
}

/// A native library: the names of its functions and globals.
#[derive(Debug)]
pub struct LibraryDefinition {
    pub path: Symbol,
    pub functions: Vec<Symbol>,
    pub globals: Vec<Symbol>,
}

/// A `catch` clause: the error type it takes, the name it binds to the
/// error text, and its body.
#[derive(Debug)]
pub struct Handler {
    pub error_type: Option<Symbol>,
    pub error_text: Option<Symbol>,
    pub body: StmtId,
}

/// The kinds of statements.
#[derive(Debug)]
pub enum StatementKind {
    Expression(ExprId),
    Assign { name: Symbol, is_const: bool, value: ExprId },
    IndexAssign { object: ExprId, index: ExprId, value: ExprId },
    PropertyAssign { object: ExprId, property: Symbol, value: ExprId },
    If { condition: ExprId, then_body: StmtId, else_body: Option<StmtId> },
    While { condition: ExprId, body: StmtId },
    For { variable: Symbol, init: ExprId, condition: ExprId, update: ExprId, body: StmtId },
    Try { body: StmtId, handlers: Vec<Handler> },
    Raise { error_type: Symbol, message: Option<ExprId> },
    Block(Vec<StmtId>),
    Return(Option<ExprId>),
    FunctionDefinition(FunctionDefinition),
    ClassDefinition(ClassDefinition),
    NativeLibraryDefinition(LibraryDefinition),
    Empty,
}

/// A statement with its source span.
#[derive(Debug)]
pub struct Statement {
    pub kind: StatementKind,
    pub span: Span,
}

/// A module's program tree: its arenas, and the names that the modules it
/// imports define (functions, classes and globals), by which a dotted name
/// `module.member` is resolved.
#[derive(Debug)]
pub struct Module {
    pub statements: Vec<Statement>,
    pub expressions: Vec<Expression>,
    pub module_members: Vec<Symbol>,
}

/// Every argument refers to an expression below `bound`.
pub open spec fn args_below(args: Seq<CallArgument>, bound: int) -> bool {
    forall|k: int| 0 <= k < args.len() ==> #[trigger] args[k].value < bound
}

/// The expressions that expression `kind` refers to come before `id`.
pub open spec fn expression_children_below(kind: ExpressionKind, id: int) -> bool {
    match kind {
        ExpressionKind::Binary { left, right, .. } => left < id && right < id,
        ExpressionKind::Unary { operand, .. } => operand < id,
        ExpressionKind::FunctionCall { function, args } => function < id && args_below(args@, id),
        ExpressionKind::Index { object, index } => object < id && index < id,
        ExpressionKind::PropertyAccess { object, .. } => object < id,
        ExpressionKind::MethodCall { object, args, .. } => object < id && args_below(args@, id),
        ExpressionKind::ObjectCreation { args, .. } => args_below(args@, id),
        _ => true,
    }
}

/// A function's body comes before `id` and its default values are in the
/// expression arena of length `n`.
pub open spec fn function_below(f: FunctionDefinition, id: int, n: int) -> bool {
    &&& f.body < id
    &&& forall|k: int| 0 <= k < f.params@.len() ==> match #[trigger] f.params@[k].default_value {
        Some(e) => e < n,
        None => true,
    }
}

/// Optional expression `e` is in an arena of length `n`.
pub open spec fn opt_below(e: Option<ExprId>, n: int) -> bool {
    match e {
        Some(x) => x < n,
        None => true,
    }
}

/// The statements that statement `kind` refers to come before `id`, and
/// its expressions are in an arena of length `n`.
pub open spec fn statement_children_below(kind: StatementKind, id: int, n: int) -> bool {
    match kind {
        StatementKind::Expression(e) => e < n,
        StatementKind::Assign { value, .. } => value < n,
        StatementKind::IndexAssign { object, index, value } => object < n && index < n && value < n,
        StatementKind::PropertyAssign { object, value, .. } => object < n && value < n,
        StatementKind::If { condition, then_body, else_body } => condition < n && then_body < id
            && match else_body {
            Some(b) => b < id,
            None => true,
        },
        StatementKind::While { condition, body } => condition < n && body < id,
        StatementKind::For { init, condition, update, body, .. } => init < n && condition < n
            && update < n && body < id,
        StatementKind::Try { body, handlers } => body < id && forall|k: int|
            0 <= k < handlers@.len() ==> #[trigger] handlers@[k].body < id,
        StatementKind::Raise { message, .. } => opt_below(message, n),
        StatementKind::Block(ids) => forall|k: int| 0 <= k < ids@.len() ==> #[trigger] ids@[k] < id,
        StatementKind::Return(e) => opt_below(e, n),
        StatementKind::FunctionDefinition(f) => function_below(f, id, n),
        StatementKind::ClassDefinition(c) => (forall|k: int|
            0 <= k < c.fields@.len() ==> opt_below(#[trigger] c.fields@[k].value, n)) && (forall|k: int|
            0 <= k < c.methods@.len() ==> function_below(#[trigger] c.methods@[k], id, n)) && match c.constructor {
            Some(f) => function_below(f, id, n),
            None => true,
        },
        _ => true,
    }
}

impl Module {
    /// Every statement refers only to statements before it, and every
    /// expression only to expressions before it.
    pub open spec fn wf(&self) -> bool {
        &&& forall|i: int| 0 <= i < self.statements@.len() ==> statement_children_below(
            #[trigger] self.statements@[i].kind,
            i,
            self.expressions@.len() as int,
        )
        &&& forall|i: int| 0 <= i < self.expressions@.len() ==> expression_children_below(
            #[trigger] self.expressions@[i].kind,
            i,
        )
    }

    /// `id` names a statement of this module.
    pub open spec fn has_statement(&self, id: StmtId) -> bool {
        id < self.statements@.len()
    }

    /// An empty module.
    pub fn new() -> (r: Module)
        ensures
            r.wf(),
            r.statements@.len() == 0,
            r.expressions@.len() == 0,
            r.module_members@.len() == 0,
    {
        Module { statements: Vec::new(), expressions: Vec::new(), module_members: Vec::new() }
    }

    /// Appends an expression whose children are already in the arena, and
    /// returns its index.
    pub fn add_expression(&mut self, kind: ExpressionKind, span: Span) -> (r: ExprId)
        requires
            old(self).wf(),
            expression_children_below(kind, old(self).expressions@.len() as int),
        ensures
            final(self).wf(),
            r == old(self).expressions@.len(),
            final(self).expressions@ == old(self).expressions@.push(Expression { kind, span }),
            final(self).statements@ == old(self).statements@,
            final(self).module_members@ == old(self).module_members@,
    {
        let r = self.expressions.len();
        self.expressions.push(Expression { kind, span });
        proof {
            assert forall|i: int| 0 <= i < self.statements@.len() implies statement_children_below(
                #[trigger] self.statements@[i].kind,
                i,
                self.expressions@.len() as int,
            ) by {
                assert(statement_children_below(old(self).statements@[i].kind, i, r as int));
            }
        }
        r
    }

    /// Appends a statement whose children are already in the arenas, and
    /// returns its index.
    pub fn add_statement(&mut self, kind: StatementKind, span: Span) -> (r: StmtId)
        requires
            old(self).wf(),
            statement_children_below(
                kind,
                old(self).statements@.len() as int,
                old(self).expressions@.len() as int,
            ),
        ensures
            final(self).wf(),
            r == old(self).statements@.len(),
            final(self).statements@ == old(self).statements@.push(Statement { kind, span }),
            final(self).expressions@ == old(self).expressions@,
            final(self).module_members@ == old(self).module_members@,
    {
        let r = self.statements.len();
        self.statements.push(Statement { kind, span });
        r
    }
}

} // verus!
