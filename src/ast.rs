use vstd::prelude::*;
use crate::token::{Literal, LiteralView, Operator};

verus! {

/// A type annotation: a type name, if one was written, and whether the
/// binding is mutable.
#[derive(Debug, Clone, PartialEq)]
pub struct TypeInfo {
    pub name: Option<String>,
    pub is_mut: bool,
}

pub struct TypeInfoView {
    pub name: Option<Seq<char>>,
    pub is_mut: bool,
}

impl View for TypeInfo {
    type V = TypeInfoView;

    open spec fn view(&self) -> TypeInfoView {
        TypeInfoView {
            name: match self.name {
                Some(n) => Some(n@),
                None => None,
            },
            is_mut: self.is_mut,
        }
    }
}

/// A function parameter.
#[derive(Debug, Clone, PartialEq)]
pub struct Arg {
    pub name: String,
    pub type_info: TypeInfo,
}

pub struct ArgView {
    pub name: Seq<char>,
    pub type_info: TypeInfoView,
}

impl View for Arg {
    type V = ArgView;

    open spec fn view(&self) -> ArgView {
        ArgView { name: self.name@, type_info: self.type_info@ }
    }
}

/// A use, declaration or reassignment of a variable. A use carries no
/// expression; `is_decl` tells a declaration (`:=`) from a reassignment (`=`).
#[derive(Debug)]
pub struct Variable {
    pub name: String,
    pub is_decl: bool,
    pub expression: Option<Box<Expression>>,
    pub type_info: Option<TypeInfo>,
}

#[derive(Debug)]
pub enum Expression {
    Literal(Literal),
    Group { inner: Box<Expression> },
    Unary { operator: Operator, operand: Box<Expression> },
    Binary { left: Box<Expression>, right: Box<Expression>, operator: Operator },
    Variable(Variable),
}

pub struct VariableView {
    pub name: Seq<char>,
    pub is_decl: bool,
    pub expression: Option<Box<ExpressionView>>,
    pub type_info: Option<TypeInfoView>,
}

pub enum ExpressionView {
    Literal(LiteralView),
    Group(Box<ExpressionView>),
    Unary(Operator, Box<ExpressionView>),
    Binary(Box<ExpressionView>, Operator, Box<ExpressionView>),
    Variable(VariableView),
}

pub open spec fn expression_view(e: Expression) -> ExpressionView
    decreases e,
{
    match e {
        Expression::Literal(l) => ExpressionView::Literal(l@),
        Expression::Group { inner } => ExpressionView::Group(Box::new(expression_view(*inner))),
        Expression::Unary { operator, operand } => ExpressionView::Unary(
            operator,
            Box::new(expression_view(*operand)),
        ),
        Expression::Binary { left, right, operator } => ExpressionView::Binary(
            Box::new(expression_view(*left)),
            operator,
            Box::new(expression_view(*right)),
        ),
        Expression::Variable(v) => ExpressionView::Variable(variable_view(v)),
    }
}

pub open spec fn variable_view(v: Variable) -> VariableView
    decreases v,
{
    VariableView {
        name: v.name@,
        is_decl: v.is_decl,
        expression: match v.expression {
            Some(e) => Some(Box::new(expression_view(*e))),
            None => None,
        },
        type_info: match v.type_info {
            Some(t) => Some(t@),
            None => None,
        },
    }
}

impl View for Expression {
    type V = ExpressionView;

    open spec fn view(&self) -> ExpressionView {
        expression_view(*self)
    }
}

impl View for Variable {
    type V = VariableView;

    open spec fn view(&self) -> VariableView {
        variable_view(*self)
    }
}

/// A statement: an expression (variable declarations included) or a nested block.
#[derive(Debug)]
pub enum Statement {
    Expression(Expression),
    Block(Block),
}

/// A brace-delimited sequence of statements.
#[derive(Debug)]
pub struct Block {
    pub statements: Vec<Statement>,
}

pub enum StatementView {
    Expression(ExpressionView),
    Block(BlockView),
}

pub struct BlockView {
    pub statements: Seq<StatementView>,
}

pub open spec fn statement_view(s: Statement) -> StatementView
    decreases s,
{
    match s {
        Statement::Expression(e) => StatementView::Expression(e@),
        Statement::Block(b) => StatementView::Block(block_view(b)),
    }
}

pub open spec fn block_view(b: Block) -> BlockView
    decreases b,
{
    BlockView {
        statements: Seq::new(
            b.statements.len() as nat,
            |i: int|
                if 0 <= i < b.statements.len() {
                    statement_view(b.statements[i])
                } else {
                    StatementView::Block(BlockView { statements: seq![] })
                },
        ),
    }
}

impl View for Statement {
    type V = StatementView;

    open spec fn view(&self) -> StatementView {
        statement_view(*self)
    }
}

impl View for Block {
    type V = BlockView;

    open spec fn view(&self) -> BlockView {
        block_view(*self)
    }
}

/// A function: its name, parameters, return type and body.
#[derive(Debug)]
pub struct Function {
    pub name: String,
    pub parameters: Vec<Arg>,
    pub return_type: TypeInfo,
    pub block: Block,
}

pub struct FunctionView {
    pub name: Seq<char>,
    pub parameters: Seq<ArgView>,
    pub return_type: TypeInfoView,
    pub block: BlockView,
}

impl View for Function {
    type V = FunctionView;

    open spec fn view(&self) -> FunctionView {
        FunctionView {
            name: self.name@,
            parameters: views(self.parameters@),
            return_type: self.return_type@,
            block: self.block@,
        }
    }
}

/// The views of the elements of a sequence.
pub open spec fn views<T: View>(s: Seq<T>) -> Seq<T::V> {
    s.map_values(|t: T| t@)
}

/// A dependency on another module, by path.
#[derive(Debug, Clone, PartialEq)]
pub struct Import {
    pub path: String,
}

pub struct ImportView {
    pub path: Seq<char>,
}

impl View for Import {
    type V = ImportView;

    open spec fn view(&self) -> ImportView {
        ImportView { path: self.path@ }
    }
}

/// A module with what it declares, each list in source order.
#[derive(Debug)]
pub struct Module {
    pub name: String,
    pub imports: Vec<Import>,
    pub modules: Vec<Module>,
    pub functions: Vec<Function>,
    pub variables: Vec<Variable>,
}

pub struct ModuleView {
    pub name: Seq<char>,
    pub imports: Seq<ImportView>,
    pub modules: Seq<ModuleView>,
    pub functions: Seq<FunctionView>,
    pub variables: Seq<VariableView>,
}

pub open spec fn module_view(m: Module) -> ModuleView
    decreases m,
{
    ModuleView {
        name: m.name@,
        imports: views(m.imports@),
        modules: Seq::new(
            m.modules.len() as nat,
            |i: int|
                if 0 <= i < m.modules.len() {
                    module_view(m.modules[i])
                } else {
                    empty_module(seq![])
                },
        ),
        functions: views(m.functions@),
        variables: views(m.variables@),
    }
}

/// A module named `name` that declares nothing.
pub open spec fn empty_module(name: Seq<char>) -> ModuleView {
    ModuleView { name, imports: seq![], modules: seq![], functions: seq![], variables: seq![] }
}

impl View for Module {
    type V = ModuleView;

    open spec fn view(&self) -> ModuleView {
        module_view(*self)
    }
}

/// The result of a parse: the root module.
#[derive(Debug)]
pub struct Ast {
    pub root: Option<Module>,
}

impl Ast {
    /// An AST without a root.
    pub fn new() -> (r: Self)
        ensures
            r.root is None,
    {
        Ast { root: None }
    }
}

impl Default for Ast {
    fn default() -> (r: Self)
        ensures
            r.root is None,
    {
        Self::new()
    }
}

} // verus!
