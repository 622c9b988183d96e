//! The syntax tree that the resolver walks: the parts of a source file in
//! which an import can stand, and nothing else of the file.
//!
//! Each executable type has a model made of sequences, which its view
//! returns; contracts are stated over the models.

use vstd::prelude::*;

verus! {

/// Model of an import path.
pub enum ImportModel {
    /// A leading identifier followed by further segments: `name::...`.
    Path(Seq<char>),
    /// A single identifier: `name`.
    Name(Seq<char>),
    /// An identifier bound under an alias: `name as alias`.
    Rename(Seq<char>),
    /// A braced list of import paths: `{a, b::c}`.
    Group(Seq<ImportModel>),
    /// Any other shape, such as `*`.
    Other,
}

/// Model of an item.
pub enum ItemModel {
    /// A function, with the statements of its body.
    Fn(Seq<StmtModel>),
    /// An implementation block, with its members.
    Impl(Seq<MemberModel>),
    /// A module declaration: its name, and its items where it has an inline body.
    Mod(Seq<char>, Option<Seq<ItemModel>>),
    /// An import declaration.
    Use(ImportModel),
    /// Any other item.
    Other,
}

/// Model of a member of an implementation block.
pub enum MemberModel {
    /// A method, with the statements of its body.
    Method(Seq<StmtModel>),
    /// Any other member.
    Other,
}

/// Model of a statement.
pub enum StmtModel {
    /// A local binding, with its initializer where it has one.
    Local(Option<ExprModel>),
    /// An item written as a statement.
    Item(ItemModel),
    /// An expression without a trailing semicolon.
    Expr(ExprModel),
    /// An expression with a trailing semicolon.
    Semi(ExprModel),
    /// Any other statement, such as a macro call.
    Other,
}

/// Model of an expression.
pub enum ExprModel {
    /// `async { .. }`
    Async(Seq<StmtModel>),
    /// `{ .. }`
    Block(Seq<StmtModel>),
    /// `|..| body`
    Closure(Box<ExprModel>),
    /// `for .. in .. { .. }`
    ForLoop(Seq<StmtModel>),
    /// An expression inside invisible delimiters.
    Group(Box<ExprModel>),
    /// `if .. { .. }`, with what follows `else` where there is one.
    If(Seq<StmtModel>, Option<Box<ExprModel>>),
    /// `loop { .. }`
    Loop(Seq<StmtModel>),
    /// `match .. { .. }`, with the body of each arm.
    Match(Seq<ExprModel>),
    /// `try { .. }`
    TryBlock(Seq<StmtModel>),
    /// `unsafe { .. }`
    Unsafe(Seq<StmtModel>),
    /// `while .. { .. }`
    While(Seq<StmtModel>),
    /// Any other expression.
    Other,
}

/// The right-hand side of an import declaration.
#[derive(Debug)]
pub enum ImportPath {
    /// A leading identifier followed by further segments.
    Path(String),
    /// A single identifier.
    Name(String),
    /// An identifier bound under an alias; the alias is not kept.
    Rename(String),
    /// A braced list of import paths.
    Group(Vec<ImportPath>),
    /// Any other shape.
    Other,
}

/// One item of a source file or of a module body.
#[derive(Debug)]
pub enum SyntaxItem {
    Fn(FnItem),
    Impl(ImplBlock),
    Mod(ModItem),
    Use(ImportPath),
    Other,
}

/// A function: its body.
#[derive(Debug)]
pub struct FnItem {
    pub block: CodeBlock,
}

/// An implementation block: its members.
#[derive(Debug)]
pub struct ImplBlock {
    pub items: Vec<ImplMember>,
}

/// A member of an implementation block.
#[derive(Debug)]
pub enum ImplMember {
    Method(CodeBlock),
    Other,
}

/// A module declaration: its name, and its items where the body is inline.
#[derive(Debug)]
pub struct ModItem {
    pub ident: String,
    pub content: Option<Vec<SyntaxItem>>,
}

/// A braced sequence of statements.
#[derive(Debug)]
pub struct CodeBlock {
    pub stmts: Vec<Statement>,
}

/// A statement.
#[derive(Debug)]
pub enum Statement {
    Local(Option<Expression>),
    Item(SyntaxItem),
    Expr(Expression),
    Semi(Expression),
    Other,
}

/// An expression, as far as it can hold statements.
#[derive(Debug)]
pub enum Expression {
    Async(CodeBlock),
    Block(CodeBlock),
    Closure(Box<Expression>),
    ForLoop(CodeBlock),
    Group(Box<Expression>),
    If(CodeBlock, Option<Box<Expression>>),
    Loop(CodeBlock),
    Match(Vec<Expression>),
    TryBlock(CodeBlock),
    Unsafe(CodeBlock),
    While(CodeBlock),
    Other,
}

/// The model of an import path.
pub open spec fn import_model(path: ImportPath) -> ImportModel
    decreases path,
{
    match path {
        ImportPath::Path(n) => ImportModel::Path(n@),
        ImportPath::Name(n) => ImportModel::Name(n@),
        ImportPath::Rename(n) => ImportModel::Rename(n@),
        ImportPath::Group(items) => ImportModel::Group(imports_model(items@)),
        ImportPath::Other => ImportModel::Other,
    }
}

/// The models of a list of import paths, in order.
pub open spec fn imports_model(paths: Seq<ImportPath>) -> Seq<ImportModel>
    decreases paths,
{
    Seq::new(
        paths.len(),
        |k: int|
            if 0 <= k < paths.len() {
                import_model(paths[k])
            } else {
                ImportModel::Other
            },
    )
}

/// The model of an item.
pub open spec fn item_model(item: SyntaxItem) -> ItemModel
    decreases item,
{
    match item {
        SyntaxItem::Fn(f) => ItemModel::Fn(block_model(f.block)),
        SyntaxItem::Impl(i) => ItemModel::Impl(members_model(i.items@)),
        SyntaxItem::Mod(m) => ItemModel::Mod(
            m.ident@,
            match m.content {
                Some(items) => Some(items_model(items@)),
                None => None,
            },
        ),
        SyntaxItem::Use(p) => ItemModel::Use(import_model(p)),
        SyntaxItem::Other => ItemModel::Other,
    }
}

/// The models of a list of items, in order.
pub open spec fn items_model(items: Seq<SyntaxItem>) -> Seq<ItemModel>
    decreases items,
{
    Seq::new(
        items.len(),
        |k: int|
            if 0 <= k < items.len() {
                item_model(items[k])
            } else {
                ItemModel::Other
            },
    )
}

/// The model of a member of an implementation block.
pub open spec fn member_model(member: ImplMember) -> MemberModel
    decreases member,
{
    match member {
        ImplMember::Method(b) => MemberModel::Method(block_model(b)),
        ImplMember::Other => MemberModel::Other,
    }
}

/// The models of a list of members, in order.
pub open spec fn members_model(members: Seq<ImplMember>) -> Seq<MemberModel>
    decreases members,
{
    Seq::new(
        members.len(),
        |k: int|
            if 0 <= k < members.len() {
                member_model(members[k])
            } else {
                MemberModel::Other
            },
    )
}

/// The model of a block: the models of its statements, in order.
pub open spec fn block_model(block: CodeBlock) -> Seq<StmtModel>
    decreases block,
{
    stmts_model(block.stmts@)
}

/// The models of a list of statements, in order.
pub open spec fn stmts_model(stmts: Seq<Statement>) -> Seq<StmtModel>
    decreases stmts,
{
    Seq::new(
        stmts.len(),
        |k: int|
            if 0 <= k < stmts.len() {
                stmt_model(stmts[k])
            } else {
                StmtModel::Other
            },
    )
}

/// The model of a statement.
pub open spec fn stmt_model(stmt: Statement) -> StmtModel
    decreases stmt,
{
    match stmt {
        Statement::Local(init) => StmtModel::Local(
            match init {
                Some(e) => Some(expr_model(e)),
                None => None,
            },
        ),
        Statement::Item(i) => StmtModel::Item(item_model(i)),
        Statement::Expr(e) => StmtModel::Expr(expr_model(e)),
        Statement::Semi(e) => StmtModel::Semi(expr_model(e)),
        Statement::Other => StmtModel::Other,
    }
}

/// The model of an expression.
pub open spec fn expr_model(e: Expression) -> ExprModel
    decreases e,
{
    match e {
        Expression::Async(b) => ExprModel::Async(block_model(b)),
        Expression::Block(b) => ExprModel::Block(block_model(b)),
        Expression::Closure(body) => ExprModel::Closure(Box::new(expr_model(*body))),
        Expression::ForLoop(b) => ExprModel::ForLoop(block_model(b)),
        Expression::Group(inner) => ExprModel::Group(Box::new(expr_model(*inner))),
        Expression::If(b, other) => ExprModel::If(
            block_model(b),
            match other {
                Some(e) => Some(Box::new(expr_model(*e))),
                None => None,
            },
        ),
        Expression::Loop(b) => ExprModel::Loop(block_model(b)),
        Expression::Match(arms) => ExprModel::Match(exprs_model(arms@)),
        Expression::TryBlock(b) => ExprModel::TryBlock(block_model(b)),
        Expression::Unsafe(b) => ExprModel::Unsafe(block_model(b)),
        Expression::While(b) => ExprModel::While(block_model(b)),
        Expression::Other => ExprModel::Other,
    }
}

/// The models of a list of expressions, in order.
pub open spec fn exprs_model(exprs: Seq<Expression>) -> Seq<ExprModel>
    decreases exprs,
{
    Seq::new(
        exprs.len(),
        |k: int|
            if 0 <= k < exprs.len() {
                expr_model(exprs[k])
            } else {
                ExprModel::Other
            },
    )
}

impl View for ImportPath {
    type V = ImportModel;

    open spec fn view(&self) -> ImportModel {
        import_model(*self)
    }
}

impl View for SyntaxItem {
    type V = ItemModel;

    open spec fn view(&self) -> ItemModel {
        item_model(*self)
    }
}

impl View for FnItem {
    type V = Seq<StmtModel>;

    open spec fn view(&self) -> Seq<StmtModel> {
        block_model(self.block)
    }
}

impl View for ImplBlock {
    type V = Seq<MemberModel>;

    open spec fn view(&self) -> Seq<MemberModel> {
        members_model(self.items@)
    }
}

impl View for ImplMember {
    type V = MemberModel;

    open spec fn view(&self) -> MemberModel {
        member_model(*self)
    }
}

impl View for CodeBlock {
    type V = Seq<StmtModel>;

    open spec fn view(&self) -> Seq<StmtModel> {
        block_model(*self)
    }
}

impl View for Statement {
    type V = StmtModel;

    open spec fn view(&self) -> StmtModel {
        stmt_model(*self)
    }
}

impl View for Expression {
    type V = ExprModel;

    open spec fn view(&self) -> ExprModel {
        expr_model(*self)
    }
}

} // verus!
