//! The syntax extractor: parses source text with `syn` and lowers what it
//! returns into the tree of `crate::syntax`.
//!
//! `syn`'s nodes are opaque here. Each of them has a model, which is named
//! but not defined; the accessors below open one node at a time and say how
//! the models of its parts make up its own. The lowering is verified against
//! those statements.

use vstd::prelude::*;
use vstd::string::*;
use vstd::utf8::encode_utf8;
use crate::syntax::{
    CodeBlock, ExprModel, Expression, FnItem, ImplBlock, ImplMember, ImportModel, ImportPath,
    ItemModel, MemberModel, ModItem, Statement, StmtModel, SyntaxItem, exprs_model, imports_model,
    items_model, members_model, stmts_model,
};

verus! {

/// `syn::Item`, taken as opaque.
#[verifier::external_type_specification]
#[verifier::external_body]
pub struct ExSynItem(syn::Item);

/// `syn::ImplItem`, taken as opaque.
#[verifier::external_type_specification]
#[verifier::external_body]
pub struct ExSynImplItem(syn::ImplItem);

/// `syn::Block`, taken as opaque.
#[verifier::external_type_specification]
#[verifier::external_body]
pub struct ExSynBlock(syn::Block);

/// `syn::Stmt`, taken as opaque.
#[verifier::external_type_specification]
#[verifier::external_body]
pub struct ExSynStmt(syn::Stmt);

/// `syn::Expr`, taken as opaque.
#[verifier::external_type_specification]
#[verifier::external_body]
pub struct ExSynExpr(syn::Expr);

/// `syn::UseTree`, taken as opaque.
#[verifier::external_type_specification]
#[verifier::external_body]
pub struct ExSynUseTree(syn::UseTree);

/// Model of a parse failure.
pub struct DiagnosticModel {
    pub message: Seq<char>,
    pub line: nat,
    pub column: nat,
}

/// Why a source text is no syntax tree: the grammar's message, and the line
/// (from 1) and column (from 0, in characters) at which it applies. A text
/// that was too long to be parsed has line 0.
#[derive(Debug)]
pub struct ParseError {
    pub message: String,
    pub line: usize,
    pub column: usize,
}

impl View for ParseError {
    type V = DiagnosticModel;

    open spec fn view(&self) -> DiagnosticModel {
        DiagnosticModel { message: self.message@, line: self.line as nat, column: self.column as nat }
    }
}

impl ParseError {
    /// The message of the grammar, without the place.
    pub fn to_string(&self) -> (r: String)
        ensures
            r@ == self.message@,
    {
        self.message.clone()
    }
}

/// What `syn::parse_file` makes of a source text: the models of the items of
/// the file, or the diagnostic of its failure.
pub uninterp spec fn parse_outcome(code: Seq<char>) -> Result<Seq<ItemModel>, DiagnosticModel>;

/// The model of a `syn::Item`.
pub uninterp spec fn parsed_item(item: syn::Item) -> ItemModel;

/// The model of a `syn::ImplItem`.
pub uninterp spec fn parsed_member(member: syn::ImplItem) -> MemberModel;

/// The model of a `syn::Block`: the models of its statements.
pub uninterp spec fn parsed_block(block: syn::Block) -> Seq<StmtModel>;

/// The model of a `syn::Stmt`.
pub uninterp spec fn parsed_stmt(stmt: syn::Stmt) -> StmtModel;

/// The model of a `syn::Expr`.
pub uninterp spec fn parsed_expr(e: syn::Expr) -> ExprModel;

/// The model of a `syn::UseTree`.
pub uninterp spec fn parsed_import(tree: syn::UseTree) -> ImportModel;

/// The models of a list of `syn` items, in order.
pub open spec fn parsed_items(items: Seq<syn::Item>) -> Seq<ItemModel> {
    Seq::new(items.len(), |k: int| parsed_item(items[k]))
}

/// The models of a list of `syn` members, in order.
pub open spec fn parsed_members(members: Seq<syn::ImplItem>) -> Seq<MemberModel> {
    Seq::new(members.len(), |k: int| parsed_member(members[k]))
}

/// The models of a list of `syn` statements, in order.
pub open spec fn parsed_stmts(stmts: Seq<syn::Stmt>) -> Seq<StmtModel> {
    Seq::new(stmts.len(), |k: int| parsed_stmt(stmts[k]))
}

/// The models of a list of `syn` expressions, in order.
pub open spec fn parsed_exprs(exprs: Seq<&syn::Expr>) -> Seq<ExprModel> {
    Seq::new(exprs.len(), |k: int| parsed_expr(*exprs[k]))
}

/// The models of a list of `syn` import paths, in order.
pub open spec fn parsed_imports(trees: Seq<&syn::UseTree>) -> Seq<ImportModel> {
    Seq::new(trees.len(), |k: int| parsed_import(*trees[k]))
}

/// A `syn::Item` opened: its kind, and the parts that a walk can enter.
enum ItemParts<'a> {
    Fn(&'a syn::Block),
    Impl(&'a Vec<syn::ImplItem>),
    Mod(String, Option<&'a Vec<syn::Item>>),
    Use(&'a syn::UseTree),
    Other,
}

/// A `syn::Stmt` opened.
enum StmtParts<'a> {
    Local(Option<&'a syn::Expr>),
    Item(&'a syn::Item),
    Expr(&'a syn::Expr),
    Semi(&'a syn::Expr),
    Other,
}

/// A `syn::UseTree` opened.
enum ImportParts<'a> {
    Path(String),
    Name(String),
    Rename(String),
    Group(Vec<&'a syn::UseTree>),
    Other,
}

/// The kind of an expression.
#[derive(Clone, Copy, PartialEq, Eq, Structural)]
enum ExprKind {
    Async,
    Block,
    Closure,
    ForLoop,
    Group,
    If,
    Loop,
    Match,
    TryBlock,
    Unsafe,
    While,
    Other,
}

/// The model that the parts of an item make up.
spec fn item_parts_model(parts: ItemParts) -> ItemModel {
    match parts {
        ItemParts::Fn(body) => ItemModel::Fn(parsed_block(*body)),
        ItemParts::Impl(members) => ItemModel::Impl(parsed_members(members@)),
        ItemParts::Mod(name, content) => ItemModel::Mod(
            name@,
            match content {
                Some(items) => Some(parsed_items(items@)),
                None => None,
            },
        ),
        ItemParts::Use(tree) => ItemModel::Use(parsed_import(*tree)),
        ItemParts::Other => ItemModel::Other,
    }
}

/// The model that the parts of a statement make up.
spec fn stmt_parts_model(parts: StmtParts) -> StmtModel {
    match parts {
        StmtParts::Local(init) => StmtModel::Local(
            match init {
                Some(e) => Some(parsed_expr(*e)),
                None => None,
            },
        ),
        StmtParts::Item(item) => StmtModel::Item(parsed_item(*item)),
        StmtParts::Expr(e) => StmtModel::Expr(parsed_expr(*e)),
        StmtParts::Semi(e) => StmtModel::Semi(parsed_expr(*e)),
        StmtParts::Other => StmtModel::Other,
    }
}

/// The model that the parts of an import path make up.
spec fn import_parts_model(parts: ImportParts) -> ImportModel {
    match parts {
        ImportParts::Path(name) => ImportModel::Path(name@),
        ImportParts::Name(name) => ImportModel::Name(name@),
        ImportParts::Rename(name) => ImportModel::Rename(name@),
        ImportParts::Group(trees) => ImportModel::Group(parsed_imports(trees@)),
        ImportParts::Other => ImportModel::Other,
    }
}

/// The kind of an expression model.
spec fn kind_of(e: ExprModel) -> ExprKind {
    match e {
        ExprModel::Async(_) => ExprKind::Async,
        ExprModel::Block(_) => ExprKind::Block,
        ExprModel::Closure(_) => ExprKind::Closure,
        ExprModel::ForLoop(_) => ExprKind::ForLoop,
        ExprModel::Group(_) => ExprKind::Group,
        ExprModel::If(_, _) => ExprKind::If,
        ExprModel::Loop(_) => ExprKind::Loop,
        ExprModel::Match(_) => ExprKind::Match,
        ExprModel::TryBlock(_) => ExprKind::TryBlock,
        ExprModel::Unsafe(_) => ExprKind::Unsafe,
        ExprModel::While(_) => ExprKind::While,
        ExprModel::Other => ExprKind::Other,
    }
}

/// The block that an expression model holds directly, if it holds one.
spec fn block_of(e: ExprModel) -> Option<Seq<StmtModel>> {
    match e {
        ExprModel::Async(b) => Some(b),
        ExprModel::Block(b) => Some(b),
        ExprModel::ForLoop(b) => Some(b),
        ExprModel::If(b, _) => Some(b),
        ExprModel::Loop(b) => Some(b),
        ExprModel::TryBlock(b) => Some(b),
        ExprModel::Unsafe(b) => Some(b),
        ExprModel::While(b) => Some(b),
        _ => None,
    }
}

/// The expression that an expression model holds directly, if it holds one:
/// the body of a closure, the content of a group, what follows `else`.
spec fn inner_of(e: ExprModel) -> Option<ExprModel> {
    match e {
        ExprModel::Closure(body) => Some(*body),
        ExprModel::Group(inner) => Some(*inner),
        ExprModel::If(_, Some(other)) => Some(*other),
        _ => None,
    }
}

/// The bodies of the arms of a match; empty for any other expression model.
spec fn arms_of(e: ExprModel) -> Seq<ExprModel> {
    match e {
        ExprModel::Match(arms) => arms,
        _ => Seq::empty(),
    }
}

/// The longest source text that is handed to the parser, in bytes. The
/// parser counts the characters of a text in 32 bits.
pub const SOURCE_LIMIT: usize = 0x7fff_ffff;

/// What parsing makes of a source text: what `syn::parse_file` makes of
/// it, and a diagnostic of its own for a text beyond `SOURCE_LIMIT`.
pub open spec fn source_outcome(code: Seq<char>) -> Result<Seq<ItemModel>, DiagnosticModel> {
    if encode_utf8(code).len() as usize > SOURCE_LIMIT {
        Err(DiagnosticModel { message: "source text too long"@, line: 0, column: 0 })
    } else {
        parse_outcome(code)
    }
}

/// Calls `syn::parse_file` and hands out the items of the file, or the
/// message and place of the error. Before the call it empties the table in
/// which `proc_macro2` records the texts parsed on this thread
/// (`proc_macro2::extra::invalidate_current_thread_spans`), so that the
/// positions of this text count from 1 and the table holds one text at a
/// time; that call is refused inside a procedural macro, and nowhere else.
/// Trusted: that the outcome depends on the text alone, which is all that
/// the name `parse_outcome` says.
#[verifier::external_body]
fn parse_source(code: &str) -> (r: Result<Vec<syn::Item>, ParseError>)
    requires
        code.spec_bytes().len() as usize <= SOURCE_LIMIT,
    ensures
        match r {
            Ok(items) => parse_outcome(code@) == Ok::<Seq<ItemModel>, DiagnosticModel>(
                parsed_items(items@),
            ),
            Err(e) => parse_outcome(code@) == Err::<Seq<ItemModel>, DiagnosticModel>(e@),
        },
{
    proc_macro2::extra::invalidate_current_thread_spans();
    match syn::parse_file(code) {
        Ok(file) => Ok(file.items),
        Err(e) => {
            let at = e.span().start();
            Err(ParseError { message: e.to_string(), line: at.line, column: at.column })
        },
    }
}

/// Tells the variants of `syn::Item` apart and hands out the fields that a
/// walk enters: the block of a function, the members of an implementation
/// block, the name and inline content of a module, the tree of a `use`.
/// Trusted: that these parts make up the model of the item.
#[verifier::external_body]
fn open_item<'a>(item: &'a syn::Item) -> (r: ItemParts<'a>)
    ensures
        item_parts_model(r) == parsed_item(*item),
{
    match item {
        syn::Item::Fn(f) => ItemParts::Fn(&f.block),
        syn::Item::Impl(i) => ItemParts::Impl(&i.items),
        syn::Item::Mod(m) => ItemParts::Mod(m.ident.to_string(), m.content.as_ref().map(|c| &c.1)),
        syn::Item::Use(u) => ItemParts::Use(&u.tree),
        _ => ItemParts::Other,
    }
}

/// Hands out the block of a `syn::ImplItem::Fn`, and nothing for any
/// other member. Trusted: that this is the model of the member.
#[verifier::external_body]
fn method_body<'a>(member: &'a syn::ImplItem) -> (r: Option<&'a syn::Block>)
    ensures
        parsed_member(*member) == (match r {
            Some(body) => MemberModel::Method(parsed_block(*body)),
            None => MemberModel::Other,
        }),
{
    match member {
        syn::ImplItem::Fn(m) => Some(&m.block),
        _ => None,
    }
}

/// Hands out the field `stmts` of a `syn::Block`. Trusted: that the models
/// of the statements are the model of the block.
#[verifier::external_body]
fn block_stmts<'a>(block: &'a syn::Block) -> (r: &'a Vec<syn::Stmt>)
    ensures
        parsed_stmts(r@) == parsed_block(*block),
{
    &block.stmts
}

/// Tells the variants of `syn::Stmt` apart and hands out the item, the
/// expression (with or without a semicolon behind it), or the expression
/// of the initializer of a local binding; a macro call in statement
/// position is `Other`. Trusted: that these parts make up the model of the
/// statement.
#[verifier::external_body]
fn open_stmt<'a>(stmt: &'a syn::Stmt) -> (r: StmtParts<'a>)
    ensures
        stmt_parts_model(r) == parsed_stmt(*stmt),
{
    match stmt {
        syn::Stmt::Local(l) => StmtParts::Local(l.init.as_ref().map(|i| &*i.expr)),
        syn::Stmt::Item(i) => StmtParts::Item(i),
        syn::Stmt::Expr(e, None) => StmtParts::Expr(e),
        syn::Stmt::Expr(e, Some(_)) => StmtParts::Semi(e),
        syn::Stmt::Macro(_) => StmtParts::Other,
    }
}

/// Tells the variants of `syn::Expr` apart. Trusted: that the variant is the
/// kind of the model.
#[verifier::external_body]
fn expr_kind(e: &syn::Expr) -> (r: ExprKind)
    ensures
        r == kind_of(parsed_expr(*e)),
{
    match e {
        syn::Expr::Async(_) => ExprKind::Async,
        syn::Expr::Block(_) => ExprKind::Block,
        syn::Expr::Closure(_) => ExprKind::Closure,
        syn::Expr::ForLoop(_) => ExprKind::ForLoop,
        syn::Expr::Group(_) => ExprKind::Group,
        syn::Expr::If(_) => ExprKind::If,
        syn::Expr::Loop(_) => ExprKind::Loop,
        syn::Expr::Match(_) => ExprKind::Match,
        syn::Expr::TryBlock(_) => ExprKind::TryBlock,
        syn::Expr::Unsafe(_) => ExprKind::Unsafe,
        syn::Expr::While(_) => ExprKind::While,
        _ => ExprKind::Other,
    }
}

/// Hands out the block of a `syn::Expr` that has one as a field: `block` of
/// `Async`, `Block`, `TryBlock` and `Unsafe`, `body` of `ForLoop`, `Loop`
/// and `While`, `then_branch` of `If`. Trusted: that it is the block of the
/// model.
#[verifier::external_body]
fn expr_block<'a>(e: &'a syn::Expr) -> (r: Option<&'a syn::Block>)
    ensures
        block_of(parsed_expr(*e)) == (match r {
            Some(body) => Some(parsed_block(*body)),
            None => None,
        }),
{
    match e {
        syn::Expr::Async(x) => Some(&x.block),
        syn::Expr::Block(x) => Some(&x.block),
        syn::Expr::ForLoop(x) => Some(&x.body),
        syn::Expr::If(x) => Some(&x.then_branch),
        syn::Expr::Loop(x) => Some(&x.body),
        syn::Expr::TryBlock(x) => Some(&x.block),
        syn::Expr::Unsafe(x) => Some(&x.block),
        syn::Expr::While(x) => Some(&x.body),
        _ => None,
    }
}

/// Hands out the expression that a `syn::Expr` has as a field: `body` of
/// `Closure`, `expr` of `Group`, the second part of `else_branch` of `If`.
/// Trusted: that it is the inner expression of the model.
#[verifier::external_body]
fn expr_inner<'a>(e: &'a syn::Expr) -> (r: Option<&'a syn::Expr>)
    ensures
        inner_of(parsed_expr(*e)) == (match r {
            Some(inner) => Some(parsed_expr(*inner)),
            None => None,
        }),
{
    match e {
        syn::Expr::Closure(x) => Some(&x.body),
        syn::Expr::Group(x) => Some(&x.expr),
        syn::Expr::If(x) => x.else_branch.as_ref().map(|b| &*b.1),
        _ => None,
    }
}

/// Hands out the field `body` of each arm of a `syn::Expr::Match`, in
/// order, and nothing for any other expression. Trusted: that these are the
/// arms of the model.
#[verifier::external_body]
fn expr_arms<'a>(e: &'a syn::Expr) -> (r: Vec<&'a syn::Expr>)
    ensures
        parsed_exprs(r@) == arms_of(parsed_expr(*e)),
{
    match e {
        syn::Expr::Match(m) => m.arms.iter().map(|arm| &*arm.body).collect(),
        _ => Vec::new(),
    }
}

/// Tells the variants of `syn::UseTree` apart and hands out the leading
/// identifier of a path, a name or a rename as text, and the members of a
/// group. Trusted: that these parts make up the model of the tree.
#[verifier::external_body]
fn open_import<'a>(tree: &'a syn::UseTree) -> (r: ImportParts<'a>)
    ensures
        import_parts_model(r) == parsed_import(*tree),
{
    match tree {
        syn::UseTree::Path(p) => ImportParts::Path(p.ident.to_string()),
        syn::UseTree::Name(n) => ImportParts::Name(n.ident.to_string()),
        syn::UseTree::Rename(r) => ImportParts::Rename(r.ident.to_string()),
        syn::UseTree::Group(g) => ImportParts::Group(g.items.iter().collect()),
        _ => ImportParts::Other,
    }
}

/// Lowers an import path.
pub fn lower_import(tree: &syn::UseTree) -> (r: ImportPath)
    ensures
        r@ == parsed_import(*tree),
    decreases parsed_import(*tree),
{
    match open_import(tree) {
        ImportParts::Path(name) => ImportPath::Path(name),
        ImportParts::Name(name) => ImportPath::Name(name),
        ImportParts::Rename(name) => ImportPath::Rename(name),
        ImportParts::Group(trees) => {
            let ghost whole = parsed_import(*tree);
            let ghost kids = parsed_imports(trees@);
            let mut out: Vec<ImportPath> = Vec::new();
            let mut i: usize = 0;
            while i < trees.len()
                invariant
                    i <= trees.len(),
                    out.len() == i,
                    whole == parsed_import(*tree),
                    whole == ImportModel::Group(kids),
                    kids == parsed_imports(trees@),
                    forall|k: int| 0 <= k < i ==> out[k]@ == kids[k],
                decreases trees.len() - i,
            {
                proof {
                    assert(whole->Group_0 == kids);
                    assert(decreases_to!(whole => whole->Group_0));
                    assert(decreases_to!(kids => kids[i as int]));
                }
                let child = lower_import(trees[i]);
                out.push(child);
                i += 1;
            }
            assert(imports_model(out@) =~= kids);
            ImportPath::Group(out)
        },
        ImportParts::Other => ImportPath::Other,
    }
}

/// Lowers an item.
pub fn lower_item(item: &syn::Item) -> (r: SyntaxItem)
    ensures
        r@ == parsed_item(*item),
    decreases parsed_item(*item), 0nat,
{
    let ghost whole = parsed_item(*item);
    match open_item(item) {
        ItemParts::Fn(body) => {
            proof {
                assert(decreases_to!(whole => whole->Fn_0));
            }
            SyntaxItem::Fn(FnItem { block: lower_block(body) })
        },
        ItemParts::Impl(members) => {
            let ghost kids = parsed_members(members@);
            let mut out: Vec<ImplMember> = Vec::new();
            let mut i: usize = 0;
            while i < members.len()
                invariant
                    i <= members.len(),
                    out.len() == i,
                    whole == parsed_item(*item),
                    whole == ItemModel::Impl(kids),
                    kids == parsed_members(members@),
                    forall|k: int| 0 <= k < i ==> out[k]@ == kids[k],
                decreases members.len() - i,
            {
                proof {
                    assert(whole->Impl_0 == kids);
                    assert(decreases_to!(whole => whole->Impl_0));
                    assert(decreases_to!(kids => kids[i as int]));
                }
                let member = match method_body(&members[i]) {
                    Some(body) => {
                        proof {
                            assert(decreases_to!(kids[i as int] => kids[i as int]->Method_0));
                        }
                        ImplMember::Method(lower_block(body))
                    },
                    None => ImplMember::Other,
                };
                out.push(member);
                i += 1;
            }
            assert(members_model(out@) =~= kids);
            SyntaxItem::Impl(ImplBlock { items: out })
        },
        ItemParts::Mod(name, content) => {
            let content = match content {
                Some(items) => {
                    proof {
                        assert(decreases_to!(whole => whole->Mod_1));
                        assert(decreases_to!(whole->Mod_1 => whole->Mod_1->Some_0));
                    }
                    Some(lower_items(items))
                },
                None => None,
            };
            SyntaxItem::Mod(ModItem { ident: name, content })
        },
        ItemParts::Use(tree) => SyntaxItem::Use(lower_import(tree)),
        ItemParts::Other => SyntaxItem::Other,
    }
}

/// Lowers a list of items, in order.
pub fn lower_items(items: &Vec<syn::Item>) -> (r: Vec<SyntaxItem>)
    ensures
        items_model(r@) == parsed_items(items@),
    decreases parsed_items(items@), 1nat,
{
    let ghost kids = parsed_items(items@);
    let mut out: Vec<SyntaxItem> = Vec::new();
    let mut i: usize = 0;
    while i < items.len()
        invariant
            i <= items.len(),
            out.len() == i,
            kids == parsed_items(items@),
            forall|k: int| 0 <= k < i ==> out[k]@ == kids[k],
        decreases items.len() - i,
    {
        proof {
            assert(decreases_to!(kids => kids[i as int]));
        }
        let item = lower_item(&items[i]);
        out.push(item);
        i += 1;
    }
    assert(items_model(out@) =~= kids);
    out
}

/// Lowers a block.
pub fn lower_block(block: &syn::Block) -> (r: CodeBlock)
    ensures
        r@ == parsed_block(*block),
    decreases parsed_block(*block), 1nat,
{
    let stmts = block_stmts(block);
    let ghost kids = parsed_block(*block);
    let mut out: Vec<Statement> = Vec::new();
    let mut i: usize = 0;
    while i < stmts.len()
        invariant
            i <= stmts.len(),
            out.len() == i,
            kids == parsed_block(*block),
            kids == parsed_stmts(stmts@),
            forall|k: int| 0 <= k < i ==> out[k]@ == kids[k],
        decreases stmts.len() - i,
    {
        proof {
            assert(decreases_to!(kids => kids[i as int]));
        }
        let stmt = lower_stmt(&stmts[i]);
        out.push(stmt);
        i += 1;
    }
    assert(stmts_model(out@) =~= kids);
    CodeBlock { stmts: out }
}

/// Lowers a statement.
pub fn lower_stmt(stmt: &syn::Stmt) -> (r: Statement)
    ensures
        r@ == parsed_stmt(*stmt),
    decreases parsed_stmt(*stmt), 0nat,
{
    let ghost whole = parsed_stmt(*stmt);
    match open_stmt(stmt) {
        StmtParts::Local(init) => match init {
            Some(e) => {
                proof {
                    assert(decreases_to!(whole => whole->Local_0));
                    assert(decreases_to!(whole->Local_0 => whole->Local_0->Some_0));
                }
                Statement::Local(Some(lower_expr(e)))
            },
            None => Statement::Local(None),
        },
        StmtParts::Item(item) => {
            proof {
                assert(decreases_to!(whole => whole->Item_0));
            }
            Statement::Item(lower_item(item))
        },
        StmtParts::Expr(e) => {
            proof {
                assert(decreases_to!(whole => whole->Expr_0));
            }
            Statement::Expr(lower_expr(e))
        },
        StmtParts::Semi(e) => {
            proof {
                assert(decreases_to!(whole => whole->Semi_0));
            }
            Statement::Semi(lower_expr(e))
        },
        StmtParts::Other => Statement::Other,
    }
}

/// The block of an expression whose model holds one.
fn lower_body(e: &syn::Expr) -> (r: CodeBlock)
    requires
        block_of(parsed_expr(*e)) is Some,
    ensures
        Some(r@) == block_of(parsed_expr(*e)),
    decreases parsed_expr(*e), 0nat,
{
    let ghost whole = parsed_expr(*e);
    match expr_block(e) {
        Some(body) => {
            proof {
                assert(decreases_to!(whole => block_of(whole)->Some_0)) by {
                    match whole {
                        ExprModel::Async(b) => assert(decreases_to!(whole => whole->Async_0)),
                        ExprModel::Block(b) => assert(decreases_to!(whole => whole->Block_0)),
                        ExprModel::ForLoop(b) => assert(decreases_to!(whole => whole->ForLoop_0)),
                        ExprModel::If(b, _) => assert(decreases_to!(whole => whole->If_0)),
                        ExprModel::Loop(b) => assert(decreases_to!(whole => whole->Loop_0)),
                        ExprModel::TryBlock(b) => assert(decreases_to!(whole => whole->TryBlock_0)),
                        ExprModel::Unsafe(b) => assert(decreases_to!(whole => whole->Unsafe_0)),
                        ExprModel::While(b) => assert(decreases_to!(whole => whole->While_0)),
                        _ => {},
                    }
                }
            }
            lower_block(body)
        },
        None => CodeBlock { stmts: Vec::new() },
    }
}

/// The inner expression of an expression whose model holds one.
fn lower_inner(e: &syn::Expr) -> (r: Expression)
    requires
        inner_of(parsed_expr(*e)) is Some,
    ensures
        Some(r@) == inner_of(parsed_expr(*e)),
    decreases parsed_expr(*e), 0nat,
{
    let ghost whole = parsed_expr(*e);
    match expr_inner(e) {
        Some(inner) => {
            proof {
                assert(decreases_to!(whole => inner_of(whole)->Some_0)) by {
                    match whole {
                        ExprModel::Closure(b) => {
                            assert(decreases_to!(whole => whole->Closure_0));
                        },
                        ExprModel::Group(b) => {
                            assert(decreases_to!(whole => whole->Group_0));
                        },
                        ExprModel::If(_, Some(b)) => {
                            assert(decreases_to!(whole => whole->If_1));
                            assert(decreases_to!(whole->If_1 => whole->If_1->Some_0));
                        },
                        _ => {},
                    }
                }
            }
            lower_expr(inner)
        },
        None => Expression::Other,
    }
}

/// Lowers an expression.
pub fn lower_expr(e: &syn::Expr) -> (r: Expression)
    ensures
        r@ == parsed_expr(*e),
    decreases parsed_expr(*e), 1nat,
{
    let ghost whole = parsed_expr(*e);
    match expr_kind(e) {
        ExprKind::Async => Expression::Async(lower_body(e)),
        ExprKind::Block => Expression::Block(lower_body(e)),
        ExprKind::Closure => Expression::Closure(Box::new(lower_inner(e))),
        ExprKind::ForLoop => Expression::ForLoop(lower_body(e)),
        ExprKind::Group => Expression::Group(Box::new(lower_inner(e))),
        ExprKind::If => {
            let taken = lower_body(e);
            let other = match expr_inner(e) {
                Some(_) => Some(Box::new(lower_inner(e))),
                None => None,
            };
            Expression::If(taken, other)
        },
        ExprKind::Loop => Expression::Loop(lower_body(e)),
        ExprKind::Match => {
            let arms = expr_arms(e);
            let ghost kids = parsed_exprs(arms@);
            let mut out: Vec<Expression> = Vec::new();
            let mut i: usize = 0;
            while i < arms.len()
                invariant
                    i <= arms.len(),
                    out.len() == i,
                    whole == parsed_expr(*e),
                    whole == ExprModel::Match(kids),
                    kids == parsed_exprs(arms@),
                    forall|k: int| 0 <= k < i ==> out[k]@ == kids[k],
                decreases arms.len() - i,
            {
                proof {
                    assert(whole->Match_0 == kids);
                    assert(decreases_to!(whole => whole->Match_0));
                    assert(decreases_to!(kids => kids[i as int]));
                }
                let arm = lower_expr(arms[i]);
                out.push(arm);
                i += 1;
            }
            assert(exprs_model(out@) =~= kids);
            Expression::Match(out)
        },
        ExprKind::TryBlock => Expression::TryBlock(lower_body(e)),
        ExprKind::Unsafe => Expression::Unsafe(lower_body(e)),
        ExprKind::While => Expression::While(lower_body(e)),
        ExprKind::Other => Expression::Other,
    }
}

/// Parses a source text into its items.
///
/// Returns the items of the file where the text is a syntax tree, and the
/// diagnostic of the grammar where it is not. A text of more than
/// `SOURCE_LIMIT` bytes is not handed to the parser and has a diagnostic of
/// its own.
///
/// Positions that `proc_macro2` gave out on this thread before the call
/// are no longer valid after it. The function is for programs; it is not
/// to be called while a procedural macro is expanded.
pub fn parse_file(code: &str) -> (r: Result<Vec<SyntaxItem>, ParseError>)
    ensures
        match r {
            Ok(items) => source_outcome(code@) == Ok::<Seq<ItemModel>, DiagnosticModel>(
                items_model(items@),
            ),
            Err(e) => source_outcome(code@) == Err::<Seq<ItemModel>, DiagnosticModel>(e@),
        },
{
    if code.len() > SOURCE_LIMIT {
        return Err(
            ParseError { message: String::from_str("source text too long"), line: 0, column: 0 },
        );
    }
    match parse_source(code) {
        Ok(items) => Ok(lower_items(&items)),
        Err(e) => Err(e),
    }
}

} // verus!
