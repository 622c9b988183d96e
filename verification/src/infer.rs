//! The dependency resolver: walks syntax trees for import declarations and
//! collects the packages that they name.

use vstd::prelude::*;
use vstd::string::*;
use crate::syntax::{
    CodeBlock, ExprModel, Expression, FnItem, ImplBlock, ImplMember, ImportModel, ImportPath,
    ItemModel, MemberModel, ModItem, Statement, StmtModel, SyntaxItem, exprs_model, items_model,
};
use crate::extractor::{ParseError, parse_file, source_outcome};
use crate::project::File;
use crate::seqs::lemma_position_bounds;
use crate::text::{
    after_first_line, chars_of, find_char, first_line, is_char, offset_of, split_first_line,
    strip_prefix, text_eq, trim, trim_text, line_break,
};

verus! {

/// What a walk has found: the leading identifier of each import declaration
/// and the name of each module declaration, each list in the order of the
/// visit.
pub struct Found {
    pub imports: Seq<Seq<char>>,
    pub modules: Seq<Seq<char>>,
}

impl Found {
    /// Nothing found.
    pub open spec fn none() -> Found {
        Found { imports: Seq::empty(), modules: Seq::empty() }
    }

    /// What `self` found, followed by what `next` found.
    pub open spec fn chain(self, next: Found) -> Found {
        Found { imports: self.imports + next.imports, modules: self.modules + next.modules }
    }
}

/// The path roots that name no package: `std`, `core`, `crate`, `self`,
/// `alloc` and `super`.
pub open spec fn is_reserved(name: Seq<char>) -> bool {
    ||| name == "std"@
    ||| name == "core"@
    ||| name == "crate"@
    ||| name == "self"@
    ||| name == "alloc"@
    ||| name == "super"@
}

/// The leading identifiers that an import path names, from left to right. A
/// group names what each of its members names; it has no identifier of its
/// own.
pub open spec fn import_names(p: ImportModel) -> Seq<Seq<char>>
    decreases p, 0nat,
{
    match p {
        ImportModel::Path(n) => seq![n],
        ImportModel::Name(n) => seq![n],
        ImportModel::Rename(n) => seq![n],
        ImportModel::Group(items) => group_names(items),
        ImportModel::Other => Seq::empty(),
    }
}

/// The identifiers that the members of a group name, member after member.
pub open spec fn group_names(items: Seq<ImportModel>) -> Seq<Seq<char>>
    decreases items, 1nat,
{
    if items.len() == 0 {
        Seq::empty()
    } else {
        group_names(items.drop_last()) + import_names(items.last())
    }
}

/// What the walk of an item finds. A module's name is found before what its
/// body holds; a module without an inline body contributes its name alone.
pub open spec fn item_found(item: ItemModel) -> Found
    decreases item, 0nat,
{
    match item {
        ItemModel::Fn(body) => block_found(body),
        ItemModel::Impl(members) => members_found(members),
        ItemModel::Mod(name, content) => Found { imports: Seq::empty(), modules: seq![name] }.chain(
            match content {
                Some(items) => items_found(items),
                None => Found::none(),
            },
        ),
        ItemModel::Use(path) => Found { imports: import_names(path), modules: Seq::empty() },
        ItemModel::Other => Found::none(),
    }
}

/// What the walk of a list of items finds, item after item.
pub open spec fn items_found(items: Seq<ItemModel>) -> Found
    decreases items, 1nat,
{
    if items.len() == 0 {
        Found::none()
    } else {
        items_found(items.drop_last()).chain(item_found(items.last()))
    }
}

/// What the walk of a member of an implementation block finds: what the
/// body of a method holds, and nothing for any other member.
pub open spec fn member_found(member: MemberModel) -> Found
    decreases member, 0nat,
{
    match member {
        MemberModel::Method(body) => block_found(body),
        MemberModel::Other => Found::none(),
    }
}

/// What the walk of the members of an implementation block finds.
pub open spec fn members_found(members: Seq<MemberModel>) -> Found
    decreases members, 1nat,
{
    if members.len() == 0 {
        Found::none()
    } else {
        members_found(members.drop_last()).chain(member_found(members.last()))
    }
}

/// What the walk of a block finds, statement after statement.
pub open spec fn block_found(stmts: Seq<StmtModel>) -> Found
    decreases stmts, 1nat,
{
    if stmts.len() == 0 {
        Found::none()
    } else {
        block_found(stmts.drop_last()).chain(stmt_found(stmts.last()))
    }
}

/// What the walk of a statement finds.
pub open spec fn stmt_found(stmt: StmtModel) -> Found
    decreases stmt, 0nat,
{
    match stmt {
        StmtModel::Local(init) => match init {
            Some(e) => expr_found(e),
            None => Found::none(),
        },
        StmtModel::Item(item) => item_found(item),
        StmtModel::Expr(e) => expr_found(e),
        StmtModel::Semi(e) => expr_found(e),
        StmtModel::Other => Found::none(),
    }
}

/// What the walk of an expression finds. Every branch of a conditional and
/// every arm of a match is walked, in the order in which they are written.
pub open spec fn expr_found(e: ExprModel) -> Found
    decreases e, 0nat,
{
    match e {
        ExprModel::Async(body) => block_found(body),
        ExprModel::Block(body) => block_found(body),
        ExprModel::Closure(body) => expr_found(*body),
        ExprModel::ForLoop(body) => block_found(body),
        ExprModel::Group(inner) => expr_found(*inner),
        ExprModel::If(then_branch, else_branch) => block_found(then_branch).chain(
            match else_branch {
                Some(other) => expr_found(*other),
                None => Found::none(),
            },
        ),
        ExprModel::Loop(body) => block_found(body),
        ExprModel::Match(arms) => arms_found(arms),
        ExprModel::TryBlock(body) => block_found(body),
        ExprModel::Unsafe(body) => block_found(body),
        ExprModel::While(body) => block_found(body),
        ExprModel::Other => Found::none(),
    }
}

/// What the walk of the arms of a match finds, arm after arm.
pub open spec fn arms_found(arms: Seq<ExprModel>) -> Found
    decreases arms, 1nat,
{
    if arms.len() == 0 {
        Found::none()
    } else {
        arms_found(arms.drop_last()).chain(expr_found(arms.last()))
    }
}

/// The candidates after one more identifier was met: it is appended unless
/// it is reserved or already among them.
pub open spec fn admit_name(deps: Seq<Seq<char>>, name: Seq<char>) -> Seq<Seq<char>> {
    if is_reserved(name) || deps.contains(name) {
        deps
    } else {
        deps.push(name)
    }
}

/// The candidates after the identifiers `names` were met in order.
pub open spec fn absorb(deps: Seq<Seq<char>>, names: Seq<Seq<char>>) -> Seq<Seq<char>>
    decreases names.len(),
{
    if names.len() == 0 {
        deps
    } else {
        admit_name(absorb(deps, names.drop_last()), names.last())
    }
}

/// Meeting `a` and then `b` is meeting `a + b`.
pub proof fn lemma_absorb_concat(deps: Seq<Seq<char>>, a: Seq<Seq<char>>, b: Seq<Seq<char>>)
    ensures
        absorb(deps, a + b) == absorb(absorb(deps, a), b),
    decreases b.len(),
{
    if b.len() == 0 {
        assert(a + b =~= a);
    } else {
        assert((a + b).drop_last() =~= a + b.drop_last());
        assert((a + b).last() == b.last());
        lemma_absorb_concat(deps, a, b.drop_last());
    }
}

/// Whether `ident` is one of the reserved path roots.
pub fn is_use_keyword(ident: &str) -> (r: bool)
    ensures
        r == is_reserved(ident@),
{
    text_eq(ident, "std") || text_eq(ident, "core") || text_eq(ident, "crate") || text_eq(
        ident,
        "self",
    ) || text_eq(ident, "alloc") || text_eq(ident, "super")
}

/// Whether `name` is one of `list`.
pub fn contains_name(list: &Vec<String>, name: &str) -> (r: bool)
    ensures
        r == list.deep_view().contains(name@),
{
    let mut i: usize = 0;
    while i < list.len()
        invariant
            i <= list.len(),
            forall|j: int| 0 <= j < i ==> list.deep_view()[j] != name@,
        decreases list.len() - i,
    {
        if text_eq(list[i].as_str(), name) {
            assert(list.deep_view()[i as int] == name@);
            return true;
        }
        i += 1;
    }
    false
}

/// Appends `ident` to the candidates unless it is reserved or already there.
pub fn push_candidate(ident: String, deps: &mut Vec<String>)
    ensures
        final(deps).deep_view() == admit_name(old(deps).deep_view(), ident@),
{
    if !is_use_keyword(ident.as_str()) && !contains_name(deps, ident.as_str()) {
        deps.push(ident);
        assert(deps.deep_view() =~= old(deps).deep_view().push(ident@));
    }
}

/// Resolves one import declaration: every leading identifier that its path
/// names is met in order, and joins the candidates unless it is reserved or
/// already among them.
pub fn get_use(tree: ImportPath, deps: &mut Vec<String>)
    ensures
        final(deps).deep_view() == absorb(old(deps).deep_view(), import_names(tree@)),
    decreases tree,
{
    proof {
        reveal_with_fuel(absorb, 2);
    }
    match tree {
        ImportPath::Path(ident) => {
            assert(seq![ident@].drop_last() =~= Seq::<Seq<char>>::empty());
            push_candidate(ident, deps);
        },
        ImportPath::Name(ident) => {
            assert(seq![ident@].drop_last() =~= Seq::<Seq<char>>::empty());
            push_candidate(ident, deps);
        },
        ImportPath::Rename(ident) => {
            assert(seq![ident@].drop_last() =~= Seq::<Seq<char>>::empty());
            push_candidate(ident, deps);
        },
        ImportPath::Group(items) => {
            let ghost all = items@;
            let ghost models = tree@->Group_0;
            for child in it: items
                invariant
                    it.seq() == all,
                    tree is Group,
                    tree->Group_0@ == all,
                    models.len() == all.len(),
                    forall|k: int| 0 <= k < all.len() ==> models[k] == all[k]@,
                    deps.deep_view() == absorb(
                        old(deps).deep_view(),
                        group_names(models.take(it.index() as int)),
                    ),
            {
                let ghost k = it.index() as int;
                proof {
                    assert(models.take(k + 1).drop_last() =~= models.take(k));
                    assert(decreases_to!(tree => tree->Group_0));
                    assert(decreases_to!(tree->Group_0 => tree->Group_0[k]));
                    lemma_absorb_concat(
                        old(deps).deep_view(),
                        group_names(models.take(k)),
                        import_names(models[k]),
                    );
                }
                get_use(child, deps);
            }
            assert(models.take(all.len() as int) =~= models);
        },
        ImportPath::Other => {},
    }
}

/// A walk that has found `a` and goes on to find `b` has found `a.chain(b)`.
pub proof fn lemma_found_then(deps: Seq<Seq<char>>, mods: Seq<Seq<char>>, a: Found, b: Found)
    ensures
        absorb(absorb(deps, a.imports), b.imports) == absorb(deps, a.chain(b).imports),
        (mods + a.modules) + b.modules == mods + a.chain(b).modules,
{
    lemma_absorb_concat(deps, a.imports, b.imports);
    assert((mods + a.modules) + b.modules =~= mods + a.chain(b).modules);
}

/// Walks an item.
pub fn walk_item(item: SyntaxItem, deps: &mut Vec<String>, mod_stmts: &mut Vec<String>)
    ensures
        final(deps).deep_view() == absorb(old(deps).deep_view(), item_found(item@).imports),
        final(mod_stmts).deep_view() == old(mod_stmts).deep_view() + item_found(item@).modules,
    decreases item,
{
    let ghost d0 = old(deps).deep_view();
    let ghost m0 = old(mod_stmts).deep_view();
    match item {
        SyntaxItem::Fn(f) => {
            walk_block(f.block, deps, mod_stmts);
        },
        SyntaxItem::Impl(i) => {
            walk_impl(i, deps, mod_stmts);
        },
        SyntaxItem::Mod(m) => {
            let ghost name = Found { imports: Seq::empty(), modules: seq![m.ident@] };
            mod_stmts.push(m.ident);
            assert(mod_stmts.deep_view() =~= m0 + name.modules);
            match m.content {
                Some(items) => {
                    let ghost rest = items_found(item@->Mod_1->Some_0);
                    walk_items(items, deps, mod_stmts);
                    proof {
                        lemma_found_then(d0, m0, name, rest);
                    }
                },
                None => {
                    assert(name.chain(Found::none()).modules =~= name.modules);
                    assert(name.chain(Found::none()).imports =~= name.imports);
                },
            }
        },
        SyntaxItem::Use(path) => {
            get_use(path, deps);
            assert(mod_stmts.deep_view() =~= m0 + Seq::<Seq<char>>::empty());
        },
        SyntaxItem::Other => {
            assert(mod_stmts.deep_view() =~= m0 + Seq::<Seq<char>>::empty());
        },
    }
}

/// Walks the items of a module body or of a file, in order.
pub fn walk_items(items: Vec<SyntaxItem>, deps: &mut Vec<String>, mod_stmts: &mut Vec<String>)
    ensures
        final(deps).deep_view() == absorb(
            old(deps).deep_view(),
            items_found(items_model(items@)).imports,
        ),
        final(mod_stmts).deep_view() == old(mod_stmts).deep_view() + items_found(
            items_model(items@),
        ).modules,
    decreases items,
{
    let ghost d0 = old(deps).deep_view();
    let ghost m0 = old(mod_stmts).deep_view();
    let ghost all = items@;
    let ghost models = items_model(items@);
    assert(mod_stmts.deep_view() =~= m0 + Seq::<Seq<char>>::empty());
    for item in it: items
        invariant
            it.seq() == all,
            items@ == all,
            models.len() == all.len(),
            forall|j: int| 0 <= j < all.len() ==> models[j] == all[j]@,
            deps.deep_view() == absorb(d0, items_found(models.take(it.index() as int)).imports),
            mod_stmts.deep_view() == m0 + items_found(models.take(it.index() as int)).modules,
    {
        let ghost k = it.index() as int;
        proof {
            assert(models.take(k + 1).drop_last() =~= models.take(k));
            assert(decreases_to!(items => items[k]));
            lemma_found_then(d0, m0, items_found(models.take(k)), item_found(models[k]));
        }
        walk_item(item, deps, mod_stmts);
    }
    assert(models.take(all.len() as int) =~= models);
}

/// Walks an implementation block: the body of each of its methods, in order.
pub fn walk_impl(block: ImplBlock, deps: &mut Vec<String>, mod_stmts: &mut Vec<String>)
    ensures
        final(deps).deep_view() == absorb(old(deps).deep_view(), members_found(block@).imports),
        final(mod_stmts).deep_view() == old(mod_stmts).deep_view() + members_found(block@).modules,
    decreases block,
{
    let ghost d0 = old(deps).deep_view();
    let ghost m0 = old(mod_stmts).deep_view();
    let ghost all = block.items@;
    let ghost models = block@;
    assert(mod_stmts.deep_view() =~= m0 + Seq::<Seq<char>>::empty());
    for member in it: block.items
        invariant
            it.seq() == all,
            block.items@ == all,
            models.len() == all.len(),
            forall|j: int| 0 <= j < all.len() ==> models[j] == all[j]@,
            deps.deep_view() == absorb(d0, members_found(models.take(it.index() as int)).imports),
            mod_stmts.deep_view() == m0 + members_found(models.take(it.index() as int)).modules,
    {
        let ghost k = it.index() as int;
        proof {
            assert(models.take(k + 1).drop_last() =~= models.take(k));
            assert(decreases_to!(block => block.items));
            assert(decreases_to!(block.items => block.items[k]));
            lemma_found_then(d0, m0, members_found(models.take(k)), member_found(models[k]));
        }
        match member {
            ImplMember::Method(body) => {
                walk_block(body, deps, mod_stmts);
            },
            ImplMember::Other => {
                assert(mod_stmts.deep_view() + Seq::<Seq<char>>::empty() =~= mod_stmts.deep_view());
            },
        }
    }
    assert(models.take(all.len() as int) =~= models);
}

/// Walks a block, statement after statement.
pub fn walk_block(block: CodeBlock, deps: &mut Vec<String>, mod_stmts: &mut Vec<String>)
    ensures
        final(deps).deep_view() == absorb(old(deps).deep_view(), block_found(block@).imports),
        final(mod_stmts).deep_view() == old(mod_stmts).deep_view() + block_found(block@).modules,
    decreases block,
{
    let ghost d0 = old(deps).deep_view();
    let ghost m0 = old(mod_stmts).deep_view();
    let ghost all = block.stmts@;
    let ghost models = block@;
    assert(mod_stmts.deep_view() =~= m0 + Seq::<Seq<char>>::empty());
    for stmt in it: block.stmts
        invariant
            it.seq() == all,
            block.stmts@ == all,
            models.len() == all.len(),
            forall|j: int| 0 <= j < all.len() ==> models[j] == all[j]@,
            deps.deep_view() == absorb(d0, block_found(models.take(it.index() as int)).imports),
            mod_stmts.deep_view() == m0 + block_found(models.take(it.index() as int)).modules,
    {
        let ghost k = it.index() as int;
        proof {
            assert(models.take(k + 1).drop_last() =~= models.take(k));
            assert(decreases_to!(block => block.stmts));
            assert(decreases_to!(block.stmts => block.stmts[k]));
            lemma_found_then(d0, m0, block_found(models.take(k)), stmt_found(models[k]));
        }
        walk_stmt(stmt, deps, mod_stmts);
    }
    assert(models.take(all.len() as int) =~= models);
}

/// Walks a statement.
pub fn walk_stmt(stmt: Statement, deps: &mut Vec<String>, mod_stmts: &mut Vec<String>)
    ensures
        final(deps).deep_view() == absorb(old(deps).deep_view(), stmt_found(stmt@).imports),
        final(mod_stmts).deep_view() == old(mod_stmts).deep_view() + stmt_found(stmt@).modules,
    decreases stmt,
{
    match stmt {
        Statement::Item(item) => {
            walk_item(item, deps, mod_stmts);
        },
        Statement::Expr(e) => {
            walk_expr(e, deps, mod_stmts);
        },
        Statement::Semi(e) => {
            walk_expr(e, deps, mod_stmts);
        },
        Statement::Local(init) => {
            match init {
                Some(e) => {
                    walk_expr(e, deps, mod_stmts);
                },
                None => {
                    assert(mod_stmts.deep_view() + Seq::<Seq<char>>::empty() =~= mod_stmts.deep_view());
                },
            }
        },
        Statement::Other => {
            assert(mod_stmts.deep_view() + Seq::<Seq<char>>::empty() =~= mod_stmts.deep_view());
        },
    }
}

/// Walks an expression.
pub fn walk_expr(e: Expression, deps: &mut Vec<String>, mod_stmts: &mut Vec<String>)
    ensures
        final(deps).deep_view() == absorb(old(deps).deep_view(), expr_found(e@).imports),
        final(mod_stmts).deep_view() == old(mod_stmts).deep_view() + expr_found(e@).modules,
    decreases e,
{
    let ghost d0 = old(deps).deep_view();
    let ghost m0 = old(mod_stmts).deep_view();
    match e {
        Expression::Async(body) => {
            walk_block(body, deps, mod_stmts);
        },
        Expression::Block(body) => {
            walk_block(body, deps, mod_stmts);
        },
        Expression::Closure(body) => {
            walk_expr(*body, deps, mod_stmts);
        },
        Expression::ForLoop(body) => {
            walk_block(body, deps, mod_stmts);
        },
        Expression::Group(inner) => {
            walk_expr(*inner, deps, mod_stmts);
        },
        Expression::If(then_branch, else_branch) => {
            let ghost first = block_found(then_branch@);
            walk_block(then_branch, deps, mod_stmts);
            match else_branch {
                Some(other) => {
                    let ghost second = expr_found((*other)@);
                    walk_expr(*other, deps, mod_stmts);
                    proof {
                        lemma_found_then(d0, m0, first, second);
                    }
                },
                None => {
                    assert(first.chain(Found::none()).imports =~= first.imports);
                    assert(first.chain(Found::none()).modules =~= first.modules);
                },
            }
        },
        Expression::Loop(body) => {
            walk_block(body, deps, mod_stmts);
        },
        Expression::Match(arms) => {
            let ghost all = arms@;
            let ghost models = exprs_model(arms@);
            assert(mod_stmts.deep_view() =~= m0 + Seq::<Seq<char>>::empty());
            for arm in it: arms
                invariant
                    it.seq() == all,
                    e is Match,
                    e->Match_0@ == all,
                    models.len() == all.len(),
                    forall|j: int| 0 <= j < all.len() ==> models[j] == all[j]@,
                    deps.deep_view() == absorb(d0, arms_found(models.take(it.index() as int)).imports),
                    mod_stmts.deep_view() == m0 + arms_found(models.take(it.index() as int)).modules,
            {
                let ghost k = it.index() as int;
                proof {
                    assert(models.take(k + 1).drop_last() =~= models.take(k));
                    assert(decreases_to!(e => e->Match_0));
                    assert(decreases_to!(e->Match_0 => e->Match_0[k]));
                    lemma_found_then(d0, m0, arms_found(models.take(k)), expr_found(models[k]));
                }
                walk_expr(arm, deps, mod_stmts);
            }
            assert(models.take(all.len() as int) =~= models);
        },
        Expression::TryBlock(body) => {
            walk_block(body, deps, mod_stmts);
        },
        Expression::Unsafe(body) => {
            walk_block(body, deps, mod_stmts);
        },
        Expression::While(body) => {
            walk_block(body, deps, mod_stmts);
        },
        Expression::Other => {
            assert(mod_stmts.deep_view() =~= m0 + Seq::<Seq<char>>::empty());
        },
    }
}

/// A place in a syntax tree at which a walk can start.
#[derive(Debug)]
pub enum TokenType {
    /// An item.
    Item(SyntaxItem),
    /// A function: its body is walked.
    Fn(FnItem),
    /// An implementation block: the bodies of its methods are walked.
    Impl(ImplBlock),
    /// A module: its inline body is walked. Its name is found where the
    /// module is met as an item, not here.
    Mod(ModItem),
    /// A block.
    Block(CodeBlock),
    /// A statement.
    Stmt(Statement),
}

impl TokenType {
    /// What the walk that starts at this place finds.
    pub open spec fn found(self) -> Found {
        match self {
            TokenType::Item(item) => item_found(item@),
            TokenType::Fn(f) => block_found(f@),
            TokenType::Impl(block) => members_found(block@),
            TokenType::Mod(m) => match m.content {
                Some(items) => items_found(items_model(items@)),
                None => Found::none(),
            },
            TokenType::Block(block) => block_found(block@),
            TokenType::Stmt(stmt) => stmt_found(stmt@),
        }
    }
}

/// Walks the tree below `item`, in the order in which it is written and
/// into every nested context, whatever would run: the leading identifier of
/// each import declaration joins `deps` unless it is reserved or already
/// there, and the name of each module declaration is appended to
/// `mod_stmts`.
pub fn extract_use(item: TokenType, deps: &mut Vec<String>, mod_stmts: &mut Vec<String>)
    ensures
        final(deps).deep_view() == absorb(old(deps).deep_view(), item.found().imports),
        final(mod_stmts).deep_view() == old(mod_stmts).deep_view() + item.found().modules,
{
    match item {
        TokenType::Item(i) => walk_item(i, deps, mod_stmts),
        TokenType::Fn(f) => walk_block(f.block, deps, mod_stmts),
        TokenType::Impl(i) => walk_impl(i, deps, mod_stmts),
        TokenType::Mod(m) => match m.content {
            Some(items) => walk_items(items, deps, mod_stmts),
            None => {
                assert(mod_stmts.deep_view() + Seq::<Seq<char>>::empty() =~= mod_stmts.deep_view());
            },
        },
        TokenType::Block(b) => walk_block(b, deps, mod_stmts),
        TokenType::Stmt(s) => walk_stmt(s, deps, mod_stmts),
    }
}

/// The test that a filter by module names applies: whether `name` is none
/// of `mods`.
pub open spec fn outside(mods: Seq<Seq<char>>) -> spec_fn(Seq<char>) -> bool {
    |name: Seq<char>| !mods.contains(name)
}

/// The candidates that one file contributes: what its walk collects from
/// nothing, without the names that the file declares as modules.
pub open spec fn file_candidates(items: Seq<ItemModel>) -> Seq<Seq<char>> {
    let found = items_found(items);
    absorb(Seq::empty(), found.imports).filter(outside(found.modules))
}

/// The candidates of a batch of files, whose trees are given in order
/// (`None` for a file that did not parse): each file contributes on its own,
/// and a name that an earlier file contributed is not repeated.
pub open spec fn inferred(trees: Seq<Option<Seq<ItemModel>>>) -> Seq<Seq<char>>
    decreases trees.len(),
{
    if trees.len() == 0 {
        Seq::empty()
    } else {
        absorb(
            inferred(trees.drop_last()),
            match trees.last() {
                Some(items) => file_candidates(items),
                None => Seq::empty(),
            },
        )
    }
}

/// Keeps the names of `deps` that are none of `mods`, in their order.
pub fn retain_outside(deps: Vec<String>, mods: &Vec<String>) -> (r: Vec<String>)
    ensures
        r.deep_view() == deps.deep_view().filter(outside(mods.deep_view())),
{
    let ghost all = deps.deep_view();
    let ghost keep = outside(mods.deep_view());
    let mut out: Vec<String> = Vec::new();
    assert(all.take(0) =~= Seq::<Seq<char>>::empty());
    assert(out.deep_view() =~= Seq::<Seq<char>>::empty());
    proof {
        reveal(Seq::filter);
    }
    for name in it: deps
        invariant
            it.seq() == deps@,
            all == deps.deep_view(),
            keep == outside(mods.deep_view()),
            out.deep_view() == all.take(it.index() as int).filter(keep),
    {
        let ghost k = it.index() as int;
        let ghost before = out.deep_view();
        proof {
            assert(all.take(k + 1) =~= all.take(k).push(name@));
            all.take(k).lemma_filter_push(name@, keep);
        }
        if !contains_name(mods, name.as_str()) {
            out.push(name);
            assert(out.deep_view() =~= before.push(name@));
        }
    }
    assert(all.take(all.len() as int) =~= all);
    out
}

/// The candidates that a file with the items `items` contributes.
pub fn candidates_of(items: Vec<SyntaxItem>) -> (r: Vec<String>)
    ensures
        r.deep_view() == file_candidates(items_model(items@)),
{
    let mut deps: Vec<String> = Vec::new();
    let mut mod_stmts: Vec<String> = Vec::new();
    assert(deps.deep_view() =~= Seq::<Seq<char>>::empty());
    assert(mod_stmts.deep_view() =~= Seq::<Seq<char>>::empty());
    walk_items(items, &mut deps, &mut mod_stmts);
    assert(mod_stmts.deep_view() =~= items_found(items_model(items@)).modules);
    retain_outside(deps, &mod_stmts)
}

/// Lets the names `found` join the candidates `deps`, in order; a name that
/// is already there is not repeated.
pub fn merge_candidates(deps: &mut Vec<String>, found: Vec<String>)
    ensures
        final(deps).deep_view() == absorb(old(deps).deep_view(), found.deep_view()),
{
    let ghost all = found.deep_view();
    assert(all.take(0) =~= Seq::<Seq<char>>::empty());
    for name in it: found
        invariant
            it.seq() == found@,
            all == found.deep_view(),
            deps.deep_view() == absorb(old(deps).deep_view(), all.take(it.index() as int)),
    {
        let ghost k = it.index() as int;
        proof {
            assert(all.take(k + 1).drop_last() =~= all.take(k));
            assert(all.take(k + 1).last() == name@);
        }
        push_candidate(name, deps);
    }
    assert(all.take(all.len() as int) =~= all);
}

/// The prefix of an override line.
pub open spec fn dependency_prefix() -> Seq<char> {
    "//# "@
}

/// What an inferred line holds behind the identifier.
pub open spec fn wildcard() -> Seq<char> {
    " = \"*\""@
}

/// The override directives of a source text: the lines of the unbroken run
/// of lines at its start that begin with the prefix, each without the
/// prefix.
pub open spec fn directives(code: Seq<char>) -> Seq<Seq<char>>
    decreases code.len(),
{
    if code.len() > 0 && dependency_prefix().is_prefix_of(first_line(code)) {
        seq![first_line(code).skip(dependency_prefix().len() as int)] + directives(
            after_first_line(code),
        )
    } else {
        Seq::empty()
    }
}

/// The name that a directive gives: what stands before its first `=`,
/// without white space around it. A directive without `=` gives none.
pub open spec fn directive_name(directive: Seq<char>) -> Option<Seq<char>> {
    let k = offset_of(directive, '=') as int;
    if k < directive.len() {
        Some(trim(directive.take(k)))
    } else {
        None
    }
}

/// A character as package names compare it: `-` stands for `_`.
pub open spec fn normal_char(c: char) -> char {
    if c == '-' {
        '_'
    } else {
        c
    }
}

/// A name as package names compare it.
pub open spec fn normalized(name: Seq<char>) -> Seq<char> {
    Seq::new(name.len(), |i: int| normal_char(name[i]))
}

/// Whether two names are names of the same package: they are equal once
/// `-` and `_` are taken for the same character.
pub open spec fn same_package(a: Seq<char>, b: Seq<char>) -> bool {
    normalized(a) == normalized(b)
}

/// The test that the removal of the package `name` applies: whether a
/// candidate names another package.
pub open spec fn other_package(name: Seq<char>) -> spec_fn(Seq<char>) -> bool {
    |candidate: Seq<char>| !same_package(candidate, name)
}

/// The candidates without those that name the package `name`.
pub open spec fn without_package(candidates: Seq<Seq<char>>, name: Seq<char>) -> Seq<Seq<char>> {
    candidates.filter(other_package(name))
}

/// Model of a manifest under construction: the override lines, the latest
/// first, and the inferred candidates in the order of their discovery.
pub struct ManifestLines {
    pub overrides: Seq<Seq<char>>,
    pub inferred: Seq<Seq<char>>,
}

/// The manifest after one more directive: its text is put before all other
/// lines, and the candidates that name the same package, if the directive
/// gives a name, leave.
pub open spec fn with_directive(m: ManifestLines, directive: Seq<char>) -> ManifestLines {
    ManifestLines {
        overrides: seq![directive] + m.overrides,
        inferred: match directive_name(directive) {
            Some(name) => without_package(m.inferred, name),
            None => m.inferred,
        },
    }
}

/// The manifest after the directives `ds`, taken in order.
pub open spec fn with_directives(m: ManifestLines, ds: Seq<Seq<char>>) -> ManifestLines
    decreases ds.len(),
{
    if ds.len() == 0 {
        m
    } else {
        with_directive(with_directives(m, ds.drop_last()), ds.last())
    }
}

/// The manifest after the directives of each of the source texts `codes`,
/// file after file.
pub open spec fn reconciled(m: ManifestLines, codes: Seq<Seq<char>>) -> ManifestLines
    decreases codes.len(),
{
    if codes.len() == 0 {
        m
    } else {
        with_directives(reconciled(m, codes.drop_last()), directives(codes.last()))
    }
}

/// Each name followed by the version wildcard.
pub open spec fn starred(names: Seq<Seq<char>>) -> Seq<Seq<char>> {
    Seq::new(names.len(), |i: int| names[i] + wildcard())
}

/// The lines of a manifest: the override lines as they are, then one line
/// `<identifier> = "*"` for each inferred candidate.
pub open spec fn manifest_lines(m: ManifestLines) -> Seq<Seq<char>> {
    m.overrides + starred(m.inferred)
}

/// The lines joined by line breaks, with none after the last.
pub open spec fn joined(lines: Seq<Seq<char>>) -> Seq<char>
    decreases lines.len(),
{
    if lines.len() == 0 {
        Seq::empty()
    } else if lines.len() == 1 {
        lines[0]
    } else {
        joined(lines.drop_last()) + line_break() + lines.last()
    }
}

/// The manifest of a batch of files with the source texts `codes` and the
/// trees `trees` (`None` for a file that did not parse).
pub open spec fn manifest(codes: Seq<Seq<char>>, trees: Seq<Option<Seq<ItemModel>>>) -> Seq<char> {
    joined(
        manifest_lines(
            reconciled(ManifestLines { overrides: Seq::empty(), inferred: inferred(trees) }, codes),
        ),
    )
}

/// The override directives of a source text.
pub fn override_lines<'a>(code: &'a str) -> (r: Vec<&'a str>)
    ensures
        r.deep_view() == directives(code@),
{
    let mut out: Vec<&'a str> = Vec::new();
    let mut rest: &'a str = code;
    assert(out.deep_view() + directives(rest@) =~= directives(code@));
    loop
        invariant
            directives(code@) == out.deep_view() + directives(rest@),
        ensures
            directives(code@) == out.deep_view(),
        decreases rest@.len(),
    {
        if rest.is_empty() {
            assert(out.deep_view() + Seq::<Seq<char>>::empty() =~= out.deep_view());
            break ;
        }
        let (line, next) = split_first_line(rest);
        match strip_prefix(line, "//# ") {
            Some(directive) => {
                let ghost before = out.deep_view();
                out.push(directive);
                proof {
                    lemma_position_bounds(rest@, is_char('\n'));
                    assert(out.deep_view() =~= before.push(directive@));
                    assert(before + (seq![directive@] + directives(next@)) =~= before.push(
                        directive@,
                    ) + directives(next@));
                }
                rest = next;
            },
            None => {
                assert(out.deep_view() + Seq::<Seq<char>>::empty() =~= out.deep_view());
                break ;
            },
        }
    }
    out
}

/// The name that a directive gives.
pub fn override_name<'a>(directive: &'a str) -> (r: Option<&'a str>)
    ensures
        match r {
            Some(name) => directive_name(directive@) == Some(name@),
            None => directive_name(directive@) is None,
        },
{
    proof {
        lemma_position_bounds(directive@, is_char('='));
    }
    match find_char(directive, '=') {
        Some(k) => {
            let head: &str = directive.substring_char(0, k);
            assert(head@ =~= directive@.take(k as int));
            Some(trim_text(head))
        },
        None => None,
    }
}

/// Whether two names are names of the same package.
pub fn same_package_name(a: &str, b: &str) -> (r: bool)
    ensures
        r == same_package(a@, b@),
{
    let x: Vec<char> = chars_of(a);
    let y: Vec<char> = chars_of(b);
    if x.len() != y.len() {
        assert(normalized(a@).len() != normalized(b@).len());
        return false;
    }
    let mut i: usize = 0;
    while i < x.len()
        invariant
            i <= x.len(),
            x.len() == y.len(),
            x@ == a@,
            y@ == b@,
            forall|j: int| 0 <= j < i ==> normal_char(x[j]) == normal_char(y[j]),
        decreases x.len() - i,
    {
        let p: char = if x[i] == '-' {
            '_'
        } else {
            x[i]
        };
        let q: char = if y[i] == '-' {
            '_'
        } else {
            y[i]
        };
        if p != q {
            assert(normalized(a@)[i as int] != normalized(b@)[i as int]);
            return false;
        }
        i += 1;
    }
    assert(normalized(a@) =~= normalized(b@));
    true
}

/// Takes out the candidates that name the package `name`.
pub fn remove_package(candidates: &mut Vec<String>, name: &str)
    ensures
        final(candidates).deep_view() == without_package(old(candidates).deep_view(), name@),
{
    let ghost all = candidates.deep_view();
    let ghost keep = other_package(name@);
    let mut kept: Vec<String> = Vec::new();
    let mut i: usize = 0;
    assert(all.take(0) =~= Seq::<Seq<char>>::empty());
    assert(kept.deep_view() =~= Seq::<Seq<char>>::empty());
    proof {
        reveal(Seq::filter);
    }
    while i < candidates.len()
        invariant
            i <= candidates.len(),
            candidates.deep_view() == all,
            keep == other_package(name@),
            kept.deep_view() == all.take(i as int).filter(keep),
        decreases candidates.len() - i,
    {
        let ghost before = kept.deep_view();
        proof {
            assert(all[i as int] == candidates[i as int]@);
            assert(all.take(i + 1) =~= all.take(i as int).push(all[i as int]));
            all.take(i as int).lemma_filter_push(all[i as int], keep);
        }
        if !same_package_name(candidates[i].as_str(), name) {
            kept.push(candidates[i].clone());
            assert(kept.deep_view() =~= before.push(all[i as int]));
        }
        i += 1;
    }
    assert(all.take(all.len() as int) =~= all);
    *candidates = kept;
}

/// A manifest under construction.
#[derive(Debug)]
pub struct Manifest {
    /// The override lines, the latest first.
    pub overrides: Vec<String>,
    /// The inferred candidates, in the order of their discovery.
    pub inferred: Vec<String>,
}

impl View for Manifest {
    type V = ManifestLines;

    open spec fn view(&self) -> ManifestLines {
        ManifestLines { overrides: self.overrides.deep_view(), inferred: self.inferred.deep_view() }
    }
}

impl Manifest {
    /// A manifest of the given candidates and no override.
    pub fn new(inferred: Vec<String>) -> (r: Self)
        ensures
            r@ == (ManifestLines { overrides: Seq::empty(), inferred: inferred.deep_view() }),
    {
        let r = Manifest { overrides: Vec::new(), inferred };
        assert(r.overrides.deep_view() =~= Seq::<Seq<char>>::empty());
        r
    }

    /// Applies one override directive.
    pub fn apply(&mut self, directive: &str)
        ensures
            final(self)@ == with_directive(old(self)@, directive@),
    {
        match override_name(directive) {
            Some(name) => {
                remove_package(&mut self.inferred, name);
            },
            None => {},
        }
        let ghost before = self.overrides.deep_view();
        self.overrides.insert(0, directive.to_owned());
        assert(self.overrides.deep_view() =~= seq![directive@] + before);
    }

    /// Applies the override directives of a source text, in order.
    pub fn apply_file(&mut self, code: &str)
        ensures
            final(self)@ == with_directives(old(self)@, directives(code@)),
    {
        let ds: Vec<&str> = override_lines(code);
        let ghost all = ds.deep_view();
        let mut i: usize = 0;
        assert(all.take(0) =~= Seq::<Seq<char>>::empty());
        while i < ds.len()
            invariant
                i <= ds.len(),
                all == ds.deep_view(),
                self@ == with_directives(old(self)@, all.take(i as int)),
            decreases ds.len() - i,
        {
            proof {
                assert(all.take(i + 1).drop_last() =~= all.take(i as int));
                assert(all.take(i + 1).last() == ds[i as int]@);
            }
            self.apply(ds[i]);
            i += 1;
        }
        assert(all.take(ds.len() as int) =~= all);
    }

    /// The lines of the manifest.
    pub fn lines(&self) -> (r: Vec<String>)
        ensures
            r.deep_view() == manifest_lines(self@),
    {
        let mut out: Vec<String> = Vec::new();
        let mut i: usize = 0;
        while i < self.overrides.len()
            invariant
                i <= self.overrides.len(),
                out.deep_view() == self.overrides.deep_view().take(i as int),
            decreases self.overrides.len() - i,
        {
            let ghost before = out.deep_view();
            out.push(self.overrides[i].clone());
            assert(out.deep_view() =~= before.push(self.overrides[i as int]@));
            assert(self.overrides.deep_view().take(i + 1) =~= before.push(self.overrides[i as int]@));
            i += 1;
        }
        let ghost first = self.overrides.deep_view();
        let ghost names = self.inferred.deep_view();
        assert(first.take(first.len() as int) =~= first);
        assert(out.deep_view() =~= first + starred(names).take(0));
        let mut k: usize = 0;
        while k < self.inferred.len()
            invariant
                k <= self.inferred.len(),
                first == self.overrides.deep_view(),
                names == self.inferred.deep_view(),
                out.deep_view() == first + starred(names).take(k as int),
            decreases self.inferred.len() - k,
        {
            let mut line: String = self.inferred[k].clone();
            line.append(" = \"*\"");
            let ghost before = out.deep_view();
            out.push(line);
            assert(out.deep_view() =~= before.push(names[k as int] + wildcard()));
            assert(first + starred(names).take(k + 1) =~= (first + starred(names).take(k as int)).push(
                names[k as int] + wildcard(),
            ));
            k += 1;
        }
        assert(starred(names).take(names.len() as int) =~= starred(names));
        out
    }

    /// The text of the manifest: its lines, joined by line breaks.
    pub fn render(&self) -> (r: String)
        ensures
            r@ == joined(manifest_lines(self@)),
    {
        let lines: Vec<String> = self.lines();
        join_lines(&lines)
    }
}

/// Joins lines by line breaks.
pub fn join_lines(lines: &Vec<String>) -> (r: String)
    ensures
        r@ == joined(lines.deep_view()),
{
    let ghost all = lines.deep_view();
    let mut out: String = String::new();
    let mut i: usize = 0;
    assert(all.take(0) =~= Seq::<Seq<char>>::empty());
    while i < lines.len()
        invariant
            i <= lines.len(),
            all == lines.deep_view(),
            out@ == joined(all.take(i as int)),
        decreases lines.len() - i,
    {
        proof {
            assert(all.take(i + 1).drop_last() =~= all.take(i as int));
            assert(all.take(i + 1).last() == lines[i as int]@);
        }
        if i > 0 {
            out.append("\n");
        } else {
            assert(Seq::<char>::empty() + lines[i as int]@ =~= lines[i as int]@);
        }
        out.append(lines[i].as_str());
        i += 1;
    }
    assert(all.take(lines.len() as int) =~= all);
    out
}

/// The source texts of a batch of files, in order.
pub open spec fn codes_of(files: Seq<File>) -> Seq<Seq<char>> {
    Seq::new(files.len(), |i: int| files[i].code@)
}

/// The models of the trees of a batch of files, in order.
pub open spec fn trees_model(trees: Seq<Option<Vec<SyntaxItem>>>) -> Seq<Option<Seq<ItemModel>>> {
    Seq::new(
        trees.len(),
        |i: int|
            match trees[i] {
                Some(items) => Some(items_model(items@)),
                None => None,
            },
    )
}

/// The trees that parsing makes of a batch of files: for each file the
/// items of its text, and `None` where the text does not parse.
pub open spec fn parsed_trees(files: Seq<File>) -> Seq<Option<Seq<ItemModel>>> {
    Seq::new(
        files.len(),
        |i: int|
            match source_outcome(files[i].code@) {
                Ok(items) => Some(items),
                Err(_) => None,
            },
    )
}

/// The candidates of a batch of files whose trees are given.
pub fn infer_candidates(trees: Vec<Option<Vec<SyntaxItem>>>) -> (r: Vec<String>)
    ensures
        r.deep_view() == inferred(trees_model(trees@)),
{
    let ghost models = trees_model(trees@);
    let mut deps: Vec<String> = Vec::new();
    assert(models.take(0) =~= Seq::<Option<Seq<ItemModel>>>::empty());
    assert(deps.deep_view() =~= Seq::<Seq<char>>::empty());
    for tree in it: trees
        invariant
            it.seq() == trees@,
            models == trees_model(trees@),
            deps.deep_view() == inferred(models.take(it.index() as int)),
    {
        let ghost k = it.index() as int;
        proof {
            assert(models.take(k + 1).drop_last() =~= models.take(k));
            assert(models.take(k + 1).last() == models[k]);
        }
        match tree {
            Some(items) => {
                let found: Vec<String> = candidates_of(items);
                merge_candidates(&mut deps, found);
            },
            None => {},
        }
    }
    assert(models.take(trees@.len() as int) =~= models);
    deps
}

/// The manifest of a batch of files whose trees are given: `trees` holds,
/// file after file, the items of the file, or `None` where it did not parse.
pub fn infer_from_trees(files: &[File], trees: Vec<Option<Vec<SyntaxItem>>>) -> (r: String)
    ensures
        r@ == manifest(codes_of(files@), trees_model(trees@)),
{
    let deps: Vec<String> = infer_candidates(trees);
    let mut m: Manifest = Manifest::new(deps);
    let ghost start = m@;
    let ghost codes = codes_of(files@);
    let mut i: usize = 0;
    assert(codes.take(0) =~= Seq::<Seq<char>>::empty());
    while i < files.len()
        invariant
            i <= files.len(),
            codes == codes_of(files@),
            m@ == reconciled(start, codes.take(i as int)),
        decreases files.len() - i,
    {
        proof {
            assert(codes.take(i + 1).drop_last() =~= codes.take(i as int));
            assert(codes.take(i + 1).last() == files[i as int].code@);
        }
        m.apply_file(files[i].code);
        i += 1;
    }
    assert(codes.take(files.len() as int) =~= codes);
    m.render()
}

/// Infers the dependencies of a batch of files and returns them as the
/// text of a manifest: the override lines first, then one line
/// `<identifier> = "*"` for each package that an import names.
///
/// A file that does not parse contributes no candidate; its override lines
/// count all the same. The result is always `Ok`.
pub fn infer_deps(files: &[File]) -> (r: Result<String, ParseError>)
    ensures
        r is Ok,
        r->Ok_0@ == manifest(codes_of(files@), parsed_trees(files@)),
{
    let mut trees: Vec<Option<Vec<SyntaxItem>>> = Vec::new();
    let mut i: usize = 0;
    while i < files.len()
        invariant
            i <= files.len(),
            trees.len() == i,
            forall|k: int| 0 <= k < i ==> trees_model(trees@)[k] == parsed_trees(files@)[k],
        decreases files.len() - i,
    {
        match parse_file(files[i].code) {
            Ok(items) => trees.push(Some(items)),
            Err(_) => trees.push(None),
        }
        i += 1;
    }
    assert(trees_model(trees@) =~= parsed_trees(files@));
    Ok(infer_from_trees(files, trees))
}

} // verus!
