//! What holds of the resolver on every input.

use vstd::prelude::*;
use crate::infer::{
    ManifestLines, absorb, admit_name, arms_found, block_found, directive_name, directives,
    expr_found, file_candidates, group_names, import_names, inferred, is_reserved, items_found,
    manifest_lines, other_package, outside, reconciled, same_package, stmt_found, wildcard,
    with_directive, with_directives, without_package,
};
use crate::syntax::{ExprModel, ImportModel, ItemModel, StmtModel};

verus! {

/// None of the names is a reserved path root.
pub open spec fn none_reserved(names: Seq<Seq<char>>) -> bool {
    forall|i: int| 0 <= i < names.len() ==> !is_reserved(#[trigger] names[i])
}

/// Every one of `part` is one of `whole`.
pub open spec fn all_among(part: Seq<Seq<char>>, whole: Seq<Seq<char>>) -> bool {
    forall|i: int| 0 <= i < part.len() ==> whole.contains(#[trigger] part[i])
}

/// What stands in either of two lists stands in their concatenation.
pub proof fn lemma_all_among_concat(a: Seq<Seq<char>>, b: Seq<Seq<char>>)
    ensures
        all_among(a, a + b),
        all_among(b, a + b),
{
    assert forall|i: int| 0 <= i < a.len() implies (a + b).contains(#[trigger] a[i]) by {
        assert((a + b)[i] == a[i]);
    }
    assert forall|i: int| 0 <= i < b.len() implies (a + b).contains(#[trigger] b[i]) by {
        assert((a + b)[a.len() + i] == b[i]);
    }
}

/// Every arm of a match is walked, whichever would run: what the walk of
/// any one arm finds, the walk of the match finds.
pub proof fn lemma_every_arm_walked(arms: Seq<ExprModel>, k: int)
    requires
        0 <= k < arms.len(),
    ensures
        all_among(expr_found(arms[k]).imports, expr_found(ExprModel::Match(arms)).imports),
        all_among(expr_found(arms[k]).modules, expr_found(ExprModel::Match(arms)).modules),
{
    lemma_arm_among_arms(arms, k);
    assert(expr_found(ExprModel::Match(arms)) == arms_found(arms));
}

/// What the walk of one of the arms finds, the walk of all arms finds.
proof fn lemma_arm_among_arms(arms: Seq<ExprModel>, k: int)
    requires
        0 <= k < arms.len(),
    ensures
        all_among(expr_found(arms[k]).imports, arms_found(arms).imports),
        all_among(expr_found(arms[k]).modules, arms_found(arms).modules),
    decreases arms.len(),
{
    let before = arms_found(arms.drop_last());
    let last = expr_found(arms.last());
    lemma_all_among_concat(before.imports, last.imports);
    lemma_all_among_concat(before.modules, last.modules);
    if k < arms.len() - 1 {
        assert(arms.drop_last()[k] == arms[k]);
        lemma_arm_among_arms(arms.drop_last(), k);
        lemma_all_among_trans(expr_found(arms[k]).imports, before.imports, arms_found(arms).imports);
        lemma_all_among_trans(expr_found(arms[k]).modules, before.modules, arms_found(arms).modules);
    }
}

/// Both branches of a conditional are walked: what the walk of either
/// branch finds, the walk of the conditional finds.
pub proof fn lemma_both_branches_walked(taken: Seq<StmtModel>, other: ExprModel)
    ensures
        all_among(
            block_found(taken).imports,
            expr_found(ExprModel::If(taken, Some(Box::new(other)))).imports,
        ),
        all_among(
            expr_found(other).imports,
            expr_found(ExprModel::If(taken, Some(Box::new(other)))).imports,
        ),
{
    lemma_all_among_concat(block_found(taken).imports, expr_found(other).imports);
}

/// Every statement of a block is walked: what the walk of any one
/// statement finds, the walk of the block finds.
pub proof fn lemma_every_statement_walked(stmts: Seq<StmtModel>, k: int)
    requires
        0 <= k < stmts.len(),
    ensures
        all_among(stmt_found(stmts[k]).imports, block_found(stmts).imports),
        all_among(stmt_found(stmts[k]).modules, block_found(stmts).modules),
    decreases stmts.len(),
{
    let before = block_found(stmts.drop_last());
    let last = stmt_found(stmts.last());
    lemma_all_among_concat(before.imports, last.imports);
    lemma_all_among_concat(before.modules, last.modules);
    if k < stmts.len() - 1 {
        assert(stmts.drop_last()[k] == stmts[k]);
        lemma_every_statement_walked(stmts.drop_last(), k);
        lemma_all_among_trans(stmt_found(stmts[k]).imports, before.imports, block_found(stmts).imports);
        lemma_all_among_trans(stmt_found(stmts[k]).modules, before.modules, block_found(stmts).modules);
    }
}

/// A grouped import names what each of its members names: the identifiers
/// of any one member are identifiers of the group.
pub proof fn lemma_every_member_named(members: Seq<ImportModel>, k: int)
    requires
        0 <= k < members.len(),
    ensures
        all_among(import_names(members[k]), import_names(ImportModel::Group(members))),
{
    lemma_member_among_group(members, k);
    assert(import_names(ImportModel::Group(members)) == group_names(members));
}

/// The identifiers of one of the members are identifiers of all members.
proof fn lemma_member_among_group(members: Seq<ImportModel>, k: int)
    requires
        0 <= k < members.len(),
    ensures
        all_among(import_names(members[k]), group_names(members)),
    decreases members.len(),
{
    let before = group_names(members.drop_last());
    lemma_all_among_concat(before, import_names(members.last()));
    if k < members.len() - 1 {
        assert(members.drop_last()[k] == members[k]);
        lemma_member_among_group(members.drop_last(), k);
        lemma_all_among_trans(import_names(members[k]), before, group_names(members));
    }
}

/// Meeting one identifier keeps the candidates free of duplicates and of
/// reserved roots, keeps every candidate, and leaves the identifier among
/// them unless it is reserved.
pub proof fn lemma_admit_name(deps: Seq<Seq<char>>, name: Seq<char>)
    ensures
        deps.no_duplicates() ==> admit_name(deps, name).no_duplicates(),
        none_reserved(deps) ==> none_reserved(admit_name(deps, name)),
        forall|x: Seq<char>| deps.contains(x) ==> #[trigger] admit_name(deps, name).contains(x),
        is_reserved(name) || admit_name(deps, name).contains(name),
        forall|x: Seq<char>| #[trigger]
            admit_name(deps, name).contains(x) ==> deps.contains(x) || x == name,
{
    broadcast use vstd::seq_lib::group_seq_properties;

    if !(is_reserved(name) || deps.contains(name)) {
        let next = deps.push(name);
        assert(next[deps.len() as int] == name);
        if deps.no_duplicates() {
            assert forall|i: int, j: int|
                0 <= i < next.len() && 0 <= j < next.len() && i != j implies next[i] != next[j] by {
                if i < deps.len() && j < deps.len() {
                } else if i < deps.len() {
                    assert(deps.contains(deps[i]));
                } else {
                    assert(deps.contains(deps[j]));
                }
            }
        }
    }
}

/// Candidates stay free of duplicates: whatever identifiers a walk meets,
/// no two candidates are equal afterwards if none were before.
pub proof fn lemma_absorb_no_duplicates(deps: Seq<Seq<char>>, names: Seq<Seq<char>>)
    requires
        deps.no_duplicates(),
    ensures
        absorb(deps, names).no_duplicates(),
    decreases names.len(),
{
    if names.len() > 0 {
        lemma_absorb_no_duplicates(deps, names.drop_last());
        lemma_admit_name(absorb(deps, names.drop_last()), names.last());
    }
}

/// Candidates stay free of reserved roots: whatever identifiers a walk
/// meets, no candidate is `std`, `core`, `crate`, `self`, `alloc` or `super`
/// afterwards if none was before.
pub proof fn lemma_absorb_none_reserved(deps: Seq<Seq<char>>, names: Seq<Seq<char>>)
    requires
        none_reserved(deps),
    ensures
        none_reserved(absorb(deps, names)),
    decreases names.len(),
{
    if names.len() > 0 {
        lemma_absorb_none_reserved(deps, names.drop_last());
        lemma_admit_name(absorb(deps, names.drop_last()), names.last());
    }
}

/// A walk drops no candidate, every identifier that it meets is a candidate
/// afterwards unless it is reserved, and every candidate was one before or
/// was met.
pub proof fn lemma_absorb_members(deps: Seq<Seq<char>>, names: Seq<Seq<char>>)
    ensures
        all_among(deps, absorb(deps, names)),
        forall|i: int|
            0 <= i < names.len() ==> is_reserved(#[trigger] names[i]) || absorb(
                deps,
                names,
            ).contains(names[i]),
        forall|x: Seq<char>| #[trigger]
            absorb(deps, names).contains(x) ==> deps.contains(x) || names.contains(x),
    decreases names.len(),
{
    broadcast use vstd::seq_lib::group_seq_properties;

    if names.len() > 0 {
        let before = absorb(deps, names.drop_last());
        lemma_absorb_members(deps, names.drop_last());
        lemma_admit_name(before, names.last());
        assert forall|i: int| 0 <= i < deps.len() implies absorb(deps, names).contains(
            #[trigger] deps[i],
        ) by {
            assert(before.contains(deps[i]));
        }
        assert forall|i: int| 0 <= i < names.len() implies is_reserved(#[trigger] names[i])
            || absorb(deps, names).contains(names[i]) by {
            if i < names.len() - 1 {
                assert(names.drop_last()[i] == names[i]);
            }
        }
        assert forall|x: Seq<char>| #[trigger]
            absorb(deps, names).contains(x) implies deps.contains(x) || names.contains(x) by {
            if before.contains(x) {
                if !deps.contains(x) {
                    let k = choose|k: int|
                        0 <= k < names.drop_last().len() && names.drop_last()[k] == x;
                    assert(names[k] == x);
                }
            } else {
                assert(names[names.len() - 1] == x);
            }
        }
    } else {
        assert forall|i: int| 0 <= i < deps.len() implies deps.contains(#[trigger] deps[i]) by {}
    }
}

/// Identifiers that are reserved or already candidates change nothing.
pub proof fn lemma_absorb_known(deps: Seq<Seq<char>>, names: Seq<Seq<char>>)
    requires
        forall|i: int|
            0 <= i < names.len() ==> is_reserved(#[trigger] names[i]) || deps.contains(names[i]),
    ensures
        absorb(deps, names) == deps,
    decreases names.len(),
{
    if names.len() > 0 {
        assert forall|i: int| 0 <= i < names.drop_last().len() implies is_reserved(
            #[trigger] names.drop_last()[i],
        ) || deps.contains(names.drop_last()[i]) by {
            assert(names.drop_last()[i] == names[i]);
        }
        lemma_absorb_known(deps, names.drop_last());
        assert(names.last() == names[names.len() - 1]);
    }
}

/// A second walk of the same tree adds nothing: meeting again, over the
/// candidates of a walk, the identifiers that the walk met leaves the
/// candidates as they are, in content and in order.
pub proof fn lemma_walk_idempotent(deps: Seq<Seq<char>>, names: Seq<Seq<char>>)
    ensures
        absorb(absorb(deps, names), names) == absorb(deps, names),
{
    lemma_absorb_members(deps, names);
    lemma_absorb_known(absorb(deps, names), names);
}

/// Filtering by module names twice is filtering once.
pub proof fn lemma_filter_idempotent(deps: Seq<Seq<char>>, mods: Seq<Seq<char>>)
    ensures
        deps.filter(outside(mods)).filter(outside(mods)) == deps.filter(outside(mods)),
    decreases deps.len(),
{
    reveal(Seq::filter);
    let keep = outside(mods);
    if deps.len() > 0 {
        let rest = deps.drop_last();
        lemma_filter_idempotent(rest, mods);
        if keep(deps.last()) {
            rest.filter(keep).lemma_filter_push(deps.last(), keep);
        }
    }
}

/// A second pass over the same file adds nothing: walking the tree of a
/// file again over the candidates that the file contributed, and filtering
/// by its module names again, leaves those candidates as they are, in
/// content and in order.
pub proof fn lemma_file_pass_idempotent(items: Seq<ItemModel>)
    ensures
        absorb(file_candidates(items), items_found(items).imports).filter(
            outside(items_found(items).modules),
        ) == file_candidates(items),
{
    let found = items_found(items);
    lemma_absorb_members(Seq::empty(), found.imports);
    lemma_filter_idempotent(absorb(Seq::empty(), found.imports), found.modules);
    assert forall|x: Seq<char>| file_candidates(items).contains(x) implies absorb(
        Seq::empty(),
        found.imports,
    ).contains(x) by {
        absorb(Seq::empty(), found.imports).lemma_filter_contains_rev(outside(found.modules), x);
    }
    lemma_second_pass(
        absorb(Seq::empty(), found.imports),
        found.modules,
        file_candidates(items),
        found.imports,
    );
}

/// Meeting, over candidates that were filtered by `mods`, identifiers that
/// are reserved or among the candidates before the filter, and filtering
/// again, gives what the first filter gave.
proof fn lemma_second_pass(
    collected: Seq<Seq<char>>,
    mods: Seq<Seq<char>>,
    deps: Seq<Seq<char>>,
    names: Seq<Seq<char>>,
)
    requires
        deps.filter(outside(mods)) == collected.filter(outside(mods)),
        forall|x: Seq<char>| deps.contains(x) ==> collected.contains(x),
        forall|i: int|
            0 <= i < names.len() ==> is_reserved(#[trigger] names[i]) || collected.contains(
                names[i],
            ),
    ensures
        absorb(deps, names).filter(outside(mods)) == collected.filter(outside(mods)),
        forall|x: Seq<char>| absorb(deps, names).contains(x) ==> collected.contains(x),
    decreases names.len(),
{
    broadcast use vstd::seq_lib::group_seq_properties;

    if names.len() > 0 {
        let keep = outside(mods);
        let name = names.last();
        assert forall|i: int| 0 <= i < names.drop_last().len() implies is_reserved(
            #[trigger] names.drop_last()[i],
        ) || collected.contains(names.drop_last()[i]) by {
            assert(names.drop_last()[i] == names[i]);
        }
        lemma_second_pass(collected, mods, deps, names.drop_last());
        let before = absorb(deps, names.drop_last());
        assert(names[names.len() - 1] == name);
        if !(is_reserved(name) || before.contains(name)) {
            before.lemma_filter_push(name, keep);
            if keep(name) {
                let k = choose|k: int| 0 <= k < collected.len() && collected[k] == name;
                collected.lemma_filter_contains(keep, k);
                before.lemma_filter_contains_rev(keep, name);
            }
        }
    }
}

/// Keeping the names that pass a test adds no name and no duplicate, and
/// every name kept passes the test.
pub proof fn lemma_filter_keeps(deps: Seq<Seq<char>>, keep: spec_fn(Seq<char>) -> bool)
    ensures
        all_among(deps.filter(keep), deps),
        deps.no_duplicates() ==> deps.filter(keep).no_duplicates(),
        none_reserved(deps) ==> none_reserved(deps.filter(keep)),
        forall|i: int| 0 <= i < deps.filter(keep).len() ==> keep(#[trigger] deps.filter(keep)[i]),
    decreases deps.len(),
{
    broadcast use vstd::seq_lib::group_seq_properties;

    reveal(Seq::filter);
    let kept = deps.filter(keep);
    if deps.len() > 0 {
        let rest = deps.drop_last();
        let last = deps.last();
        lemma_filter_keeps(rest, keep);
        let sub = rest.filter(keep);
        assert forall|i: int| 0 <= i < kept.len() implies deps.contains(#[trigger] kept[i]) by {
            if i < sub.len() {
                assert(rest.contains(sub[i]));
                let k = choose|k: int| 0 <= k < rest.len() && rest[k] == sub[i];
                assert(deps[k] == sub[i]);
            } else {
                assert(deps[deps.len() - 1] == last);
            }
        }
        if deps.no_duplicates() {
            assert(rest.no_duplicates());
            assert forall|i: int, j: int|
                0 <= i < kept.len() && 0 <= j < kept.len() && i != j implies kept[i] != kept[j] by {
                if i < sub.len() && j < sub.len() {
                } else {
                    let inner = if i < sub.len() {
                        i
                    } else {
                        j
                    };
                    assert(rest.contains(sub[inner]));
                    let k = choose|k: int| 0 <= k < rest.len() && rest[k] == sub[inner];
                    assert(deps[k] == sub[inner]);
                    assert(deps[deps.len() - 1] == last);
                }
            }
        }
        if none_reserved(deps) {
            assert forall|i: int| 0 <= i < rest.len() implies !is_reserved(#[trigger] rest[i]) by {
                assert(rest[i] == deps[i]);
            }
            assert(deps[deps.len() - 1] == last);
        }
    }
}

/// Filtering by module names keeps the order and the absence of
/// duplicates, adds no name, and leaves no module name.
pub proof fn lemma_filter_sound(deps: Seq<Seq<char>>, mods: Seq<Seq<char>>)
    ensures
        all_among(deps.filter(outside(mods)), deps),
        deps.no_duplicates() ==> deps.filter(outside(mods)).no_duplicates(),
        none_reserved(deps) ==> none_reserved(deps.filter(outside(mods))),
        forall|i: int|
            0 <= i < deps.filter(outside(mods)).len() ==> !mods.contains(
                #[trigger] deps.filter(outside(mods))[i],
            ),
{
    lemma_filter_keeps(deps, outside(mods));
}

/// Module names are excluded: a name that a file declares as a module is
/// no candidate of that file, whether the file imports it or not.
pub proof fn lemma_module_names_excluded(items: Seq<ItemModel>, name: Seq<char>)
    requires
        items_found(items).modules.contains(name),
    ensures
        !file_candidates(items).contains(name),
{
    let found = items_found(items);
    lemma_filter_sound(absorb(Seq::empty(), found.imports), found.modules);
    if file_candidates(items).contains(name) {
        let i = choose|i: int|
            0 <= i < file_candidates(items).len() && file_candidates(items)[i] == name;
        assert(!found.modules.contains(file_candidates(items)[i]));
    }
}

/// The candidates of one file hold no duplicate and no reserved root, and
/// each of them is the leading identifier of an import of the file.
pub proof fn lemma_file_candidates_sound(items: Seq<ItemModel>)
    ensures
        file_candidates(items).no_duplicates(),
        none_reserved(file_candidates(items)),
        all_among(file_candidates(items), items_found(items).imports),
{
    broadcast use vstd::seq_lib::group_seq_properties;

    let found = items_found(items);
    let collected = absorb(Seq::empty(), found.imports);
    lemma_absorb_no_duplicates(Seq::empty(), found.imports);
    lemma_absorb_none_reserved(Seq::empty(), found.imports);
    lemma_absorb_members(Seq::empty(), found.imports);
    lemma_filter_sound(collected, found.modules);
    assert forall|i: int| 0 <= i < file_candidates(items).len() implies found.imports.contains(
        #[trigger] file_candidates(items)[i],
    ) by {
        assert(collected.contains(file_candidates(items)[i]));
    }
}

/// The candidates of a batch hold no duplicate and no reserved root.
pub proof fn lemma_inferred_sound(trees: Seq<Option<Seq<ItemModel>>>)
    ensures
        inferred(trees).no_duplicates(),
        none_reserved(inferred(trees)),
    decreases trees.len(),
{
    if trees.len() > 0 {
        lemma_inferred_sound(trees.drop_last());
        let found = match trees.last() {
            Some(items) => file_candidates(items),
            None => Seq::empty(),
        };
        lemma_absorb_no_duplicates(inferred(trees.drop_last()), found);
        lemma_absorb_none_reserved(inferred(trees.drop_last()), found);
    }
}

/// Taking out the candidates of a package leaves the others as they were:
/// no duplicate and no reserved root comes up, no candidate is added, and
/// none of those left names the package.
pub proof fn lemma_without_package_sound(candidates: Seq<Seq<char>>, name: Seq<char>)
    ensures
        all_among(without_package(candidates, name), candidates),
        candidates.no_duplicates() ==> without_package(candidates, name).no_duplicates(),
        none_reserved(candidates) ==> none_reserved(without_package(candidates, name)),
        forall|i: int|
            0 <= i < without_package(candidates, name).len() ==> !same_package(
                #[trigger] without_package(candidates, name)[i],
                name,
            ),
{
    lemma_filter_keeps(candidates, other_package(name));
}

/// An override supersedes what was inferred: once a directive that gives a
/// name is applied, its text is the first line, and no candidate names the
/// same package, `-` and `_` taken for the same character.
pub proof fn lemma_override_supersedes(m: ManifestLines, directive: Seq<char>, name: Seq<char>)
    requires
        directive_name(directive) == Some(name),
    ensures
        with_directive(m, directive).overrides[0] == directive,
        with_directive(m, directive).overrides.skip(1) == m.overrides,
        forall|i: int|
            0 <= i < with_directive(m, directive).inferred.len() ==> !same_package(
                #[trigger] with_directive(m, directive).inferred[i],
                name,
            ),
{
    lemma_without_package_sound(m.inferred, name);
    assert(with_directive(m, directive).overrides.skip(1) =~= m.overrides);
}

/// A directive adds no candidate and keeps the candidates free of
/// duplicates and of reserved roots.
pub proof fn lemma_with_directive_sound(m: ManifestLines, directive: Seq<char>)
    ensures
        all_among(with_directive(m, directive).inferred, m.inferred),
        m.inferred.no_duplicates() ==> with_directive(m, directive).inferred.no_duplicates(),
        none_reserved(m.inferred) ==> none_reserved(with_directive(m, directive).inferred),
{
    match directive_name(directive) {
        Some(name) => {
            lemma_without_package_sound(m.inferred, name);
        },
        None => {
            assert forall|i: int| 0 <= i < m.inferred.len() implies m.inferred.contains(
                #[trigger] m.inferred[i],
            ) by {}
        },
    }
}

/// `all_among` is transitive.
pub proof fn lemma_all_among_trans(a: Seq<Seq<char>>, b: Seq<Seq<char>>, c: Seq<Seq<char>>)
    requires
        all_among(a, b),
        all_among(b, c),
    ensures
        all_among(a, c),
{
    assert forall|i: int| 0 <= i < a.len() implies c.contains(#[trigger] a[i]) by {
        let k = choose|k: int| 0 <= k < b.len() && b[k] == a[i];
        assert(c.contains(b[k]));
    }
}

/// Directives add no candidate and keep the candidates free of duplicates
/// and of reserved roots; the override lines come out latest first, before
/// those that were there.
pub proof fn lemma_with_directives_sound(m: ManifestLines, ds: Seq<Seq<char>>)
    ensures
        all_among(with_directives(m, ds).inferred, m.inferred),
        m.inferred.no_duplicates() ==> with_directives(m, ds).inferred.no_duplicates(),
        none_reserved(m.inferred) ==> none_reserved(with_directives(m, ds).inferred),
        with_directives(m, ds).overrides == ds.reverse() + m.overrides,
    decreases ds.len(),
{
    if ds.len() > 0 {
        let before = with_directives(m, ds.drop_last());
        lemma_with_directives_sound(m, ds.drop_last());
        lemma_with_directive_sound(before, ds.last());
        lemma_all_among_trans(with_directives(m, ds).inferred, before.inferred, m.inferred);
        assert(seq![ds.last()] + (ds.drop_last().reverse() + m.overrides) =~= ds.reverse()
            + m.overrides);
    } else {
        assert forall|i: int| 0 <= i < m.inferred.len() implies m.inferred.contains(
            #[trigger] m.inferred[i],
        ) by {}
        assert(ds.reverse() + m.overrides =~= m.overrides);
    }
}

/// Once a directive that gives a name is among those applied, no candidate
/// names the same package, whatever directives follow.
pub proof fn lemma_overrides_supersede(m: ManifestLines, ds: Seq<Seq<char>>, k: int, name: Seq<char>)
    requires
        0 <= k < ds.len(),
        directive_name(ds[k]) == Some(name),
    ensures
        forall|i: int|
            0 <= i < with_directives(m, ds).inferred.len() ==> !same_package(
                #[trigger] with_directives(m, ds).inferred[i],
                name,
            ),
    decreases ds.len(),
{
    let before = with_directives(m, ds.drop_last());
    let after = with_directives(m, ds);
    if k == ds.len() - 1 {
        lemma_override_supersedes(before, ds.last(), name);
    } else {
        assert(ds.drop_last()[k] == ds[k]);
        lemma_overrides_supersede(m, ds.drop_last(), k, name);
        lemma_with_directive_sound(before, ds.last());
        assert forall|i: int| 0 <= i < after.inferred.len() implies !same_package(
            #[trigger] after.inferred[i],
            name,
        ) by {
            let j = choose|j: int| 0 <= j < before.inferred.len() && before.inferred[j] == after.inferred[i];
            assert(!same_package(before.inferred[j], name));
        }
    }
}

/// The override pass over a batch adds no candidate and keeps the
/// candidates free of duplicates and of reserved roots.
pub proof fn lemma_reconciled_sound(m: ManifestLines, codes: Seq<Seq<char>>)
    ensures
        all_among(reconciled(m, codes).inferred, m.inferred),
        m.inferred.no_duplicates() ==> reconciled(m, codes).inferred.no_duplicates(),
        none_reserved(m.inferred) ==> none_reserved(reconciled(m, codes).inferred),
    decreases codes.len(),
{
    if codes.len() > 0 {
        let before = reconciled(m, codes.drop_last());
        lemma_reconciled_sound(m, codes.drop_last());
        lemma_with_directives_sound(before, directives(codes.last()));
        lemma_all_among_trans(reconciled(m, codes).inferred, before.inferred, m.inferred);
    } else {
        assert forall|i: int| 0 <= i < m.inferred.len() implies m.inferred.contains(
            #[trigger] m.inferred[i],
        ) by {}
    }
}

/// No duplicates and no reserved roots in a manifest: whatever the files of
/// a batch hold, no two inferred lines of its manifest have the same
/// identifier, and none has a reserved root as its identifier.
pub proof fn lemma_manifest_inferred_sound(
    codes: Seq<Seq<char>>,
    trees: Seq<Option<Seq<ItemModel>>>,
)
    ensures
        reconciled(
            ManifestLines { overrides: Seq::empty(), inferred: inferred(trees) },
            codes,
        ).inferred.no_duplicates(),
        none_reserved(
            reconciled(
                ManifestLines { overrides: Seq::empty(), inferred: inferred(trees) },
                codes,
            ).inferred,
        ),
        all_among(
            reconciled(
                ManifestLines { overrides: Seq::empty(), inferred: inferred(trees) },
                codes,
            ).inferred,
            inferred(trees),
        ),
{
    lemma_inferred_sound(trees);
    lemma_reconciled_sound(
        ManifestLines { overrides: Seq::empty(), inferred: inferred(trees) },
        codes,
    );
}

/// An override of any file supersedes what was inferred: where a directive
/// of one of the files gives a name, no inferred line of the manifest names
/// the same package, `-` and `_` taken for the same character.
pub proof fn lemma_manifest_override_precedence(
    m: ManifestLines,
    codes: Seq<Seq<char>>,
    file: int,
    k: int,
    name: Seq<char>,
)
    requires
        0 <= file < codes.len(),
        0 <= k < directives(codes[file]).len(),
        directive_name(directives(codes[file])[k]) == Some(name),
    ensures
        forall|i: int|
            0 <= i < reconciled(m, codes).inferred.len() ==> !same_package(
                #[trigger] reconciled(m, codes).inferred[i],
                name,
            ),
    decreases codes.len(),
{
    let before = reconciled(m, codes.drop_last());
    let after = reconciled(m, codes);
    if file == codes.len() - 1 {
        lemma_overrides_supersede(before, directives(codes.last()), k, name);
    } else {
        assert(codes.drop_last()[file] == codes[file]);
        lemma_manifest_override_precedence(m, codes.drop_last(), file, k, name);
        lemma_with_directives_sound(before, directives(codes.last()));
        assert forall|i: int| 0 <= i < after.inferred.len() implies !same_package(
            #[trigger] after.inferred[i],
            name,
        ) by {
            let j = choose|j: int| 0 <= j < before.inferred.len() && before.inferred[j] == after.inferred[i];
            assert(!same_package(before.inferred[j], name));
        }
    }
}

/// Override precedence in the lines of a manifest: whatever the files of a
/// batch hold, where a directive of one of them gives a name, every line
/// behind the override lines is an identifier with the wildcard, and that
/// identifier names another package.
pub proof fn lemma_manifest_lines_override_precedence(
    codes: Seq<Seq<char>>,
    trees: Seq<Option<Seq<ItemModel>>>,
    file: int,
    k: int,
    name: Seq<char>,
)
    requires
        0 <= file < codes.len(),
        0 <= k < directives(codes[file]).len(),
        directive_name(directives(codes[file])[k]) == Some(name),
    ensures
        ({
            let m = reconciled(
                ManifestLines { overrides: Seq::empty(), inferred: inferred(trees) },
                codes,
            );
            &&& manifest_lines(m).len() == m.overrides.len() + m.inferred.len()
            &&& forall|i: int|
                0 <= i < m.inferred.len() ==> #[trigger] manifest_lines(m)[m.overrides.len() + i]
                    == m.inferred[i] + wildcard() && !same_package(m.inferred[i], name)
        }),
{
    lemma_manifest_override_precedence(
        ManifestLines { overrides: Seq::empty(), inferred: inferred(trees) },
        codes,
        file,
        k,
        name,
    );
}

} // verus!
