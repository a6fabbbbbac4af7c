//! The dependency graph of a workspace: what a selection requires, and who
//! requires a model.

use vstd::prelude::*;

use crate::names::{ascending_names, lemma_with_members, with_members, NameSet};
use crate::seqs::{gather, lemma_gather_ends, lemma_gather_member, lemma_gather_step};
use crate::text::{
    holds, lemma_lex_irreflexive, lemma_lex_transitive, lex_lt, none_of, put, DeepClone,
};
use crate::workspace::{model_named, Compilation, CompiledModelView};

verus! {

/// The models that `id` reads; none for a name the workspace does not have.
pub open spec fn deps_of(models: Seq<CompiledModelView>, id: Seq<char>) -> Seq<Seq<char>> {
    match model_named(models, id) {
        Some(model) => model.model_dependencies,
        None => Seq::empty(),
    }
}

/// Each model of the path reads the next, and the next is not excluded.
pub open spec fn reading_path(
    models: Seq<CompiledModelView>,
    excluded: Seq<Seq<char>>,
    path: Seq<Seq<char>>,
) -> bool {
    forall|i: int|
        0 <= i < path.len() - 1 ==> deps_of(models, #[trigger] path[i]).contains(path[i + 1])
            && !excluded.contains(path[i + 1])
}

/// Whether the selection requires `id`: a path of dependencies, none of them
/// excluded, leads to it from a selected model.
pub open spec fn required(
    models: Seq<CompiledModelView>,
    selected: Seq<Seq<char>>,
    excluded: Seq<Seq<char>>,
    id: Seq<char>,
) -> bool {
    exists|path: Seq<Seq<char>>| #[trigger]
        reading_path(models, excluded, path) && path.len() > 0 && selected.contains(path[0])
            && path.last() == id
}

/// The names that a selection requires, in order.
pub open spec fn is_closure(
    names: Seq<Seq<char>>,
    models: Seq<CompiledModelView>,
    selected: Seq<Seq<char>>,
    excluded: Seq<Seq<char>>,
) -> bool {
    &&& ascending_names(names)
    &&& forall|id: Seq<char>| #[trigger]
        names.contains(id) <==> required(models, selected, excluded, id)
}

/// The closure of a selection.
pub open spec fn closure_of(
    models: Seq<CompiledModelView>,
    selected: Seq<Seq<char>>,
    excluded: Seq<Seq<char>>,
) -> Seq<Seq<char>> {
    choose|names: Seq<Seq<char>>| #[trigger] is_closure(names, models, selected, excluded)
}

/// Ascending sequences with the same members are the same.
pub proof fn lemma_same_members(a: Seq<Seq<char>>, b: Seq<Seq<char>>)
    requires
        ascending_names(a),
        ascending_names(b),
        forall|name: Seq<char>| #[trigger] a.contains(name) <==> b.contains(name),
    ensures
        a == b,
    decreases a.len(),
{
    if a.len() == 0 {
        if b.len() > 0 {
            assert(b.contains(b[0]));
            assert(a.contains(b[0]));
        }
        assert(a =~= b);
    } else {
        assert(a.contains(a.last()));
        assert(b.contains(a.last()));
        let k = choose|k: int| 0 <= k < b.len() && b[k] == a.last();
        assert(b.contains(b.last()));
        assert(a.contains(b.last()));
        let m = choose|m: int| 0 <= m < a.len() && a[m] == b.last();
        if k < b.len() - 1 {
            assert(lex_lt(b[k], b[b.len() - 1]));
            if m < a.len() - 1 {
                assert(lex_lt(a[m], a[a.len() - 1]));
                lemma_lex_transitive(a.last(), b.last(), a.last());
            }
            lemma_lex_irreflexive(a.last());
        }
        assert(a.last() == b.last());
        let x = a.drop_last();
        let y = b.drop_last();
        assert forall|name: Seq<char>| #[trigger] x.contains(name) <==> y.contains(name) by {
            lemma_lex_irreflexive(a.last());
            if x.contains(name) {
                let i = choose|i: int| 0 <= i < x.len() && x[i] == name;
                assert(a[i] == name);
                assert(a.contains(name) && b.contains(name));
                let j = choose|j: int| 0 <= j < b.len() && b[j] == name;
                assert(lex_lt(a[i], a[a.len() - 1]));
                assert(j < b.len() - 1);
                assert(y[j] == name);
            }
            if y.contains(name) {
                let i = choose|i: int| 0 <= i < y.len() && y[i] == name;
                assert(b[i] == name);
                assert(a.contains(name));
                let j = choose|j: int| 0 <= j < a.len() && a[j] == name;
                assert(lex_lt(b[i], b[b.len() - 1]));
                assert(j < a.len() - 1);
                assert(x[j] == name);
            }
        }
        lemma_same_members(x, y);
        assert(a =~= x.push(a.last()));
        assert(b =~= y.push(b.last()));
    }
}

pub proof fn lemma_the_closure(
    names: Seq<Seq<char>>,
    models: Seq<CompiledModelView>,
    selected: Seq<Seq<char>>,
    excluded: Seq<Seq<char>>,
)
    requires
        is_closure(names, models, selected, excluded),
    ensures
        closure_of(models, selected, excluded) == names,
{
    lemma_same_members(names, closure_of(models, selected, excluded));
}

/// Everything a model may read, whatever the model.
spec fn all_deps(models: Seq<CompiledModelView>) -> Seq<Seq<char>> {
    gather(models, |model: CompiledModelView| model.model_dependencies)
}

proof fn lemma_dep_known(models: Seq<CompiledModelView>, id: Seq<char>, dep: Seq<char>)
    requires
        deps_of(models, id).contains(dep),
    ensures
        all_deps(models).contains(dep),
{
    let f = |model: CompiledModelView| model.model_dependencies;
    crate::seqs::lemma_first_found(models, crate::workspace::is_model(id));
    let model = model_named(models, id)->0;
    let k = choose|k: int| 0 <= k < models.len() && models[k] == model;
    lemma_gather_member(models, f, dep);
    assert(f(models[k]).contains(dep));
}

proof fn lemma_bounded(names: Seq<Seq<char>>, universe: Set<Seq<char>>)
    requires
        names.no_duplicates(),
        universe.finite(),
        forall|i: int| 0 <= i < names.len() ==> universe.contains(#[trigger] names[i]),
    ensures
        names.len() <= universe.len(),
{
    names.unique_seq_to_set();
    assert(names.to_set().subset_of(universe)) by {
        assert forall|x: Seq<char>| names.to_set().contains(x) implies universe.contains(x) by {
            let i = choose|i: int| 0 <= i < names.len() && names[i] == x;
            assert(universe.contains(names[i]));
        }
    }
    vstd::set_lib::lemma_len_subset(names.to_set(), universe);
}

proof fn lemma_required_step(
    models: Seq<CompiledModelView>,
    selected: Seq<Seq<char>>,
    excluded: Seq<Seq<char>>,
    id: Seq<char>,
    dep: Seq<char>,
)
    requires
        required(models, selected, excluded, id),
        deps_of(models, id).contains(dep),
        !excluded.contains(dep),
    ensures
        required(models, selected, excluded, dep),
{
    let path = choose|path: Seq<Seq<char>>| #[trigger]
        reading_path(models, excluded, path) && path.len() > 0 && selected.contains(path[0])
            && path.last() == id;
    let longer = path.push(dep);
    assert forall|i: int| 0 <= i < longer.len() - 1 implies deps_of(
        models,
        #[trigger] longer[i],
    ).contains(longer[i + 1]) && !excluded.contains(longer[i + 1]) by {
        if i < path.len() - 1 {
            assert(longer[i] == path[i] && longer[i + 1] == path[i + 1]);
        }
    }
    assert(reading_path(models, excluded, longer));
}

proof fn lemma_closed_holds_path(
    models: Seq<CompiledModelView>,
    excluded: Seq<Seq<char>>,
    closed: Seq<Seq<char>>,
    path: Seq<Seq<char>>,
    i: int,
)
    requires
        forall|id: Seq<char>, dep: Seq<char>|
            closed.contains(id) && #[trigger] deps_of(models, id).contains(dep)
                && !excluded.contains(dep) ==> closed.contains(dep),
        reading_path(models, excluded, path),
        path.len() > 0,
        closed.contains(path[0]),
        0 <= i < path.len(),
    ensures
        closed.contains(path[i]),
    decreases i,
{
    if i > 0 {
        lemma_closed_holds_path(models, excluded, closed, path, i - 1);
        assert(deps_of(models, path[i - 1]).contains(path[i - 1 + 1]));
    }
}

fn read_by(compilation: &Compilation, id: &str) -> (r: Vec<String>)
    ensures
        r.deep_view() == deps_of(compilation.deep_view().models, id@),
{
    match compilation.model(id) {
        Some(model) => model.model_dependencies.deep_clone(),
        None => none_of(),
    }
}

/// The position of each name among the views of a list.
proof fn lemma_contains_pushed(names: Seq<Seq<char>>, name: Seq<char>)
    ensures
        forall|x: Seq<char>| #[trigger]
            names.push(name).contains(x) <==> names.contains(x) || x == name,
{
    let grown = names.push(name);
    assert forall|x: Seq<char>| #[trigger] grown.contains(x) <==> names.contains(x) || x
        == name by {
        if grown.contains(x) {
            let k = choose|k: int| 0 <= k < grown.len() && grown[k] == x;
            if k < names.len() {
                assert(names[k] == x);
            }
        }
        if names.contains(x) {
            let k = choose|k: int| 0 <= k < names.len() && names[k] == x;
            assert(grown[k] == x);
        }
        assert(grown[names.len() as int] == name);
    }
}

/// Every model that a selection requires, excluded models left out: they are
/// never pulled back in by closure, though a model may be selected and
/// excluded at once.
pub fn dependency_closure_excluding(
    compilation: &Compilation,
    selected: &NameSet,
    excluded: &NameSet,
) -> (r: NameSet)
    ensures
        is_closure(
            r.deep_view(),
            compilation.deep_view().models,
            selected.deep_view(),
            excluded.deep_view(),
        ),
        r.deep_view() == closure_of(
            compilation.deep_view().models,
            selected.deep_view(),
            excluded.deep_view(),
        ),
{
    let ghost models = compilation.deep_view().models;
    let ghost chosen = selected.deep_view();
    let ghost barred = excluded.deep_view();
    let count: usize = selected.len();
    let mut included: Vec<String> = selected.to_vec();
    let ghost universe = chosen.to_set().union(all_deps(models).to_set());
    proof {
        vstd::seq_lib::seq_to_set_is_finite(chosen);
        vstd::seq_lib::seq_to_set_is_finite(all_deps(models));
        assert(included.deep_view() == chosen);
        assert(chosen.no_duplicates()) by {
            assert forall|i: int, j: int| 0 <= i < chosen.len() && 0 <= j < chosen.len() && i
                != j implies chosen[i] != chosen[j] by {
                lemma_lex_irreflexive(chosen[i]);
                if i < j {
                    assert(lex_lt(chosen[i], chosen[j]));
                } else {
                    assert(lex_lt(chosen[j], chosen[i]));
                }
            }
        }
        assert forall|id: Seq<char>| chosen.contains(id) implies required(
            models,
            chosen,
            barred,
            id,
        ) by {
            let path = seq![id];
            assert(reading_path(models, barred, path));
            assert(path[0] == id && path.last() == id);
        }
        assert forall|k: int| 0 <= k < chosen.len() implies required(
            models,
            chosen,
            barred,
            #[trigger] chosen[k],
        ) by {
            assert(chosen.contains(chosen[k]));
        }
        lemma_bounded(chosen, universe);
    }
    let mut i: usize = 0;
    while i < included.len()
        invariant
            models == compilation.deep_view().models,
            chosen == selected.deep_view(),
            barred == excluded.deep_view(),
            universe == chosen.to_set().union(all_deps(models).to_set()),
            universe.finite(),
            i <= included@.len(),
            included.deep_view().no_duplicates(),
            included@.len() <= universe.len(),
            forall|k: int|
                0 <= k < included@.len() ==> universe.contains(
                    #[trigger] included.deep_view()[k],
                ),
            forall|k: int|
                0 <= k < included@.len() ==> required(
                    models,
                    chosen,
                    barred,
                    #[trigger] included.deep_view()[k],
                ),
            forall|id: Seq<char>| chosen.contains(id) ==> #[trigger]
                included.deep_view().contains(id),
            forall|k: int, dep: Seq<char>|
                0 <= k < i && #[trigger] deps_of(models, included.deep_view()[k]).contains(dep)
                    && !barred.contains(dep) ==> included.deep_view().contains(dep),
        decreases universe.len() - i,
    {
        let deps: Vec<String> = read_by(compilation, included[i].as_str());
        let ghost current = included.deep_view()[i as int];
        for j in 0..deps.len()
            invariant
                models == compilation.deep_view().models,
                chosen == selected.deep_view(),
                barred == excluded.deep_view(),
                universe == chosen.to_set().union(all_deps(models).to_set()),
                universe.finite(),
                i < included@.len(),
                current == included.deep_view()[i as int],
                deps.deep_view() == deps_of(models, current),
                included.deep_view().no_duplicates(),
                included@.len() <= universe.len(),
                forall|k: int|
                    0 <= k < included@.len() ==> universe.contains(
                        #[trigger] included.deep_view()[k],
                    ),
                forall|k: int|
                    0 <= k < included@.len() ==> required(
                        models,
                        chosen,
                        barred,
                        #[trigger] included.deep_view()[k],
                    ),
                forall|id: Seq<char>| chosen.contains(id) ==> #[trigger]
                    included.deep_view().contains(id),
                forall|k: int, dep: Seq<char>|
                    0 <= k < i && #[trigger] deps_of(models, included.deep_view()[k]).contains(dep)
                        && !barred.contains(dep) ==> included.deep_view().contains(dep),
                forall|k: int|
                    0 <= k < j && !barred.contains(deps.deep_view()[k]) ==> #[trigger]
                        included.deep_view().contains(deps.deep_view()[k]),
        {
            let ghost dep = deps.deep_view()[j as int];
            assert(deps_of(models, current).contains(dep));
            if !excluded.contains(deps[j].as_str()) {
                let list: &[String] = included.as_slice();
                assert(list.deep_view() =~= included.deep_view());
                if !holds(list, deps[j].as_str()) {
                    let ghost before = included.deep_view();
                    proof {
                        lemma_required_step(models, chosen, barred, current, dep);
                        lemma_dep_known(models, current, dep);
                        lemma_contains_pushed(before, dep);
                    }
                    put(&mut included, deps[j].clone());
                    proof {
                        let after = included.deep_view();
                        assert(after == before.push(dep));
                        assert forall|k: int| 0 <= k < after.len() implies universe.contains(
                            #[trigger] after[k],
                        ) && required(models, chosen, barred, after[k]) by {
                            if k < before.len() {
                                assert(after[k] == before[k]);
                            } else {
                                assert(after[k] == dep);
                            }
                        }
                        assert(after.no_duplicates()) by {
                            assert forall|a: int, b: int|
                                0 <= a < after.len() && 0 <= b < after.len() && a
                                    != b implies after[a] != after[b] by {
                                if a < before.len() && b < before.len() {
                                    assert(before[a] != before[b]);
                                } else if a < before.len() {
                                    assert(before.contains(before[a]));
                                } else {
                                    assert(before.contains(before[b]));
                                }
                            }
                        }
                        lemma_bounded(after, universe);
                        assert(after.len() == included@.len());
                        assert forall|k: int, d: Seq<char>|
                            0 <= k < i && #[trigger] deps_of(models, after[k]).contains(d)
                                && !barred.contains(d) implies after.contains(d) by {
                            assert(after[k] == before[k]);
                        }
                    }
                }
            }
        }
        proof {
            let now = included.deep_view();
            assert forall|k: int, dep: Seq<char>|
                0 <= k < i + 1 && #[trigger] deps_of(models, now[k]).contains(dep)
                    && !barred.contains(dep) implies now.contains(dep) by {
                if k == i {
                    let views = deps.deep_view();
                    let m = choose|m: int| 0 <= m < views.len() && views[m] == dep;
                    assert(now.contains(views[m]));
                }
            }
        }
        i = i + 1;
    }
    let mut r: NameSet = NameSet::new();
    r.extend(&included);
    proof {
        let closed = included.deep_view();
        lemma_with_members(Seq::empty(), closed);
        assert forall|id: Seq<char>, dep: Seq<char>|
            closed.contains(id) && #[trigger] deps_of(models, id).contains(dep)
                && !barred.contains(dep) implies closed.contains(dep) by {
            let k = choose|k: int| 0 <= k < closed.len() && closed[k] == id;
            assert(deps_of(models, closed[k]).contains(dep));
        }
        assert forall|id: Seq<char>| #[trigger] r.deep_view().contains(id) <==> required(
            models,
            chosen,
            barred,
            id,
        ) by {
            if r.deep_view().contains(id) {
                assert(closed.contains(id));
                let k = choose|k: int| 0 <= k < closed.len() && closed[k] == id;
                assert(required(models, chosen, barred, closed[k]));
            }
            if required(models, chosen, barred, id) {
                let path = choose|path: Seq<Seq<char>>| #[trigger]
                    reading_path(models, barred, path) && path.len() > 0 && chosen.contains(
                        path[0],
                    ) && path.last() == id;
                assert(closed.contains(path[0]));
                lemma_closed_holds_path(models, barred, closed, path, path.len() - 1);
                assert(closed.contains(id));
            }
        }
        lemma_the_closure(r.deep_view(), models, chosen, barred);
    }
    r
}

/// Expand a selection to include every transitive model dependency.
pub fn dependency_closure(compilation: &Compilation, selected: &Vec<String>) -> (r: NameSet)
    ensures
        is_closure(
            r.deep_view(),
            compilation.deep_view().models,
            with_members(Seq::empty(), selected.deep_view()),
            Seq::empty(),
        ),
{
    let mut chosen: NameSet = NameSet::new();
    chosen.extend(selected);
    let none: NameSet = NameSet::new();
    dependency_closure_excluding(compilation, &chosen, &none)
}

/// The closure of a selection holds exactly the names that the selection
/// requires, in order.
pub proof fn law_closure_holds_what_is_required(
    models: Seq<CompiledModelView>,
    selected: Seq<Seq<char>>,
    excluded: Seq<Seq<char>>,
)
    ensures
        is_closure(closure_of(models, selected, excluded), models, selected, excluded),
{
    let all = selected + all_deps(models);
    let wanted = |id: Seq<char>| required(models, selected, excluded, id);
    let kept = all.filter(wanted);
    let names = with_members(Seq::empty(), kept);
    lemma_with_members(Seq::empty(), kept);
    assert forall|id: Seq<char>| #[trigger]
        names.contains(id) <==> required(models, selected, excluded, id) by {
        assert(!Seq::<Seq<char>>::empty().contains(id));
        if kept.contains(id) {
            let k = choose|k: int| 0 <= k < kept.len() && kept[k] == id;
            all.lemma_filter_pred(wanted, k);
            assert(wanted(kept[k]));
        }
        if required(models, selected, excluded, id) {
            let path = choose|path: Seq<Seq<char>>| #[trigger]
                reading_path(models, excluded, path) && path.len() > 0 && selected.contains(
                    path[0],
                ) && path.last() == id;
            if path.len() == 1 {
                let k = choose|k: int| 0 <= k < selected.len() && selected[k] == id;
                assert(all[k] == id);
                all.lemma_filter_contains(wanted, k);
            } else {
                let m = path.len() - 2;
                assert(deps_of(models, path[m]).contains(path[m + 1]));
                lemma_dep_known(models, path[m], id);
                let deps = all_deps(models);
                let k = choose|k: int| 0 <= k < deps.len() && deps[k] == id;
                assert(all[selected.len() + k] == id);
                all.lemma_filter_contains(wanted, selected.len() + k);
            }
        }
    }
    assert(is_closure(names, models, selected, excluded));
}

/// A plan's models are dependency-closed: with a model every model it reads is
/// there, except those that were excluded.
pub proof fn law_closure_is_closed(
    models: Seq<CompiledModelView>,
    selected: Seq<Seq<char>>,
    excluded: Seq<Seq<char>>,
    names: Seq<Seq<char>>,
    id: Seq<char>,
    dep: Seq<char>,
)
    requires
        is_closure(names, models, selected, excluded),
        names.contains(id),
        deps_of(models, id).contains(dep),
        !excluded.contains(dep),
    ensures
        names.contains(dep),
{
    lemma_required_step(models, selected, excluded, id, dep);
}

/// Closure keeps the selection, and pulls in no excluded model that was not
/// itself selected.
pub proof fn law_closure_never_pulls_in_an_excluded_model(
    models: Seq<CompiledModelView>,
    selected: Seq<Seq<char>>,
    excluded: Seq<Seq<char>>,
    names: Seq<Seq<char>>,
    id: Seq<char>,
)
    requires
        is_closure(names, models, selected, excluded),
    ensures
        selected.contains(id) ==> names.contains(id),
        names.contains(id) && excluded.contains(id) ==> selected.contains(id),
{
    if selected.contains(id) {
        let path = seq![id];
        assert(reading_path(models, excluded, path));
        assert(path[0] == id && path.last() == id);
    }
    if names.contains(id) && excluded.contains(id) {
        let path = choose|path: Seq<Seq<char>>| #[trigger]
            reading_path(models, excluded, path) && path.len() > 0 && selected.contains(path[0])
                && path.last() == id;
        if path.len() > 1 {
            let k = path.len() - 2;
            assert(deps_of(models, path[k]).contains(path[k + 1]));
            assert(path[k + 1] == id);
        }
    }
}

/// Picks the models that read `id`.
pub open spec fn if_reads(id: Seq<char>) -> spec_fn(CompiledModelView) -> Seq<Seq<char>> {
    |model: CompiledModelView|
        if model.model_dependencies.contains(id) {
            seq![model.id]
        } else {
            Seq::empty()
        }
}

/// The models that read `id`, in workspace order.
pub open spec fn dependents_of(models: Seq<CompiledModelView>, id: Seq<char>) -> Seq<Seq<char>> {
    gather(models, if_reads(id))
}

/// The models that read `id`.
pub fn dependents(compilation: &Compilation, id: &str) -> (r: Vec<String>)
    ensures
        r.deep_view() == dependents_of(compilation.deep_view().models, id@),
{
    let ghost views = compilation.models.deep_view();
    let ghost f = if_reads(id@);
    proof {
        lemma_gather_ends(views, f);
    }
    let mut r: Vec<String> = none_of();
    for i in 0..compilation.models.len()
        invariant
            views == compilation.models.deep_view(),
            f == if_reads(id@),
            r.deep_view() == gather(views.take(i as int), f),
    {
        proof {
            lemma_gather_step(views, i as int, f);
        }
        let ghost before = r.deep_view();
        let reads: &[String] = compilation.models[i].model_dependencies.as_slice();
        assert(reads.deep_view() =~= views[i as int].model_dependencies);
        if holds(reads, id) {
            put(&mut r, compilation.models[i].id.clone());
        }
        assert(r.deep_view() =~= before + f(views[i as int]));
    }
    r
}

/// Each model of the path is read by the next.
pub open spec fn reader_path(models: Seq<CompiledModelView>, path: Seq<Seq<char>>) -> bool {
    forall|i: int|
        0 <= i < path.len() - 1 ==> dependents_of(models, #[trigger] path[i]).contains(path[i + 1])
}

/// Whether `name` depends on `id` through `distance` steps.
pub open spec fn depends_at(
    models: Seq<CompiledModelView>,
    id: Seq<char>,
    name: Seq<char>,
    distance: nat,
) -> bool {
    exists|path: Seq<Seq<char>>| #[trigger]
        reader_path(models, path) && path.len() == distance + 1 && path[0] == id && path.last()
            == name
}

/// Whether `found` is a selected model nearest to `id` among those that depend
/// on it, or nothing where no selected model does.
pub open spec fn is_nearest(
    models: Seq<CompiledModelView>,
    id: Seq<char>,
    selected: Seq<Seq<char>>,
    found: Option<Seq<char>>,
) -> bool {
    match found {
        None => forall|name: Seq<char>, distance: nat|
            distance > 0 && #[trigger] depends_at(models, id, name, distance)
                ==> !selected.contains(name),
        Some(name) => selected.contains(name) && exists|distance: nat|
            distance > 0 && #[trigger] depends_at(models, id, name, distance) && forall|
                other: Seq<char>,
                nearer: nat,
            |
                0 < nearer < distance && #[trigger] depends_at(models, id, other, nearer)
                    ==> !selected.contains(other),
    }
}

proof fn lemma_depends_step(
    models: Seq<CompiledModelView>,
    id: Seq<char>,
    name: Seq<char>,
    distance: nat,
    next: Seq<char>,
)
    requires
        depends_at(models, id, name, distance),
        dependents_of(models, name).contains(next),
    ensures
        depends_at(models, id, next, distance + 1),
{
    let path = choose|path: Seq<Seq<char>>| #[trigger]
        reader_path(models, path) && path.len() == distance + 1 && path[0] == id && path.last()
            == name;
    let longer = path.push(next);
    assert forall|i: int| 0 <= i < longer.len() - 1 implies dependents_of(
        models,
        #[trigger] longer[i],
    ).contains(longer[i + 1]) by {
        if i < path.len() - 1 {
            assert(longer[i] == path[i] && longer[i + 1] == path[i + 1]);
        }
    }
    assert(reader_path(models, longer));
}

proof fn lemma_depends_back(
    models: Seq<CompiledModelView>,
    id: Seq<char>,
    name: Seq<char>,
    distance: nat,
) -> (previous: Seq<char>)
    requires
        depends_at(models, id, name, distance),
        distance > 0,
    ensures
        depends_at(models, id, previous, (distance - 1) as nat),
        dependents_of(models, previous).contains(name),
{
    let path = choose|path: Seq<Seq<char>>| #[trigger]
        reader_path(models, path) && path.len() == distance + 1 && path[0] == id && path.last()
            == name;
    let shorter = path.drop_last();
    assert forall|i: int| 0 <= i < shorter.len() - 1 implies dependents_of(
        models,
        #[trigger] shorter[i],
    ).contains(shorter[i + 1]) by {
        assert(shorter[i] == path[i] && shorter[i + 1] == path[i + 1]);
    }
    assert(reader_path(models, shorter));
    assert(dependents_of(models, path[distance - 1]).contains(path[distance - 1 + 1]));
    shorter.last()
}

spec fn all_ids(models: Seq<CompiledModelView>) -> Seq<Seq<char>> {
    Seq::new(models.len(), |i: int| models[i].id)
}

proof fn lemma_dependent_known(models: Seq<CompiledModelView>, id: Seq<char>, name: Seq<char>)
    requires
        dependents_of(models, id).contains(name),
    ensures
        all_ids(models).contains(name),
{
    let f = if_reads(id);
    lemma_gather_member(models, f, name);
    let k = choose|k: int| 0 <= k < models.len() && f(#[trigger] models[k]).contains(name);
    assert(all_ids(models)[k] == name);
}

/// What a level-by-level search upwards has established after `distance`
/// levels: `seen` holds everything within that distance, none of it selected,
/// and only the readers of the last level may still be missing.
spec fn searched(
    models: Seq<CompiledModelView>,
    id: Seq<char>,
    selected: Seq<Seq<char>>,
    seen: Seq<Seq<char>>,
    level: Seq<Seq<char>>,
    distance: nat,
) -> bool {
    &&& forall|name: Seq<char>, near: nat|
        0 < near <= distance && #[trigger] depends_at(models, id, name, near) ==> seen.contains(
            name,
        )
    &&& forall|i: int| 0 <= i < seen.len() ==> !selected.contains(#[trigger] seen[i])
    &&& forall|i: int|
        0 <= i < level.len() ==> depends_at(models, id, #[trigger] level[i], distance)
    &&& forall|name: Seq<char>, next: Seq<char>|
        (seen.contains(name) || name == id) && !level.contains(name) && #[trigger] dependents_of(
            models,
            name,
        ).contains(next) ==> seen.contains(next)
    &&& seen.no_duplicates()
    &&& forall|i: int| 0 <= i < seen.len() ==> all_ids(models).contains(#[trigger] seen[i])
}

proof fn lemma_search_done(
    models: Seq<CompiledModelView>,
    id: Seq<char>,
    selected: Seq<Seq<char>>,
    seen: Seq<Seq<char>>,
    distance: nat,
    name: Seq<char>,
    far: nat,
)
    requires
        searched(models, id, selected, seen, Seq::empty(), distance),
        depends_at(models, id, name, far),
        far > 0,
    ensures
        seen.contains(name),
    decreases far,
{
    let previous = lemma_depends_back(models, id, name, far);
    if far > 1 {
        lemma_search_done(models, id, selected, seen, distance, previous, (far - 1) as nat);
    } else {
        let path = choose|path: Seq<Seq<char>>| #[trigger]
            reader_path(models, path) && path.len() == 1 && path[0] == id && path.last()
                == previous;
        assert(previous == id);
    }
    assert(!Seq::<Seq<char>>::empty().contains(previous));
}

/// The selected model that pulls `id` into the plan: the nearest selected
/// dependent, for "required by" explanations.
#[verifier::spinoff_prover]
#[verifier::rlimit(60)]
pub fn requiring_model(compilation: &Compilation, id: &str, selected: &NameSet) -> (r: Option<
    String,
>)
    ensures
        is_nearest(
            compilation.deep_view().models,
            id@,
            selected.deep_view(),
            r.deep_view(),
        ),
{
    let ghost models = compilation.deep_view().models;
    let ghost chosen = selected.deep_view();
    let ghost universe = all_ids(models).to_set();
    let mut seen: Vec<String> = none_of();
    let mut level: Vec<String> = crate::text::one_of(id.to_owned());
    let ghost mut distance: nat = 0;
    proof {
        vstd::seq_lib::seq_to_set_is_finite(all_ids(models));
        let path = seq![id@];
        assert(reader_path(models, path) && path.len() == 1 && path[0] == id@ && path.last()
            == id@);
        assert(depends_at(models, id@, id@, 0));
        let views = level.deep_view();
        assert(views[0] == id@);
        assert(views.contains(id@));
        lemma_bounded(seen.deep_view(), universe);
    }
    while level.len() > 0
        invariant
            models == compilation.deep_view().models,
            chosen == selected.deep_view(),
            universe == all_ids(models).to_set(),
            universe.finite(),
            searched(models, id@, chosen, seen.deep_view(), level.deep_view(), distance),
            seen@.len() <= universe.len(),
        decreases universe.len() - seen@.len(), level@.len(),
    {
        let ghost old_seen = seen.deep_view();
        let ghost old_level = level.deep_view();
        let ghost old_len = seen@.len();
        let mut next: Vec<String> = none_of();
        assert(old_level.len() == level@.len());
        for i in 0..level.len()
            invariant
                models == compilation.deep_view().models,
                chosen == selected.deep_view(),
                universe == all_ids(models).to_set(),
                universe.finite(),
                old_level == level.deep_view(),
                old_level.len() == level@.len(),
                searched(models, id@, chosen, old_seen, old_level, distance),
                seen.deep_view() == old_seen + next.deep_view(),
                grown(models, id@, chosen, seen.deep_view(), next.deep_view(), distance),
                forall|k: int, name: Seq<char>|
                    0 <= k < i && #[trigger] dependents_of(models, old_level[k]).contains(name)
                        ==> seen.deep_view().contains(name),
        {
            let ghost current = old_level[i as int];
            let readers: Vec<String> = dependents(compilation, level[i].as_str());
            for j in 0..readers.len()
                invariant
                    models == compilation.deep_view().models,
                    chosen == selected.deep_view(),
                    universe == all_ids(models).to_set(),
                    universe.finite(),
                    old_level == level.deep_view(),
                    i < level@.len(),
                    old_level.len() == level@.len(),
                    current == old_level[i as int],
                    readers.deep_view() == dependents_of(models, current),
                    searched(models, id@, chosen, old_seen, old_level, distance),
                    seen.deep_view() == old_seen + next.deep_view(),
                    grown(models, id@, chosen, seen.deep_view(), next.deep_view(), distance),
                    forall|k: int, name: Seq<char>|
                        0 <= k < i && #[trigger] dependents_of(models, old_level[k]).contains(name)
                            ==> seen.deep_view().contains(name),
                    forall|k: int|
                        0 <= k < j ==> seen.deep_view().contains(
                            #[trigger] readers.deep_view()[k],
                        ),
            {
                let ghost reader = readers.deep_view()[j as int];
                proof {
                    assert(dependents_of(models, current).contains(reader));
                    assert(depends_at(models, id@, old_level[i as int], distance));
                    lemma_depends_step(models, id@, current, distance, reader);
                    lemma_dependent_known(models, current, reader);
                }
                let list: &[String] = seen.as_slice();
                assert(list.deep_view() =~= seen.deep_view());
                if !holds(list, readers[j].as_str()) {
                    if selected.contains(readers[j].as_str()) {
                        proof {
                            assert forall|other: Seq<char>, nearer: nat|
                                0 < nearer < distance + 1 && #[trigger] depends_at(
                                    models,
                                    id@,
                                    other,
                                    nearer,
                                ) implies !chosen.contains(other) by {
                                assert(old_seen.contains(other));
                                let k = choose|k: int|
                                    0 <= k < old_seen.len() && old_seen[k] == other;
                                assert(!chosen.contains(old_seen[k]));
                            }
                            assert(depends_at(models, id@, reader, distance + 1));
                        }
                        return Some(readers[j].clone());
                    }
                    let ghost before = seen.deep_view();
                    let ghost found = next.deep_view();
                    put(&mut seen, readers[j].clone());
                    put(&mut next, readers[j].clone());
                    proof {
                        lemma_contains_pushed(before, reader);
                        lemma_grown_step(models, id@, chosen, before, found, distance, reader);
                        assert(before.push(reader) =~= old_seen + found.push(reader));
                    }
                }
            }
            proof {
                assert forall|k: int, name: Seq<char>|
                    0 <= k < i + 1 && #[trigger] dependents_of(models, old_level[k]).contains(
                        name,
                    ) implies seen.deep_view().contains(name) by {
                    if k == i {
                        let views = readers.deep_view();
                        let m = choose|m: int| 0 <= m < views.len() && views[m] == name;
                        assert(seen.deep_view().contains(views[m]));
                    }
                }
            }
        }
        proof {
            lemma_level_done(
                models,
                id@,
                chosen,
                old_seen,
                old_level,
                next.deep_view(),
                distance,
            );
            distance = distance + 1;
            lemma_bounded(seen.deep_view(), universe);
            assert(seen.deep_view().len() == seen@.len());
            assert(next.deep_view().len() == next@.len());
            assert(old_seen.len() == old_len);
        }
        level = next;
    }
    proof {
        assert(level.deep_view() =~= Seq::<Seq<char>>::empty());
        assert forall|name: Seq<char>, far: nat|
            far > 0 && #[trigger] depends_at(models, id@, name, far) implies !chosen.contains(
            name,
        ) by {
            lemma_search_done(models, id@, chosen, seen.deep_view(), distance, name, far);
            let views = seen.deep_view();
            let k = choose|k: int| 0 <= k < views.len() && views[k] == name;
            assert(!chosen.contains(views[k]));
        }
    }
    None
}

/// What holds while a level is being extended: nothing seen is selected or
/// seen twice, and everything newly found lies one step further.
spec fn grown(
    models: Seq<CompiledModelView>,
    id: Seq<char>,
    selected: Seq<Seq<char>>,
    seen: Seq<Seq<char>>,
    next: Seq<Seq<char>>,
    distance: nat,
) -> bool {
    &&& forall|i: int| 0 <= i < seen.len() ==> !selected.contains(#[trigger] seen[i])
    &&& seen.no_duplicates()
    &&& forall|i: int| 0 <= i < seen.len() ==> all_ids(models).contains(#[trigger] seen[i])
    &&& forall|i: int|
        0 <= i < next.len() ==> depends_at(models, id, #[trigger] next[i], distance + 1)
}

proof fn lemma_grown_step(
    models: Seq<CompiledModelView>,
    id: Seq<char>,
    selected: Seq<Seq<char>>,
    seen: Seq<Seq<char>>,
    next: Seq<Seq<char>>,
    distance: nat,
    name: Seq<char>,
)
    requires
        grown(models, id, selected, seen, next, distance),
        !seen.contains(name),
        !selected.contains(name),
        all_ids(models).contains(name),
        depends_at(models, id, name, distance + 1),
    ensures
        grown(models, id, selected, seen.push(name), next.push(name), distance),
{
    let after = seen.push(name);
    assert(after.no_duplicates()) by {
        assert forall|a: int, b: int|
            0 <= a < after.len() && 0 <= b < after.len() && a != b implies after[a] != after[b] by {
            if a < seen.len() && b < seen.len() {
                assert(seen[a] != seen[b]);
            } else if a < seen.len() {
                assert(seen.contains(seen[a]));
            } else {
                assert(seen.contains(seen[b]));
            }
        }
    }
}

proof fn lemma_level_done(
    models: Seq<CompiledModelView>,
    id: Seq<char>,
    selected: Seq<Seq<char>>,
    seen: Seq<Seq<char>>,
    level: Seq<Seq<char>>,
    next: Seq<Seq<char>>,
    distance: nat,
)
    requires
        searched(models, id, selected, seen, level, distance),
        grown(models, id, selected, seen + next, next, distance),
        forall|k: int, name: Seq<char>|
            0 <= k < level.len() && #[trigger] dependents_of(models, level[k]).contains(name)
                ==> (seen + next).contains(name),
    ensures
        searched(models, id, selected, seen + next, next, distance + 1),
{
    let all = seen + next;
    assert forall|name: Seq<char>| seen.contains(name) implies #[trigger] all.contains(name) by {
        let k = choose|k: int| 0 <= k < seen.len() && seen[k] == name;
        assert(all[k] == name);
    }
    assert forall|name: Seq<char>| #[trigger] all.contains(name) && !next.contains(
        name,
    ) implies seen.contains(name) by {
        let k = choose|k: int| 0 <= k < all.len() && all[k] == name;
        if k < seen.len() {
            assert(seen[k] == name);
        } else {
            assert(next[k - seen.len()] == name);
        }
    }
    assert forall|name: Seq<char>, follow: Seq<char>|
        (all.contains(name) || name == id) && !next.contains(name) && #[trigger] dependents_of(
            models,
            name,
        ).contains(follow) implies all.contains(follow) by {
        if level.contains(name) {
            let k = choose|k: int| 0 <= k < level.len() && level[k] == name;
            assert(dependents_of(models, level[k]).contains(follow));
        } else {
            assert(seen.contains(name) || name == id);
            assert(seen.contains(follow));
        }
    }
    assert forall|name: Seq<char>, near: nat|
        0 < near <= distance + 1 && #[trigger] depends_at(models, id, name, near) implies all.contains(
        name,
    ) by {
        if near <= distance {
            assert(seen.contains(name));
        } else {
            let previous = lemma_depends_back(models, id, name, near);
            if distance == 0 {
                let path = choose|path: Seq<Seq<char>>| #[trigger]
                    reader_path(models, path) && path.len() == 1 && path[0] == id && path.last()
                        == previous;
                assert(previous == id);
            } else {
                assert(seen.contains(previous));
            }
            if level.contains(previous) {
                let k = choose|k: int| 0 <= k < level.len() && level[k] == previous;
                assert(dependents_of(models, level[k]).contains(name));
            } else {
                assert(seen.contains(name));
            }
        }
    }
}

} // verus!
