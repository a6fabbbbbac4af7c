//! The change set behind the `changed` selector.
//!
//! A model counts as changed when no version is recorded for the environment,
//! or when the recorded version or target differs from the desired one.
//! Because dependency versions are a version input, a model whose upstream
//! moved shows up changed without further ado.

use vstd::prelude::*;

use crate::names::{with_members, NameMap, NameSet};
use crate::seqs::{gather, lemma_gather_ends, lemma_gather_step};
use crate::state::{MaterializedRecord, MaterializedRecordView};
use crate::text::{none_of, put, same};
use crate::workspace::{
    relation_text, Compilation, CompiledModel, CompiledModelView, Materialization,
};

verus! {

/// Whether a model has changed against what is recorded for it; `recorded`
/// holds the records of one environment by model name, and is absent where
/// there is no state store.
pub open spec fn has_changed(
    model: CompiledModelView,
    recorded: Option<Seq<(Seq<char>, MaterializedRecordView)>>,
) -> bool {
    model.config.materialization != Materialization::Ephemeral && match recorded {
        None => true,
        Some(records) => match crate::names::named(records, model.id) {
            None => true,
            Some(record) => record.version.hash != model.version.hash || record.target
                != relation_text(model.target),
        },
    }
}

/// Keeps the name of a model that has changed.
pub open spec fn if_changed(
    recorded: Option<Seq<(Seq<char>, MaterializedRecordView)>>,
) -> spec_fn(CompiledModelView) -> Seq<Seq<char>> {
    |model: CompiledModelView|
        if has_changed(model, recorded) {
            seq![model.id]
        } else {
            Seq::empty()
        }
}

fn changed_names(models: &Vec<CompiledModel>, recorded: &Option<NameMap<MaterializedRecord>>) -> (r:
    Vec<String>)
    ensures
        r.deep_view() == gather(models.deep_view(), if_changed(recorded.deep_view())),
{
    let ghost views = models.deep_view();
    let ghost f = if_changed(recorded.deep_view());
    proof {
        lemma_gather_ends(views, f);
    }
    let mut r: Vec<String> = none_of();
    for i in 0..models.len()
        invariant
            views == models.deep_view(),
            f == if_changed(recorded.deep_view()),
            r.deep_view() == gather(views.take(i as int), f),
    {
        proof {
            lemma_gather_step(views, i as int, f);
        }
        let ghost before = r.deep_view();
        let model: &CompiledModel = &models[i];
        assert(views[i as int] == model.deep_view());
        if model.config.materialization != Materialization::Ephemeral {
            let changed: bool = match recorded {
                None => true,
                Some(records) => match records.get(model.id.as_str()) {
                    None => true,
                    Some(record) => !same(
                        record.version.hash.as_str(),
                        model.version.hash.as_str(),
                    ) || !same(record.target.as_str(), model.target.display().as_str()),
                },
            };
            if changed {
                put(&mut r, model.id.clone());
            }
        }
        assert(r.deep_view() =~= before + f(views[i as int]));
    }
    r
}

/// Models whose desired version differs from the version recorded for an
/// environment: the meaning of the `changed` selector.
///
/// Ephemeral models are never materialised, so they have no recorded version
/// to compare against and are skipped entirely. With no state store, nothing
/// can be proven unchanged, so every other model is reported changed. Models
/// are returned in name order.
pub fn changed_models(
    compilation: &Compilation,
    recorded: &Option<NameMap<MaterializedRecord>>,
) -> (r: NameSet)
    ensures
        r.deep_view() == with_members(
            Seq::empty(),
            gather(compilation.deep_view().models, if_changed(recorded.deep_view())),
        ),
{
    let mut r: NameSet = NameSet::new();
    r.extend(&changed_names(&compilation.models, recorded));
    r
}

/// Without a state store every model that is not ephemeral has changed.
pub proof fn law_without_state_everything_changed(model: CompiledModelView)
    ensures
        has_changed(model, None) <==> model.config.materialization != Materialization::Ephemeral,
{
}

} // verus!
