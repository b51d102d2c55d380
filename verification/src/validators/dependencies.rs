use crate::error;
use crate::json::Json;
use crate::scope::Scope;
use crate::text::views;
use crate::uri::Uri;
use crate::validators::required::Required;
use crate::validators::{
    followed, validate_dependencies, validate_one, DepKindModel, DependencyModel,
    StateModel, ValidationState, ValidatorModel,
};
use vstd::prelude::*;

verus! {

broadcast use vstd::seq::group_seq_axioms;

/// What the presence of a member asks for: that the object match a schema,
/// or that it have other members.
#[derive(Debug)]
pub enum DepKind {
    Schema(Uri),
    Property(Vec<String>),
}

/// A member, and what its presence asks for.
#[derive(Debug)]
pub struct Dependency {
    pub key: String,
    pub kind: DepKind,
}

impl View for DepKind {
    type V = DepKindModel;

    open spec fn view(&self) -> DepKindModel {
        match self {
            DepKind::Schema(url) => DepKindModel::Schema(url@),
            DepKind::Property(keys) => DepKindModel::Property(views(keys@)),
        }
    }
}

impl View for Dependency {
    type V = DependencyModel;

    open spec fn view(&self) -> DependencyModel {
        DependencyModel { key: self.key@, kind: self.kind@ }
    }
}

/// The models of a list of dependencies.
pub open spec fn dependency_models(items: Seq<Dependency>) -> Seq<DependencyModel> {
    items.map_values(|d: Dependency| d@)
}

/// Where an object has a member named in `items`, it must be as `items` says
/// for that member.
#[derive(Debug)]
pub struct Dependencies {
    pub items: Vec<Dependency>,
}

impl View for Dependencies {
    type V = ValidatorModel;

    open spec fn view(&self) -> ValidatorModel {
        ValidatorModel::Dependencies { items: dependency_models(self.items@) }
    }
}

/// One `required` error for each of `keys` that the object `val` has no
/// member for.
fn missing_members(keys: &Vec<String>, val: &Json, path: &str) -> (r: ValidationState)
    requires
        val@ is Object,
    ensures
        r@ == crate::validators::required_outcome(views(keys@), val@, path@),
{
    let mut state = ValidationState::new();
    let mut i: usize = 0;
    while i < keys.len()
        invariant
            i <= keys.len(),
            state@ == crate::validators::required_outcome(
                views(keys@).take(i as int),
                val@,
                path@,
            ),
        decreases keys.len() - i,
    {
        proof {
            let done = views(keys@).take(i + 1);
            assert(done.drop_last() == views(keys@).take(i as int));
            assert(done.last() == keys[i as int]@);
        }
        if val.get(keys[i].as_str()).is_none() {
            state.append(
                ValidationState::of_error(
                    error::ValidationError::Required(
                        error::Required {
                            path: crate::validators::member_path_of(path, keys[i].as_str()),
                        },
                    ),
                ),
            );
        } else {
            assert(state@.append(StateModel::empty()) == state@);
        }
        i = i + 1;
    }
    assert(views(keys@).take(keys.len() as int) == views(keys@));
    state
}

impl Dependencies {
    /// Reports, for each member named in `items` that the object `val` has,
    /// what the schema for it finds of `val`, or one `required` error for
    /// each member that is asked for and absent. Of a value that is no
    /// object it reports nothing.
    pub fn validate(&self, val: &Json, path: &str, scope: &Scope, depth: usize) -> (r:
        ValidationState)
        ensures
            r@ == validate_one(scope@, self@, val@, path@, depth as nat),
        decreases depth, 1nat, 0nat,
    {
        let mut state = ValidationState::new();
        if !val.is_object() {
            return state;
        }
        let ghost items = dependency_models(self.items@);
        let mut i: usize = 0;
        while i < self.items.len()
            invariant
                i <= self.items.len(),
                val@ is Object,
                items == dependency_models(self.items@),
                state@ == validate_dependencies(scope@, items, i as nat, val@, path@, depth as nat),
            decreases self.items.len() - i,
        {
            let item = &self.items[i];
            assert(items[i as int] == item@);
            if val.get(item.key.as_str()).is_some() {
                match &item.kind {
                    DepKind::Schema(url) => {
                        state.append(followed(scope, url, val, path, depth));
                    },
                    DepKind::Property(keys) => {
                        state.append(missing_members(keys, val, path));
                    },
                }
            }
            i = i + 1;
        }
        state
    }
}

} // verus!
