use crate::error;
use crate::json::Json;
use crate::primitive_types::PrimitiveType;
use crate::scope::Scope;
use crate::text::{join, views};
use crate::validators::{
    leaf_outcome, type_admits, type_detail, type_names, TypeKindModel, ValidationState,
    ValidatorModel,
};
use vstd::prelude::*;

verus! {

broadcast use vstd::seq::group_seq_axioms;

/// The kinds that a value may be of: one, or any of several.
#[derive(Debug)]
pub enum TypeKind {
    Single(PrimitiveType),
    AnyOf(Vec<PrimitiveType>),
}

impl View for TypeKind {
    type V = TypeKindModel;

    open spec fn view(&self) -> TypeKindModel {
        match self {
            TypeKind::Single(t) => TypeKindModel::Single(*t),
            TypeKind::AnyOf(set) => TypeKindModel::AnyOf(set@),
        }
    }
}

/// The value must be of one of the kinds of `item`.
#[derive(Debug)]
pub struct Type {
    pub item: TypeKind,
}

impl View for Type {
    type V = ValidatorModel;

    open spec fn view(&self) -> ValidatorModel {
        ValidatorModel::Type { item: self.item@ }
    }
}

impl TypeKind {
    /// Whether `val` is of one of the kinds.
    pub fn admits(&self, val: &Json) -> (r: bool)
        ensures
            r == type_admits(self@, val@),
    {
        match self {
            TypeKind::Single(t) => t.check(val),
            TypeKind::AnyOf(set) => {
                let mut i: usize = 0;
                while i < set.len()
                    invariant
                        i <= set.len(),
                        self@ == TypeKindModel::AnyOf(set@),
                        forall|k: int| 0 <= k < i ==> !(#[trigger] set[k]).admits(val@),
                    decreases set.len() - i,
                {
                    if set[i].check(val) {
                        assert(set@[i as int].admits(val@));
                        assert(crate::validators::admits_any(set@, val@));
                        return true;
                    }
                    i = i + 1;
                }
                false
            },
        }
    }

    /// What a `wrong_type` error says of the kinds.
    pub fn detail(&self) -> (r: String)
        ensures
            r@ == type_detail(self@),
    {
        match self {
            TypeKind::Single(t) => {
                let mut out = "The value must be ".to_string();
                out.append(t.name());
                out
            },
            TypeKind::AnyOf(set) => {
                let mut names: Vec<String> = Vec::new();
                let mut i: usize = 0;
                while i < set.len()
                    invariant
                        i <= set.len(),
                        views(names@) == type_names(set@).take(i as int),
                    decreases set.len() - i,
                {
                    let ghost prior = names@;
                    names.push(set[i].name().to_string());
                    proof {
                        assert(views(names@) == views(prior).push(set[i as int].name_spec()));
                        assert(type_names(set@).take(i + 1) == type_names(set@).take(i as int).push(
                            set[i as int].name_spec(),
                        ));
                    }
                    i = i + 1;
                }
                assert(type_names(set@).take(set.len() as int) == type_names(set@));
                let mut out = "The value must be any of: ".to_string();
                out.append(join(&names, ", ").as_str());
                out
            },
        }
    }
}

impl Type {
    /// Reports one `wrong_type` error, which names the kinds asked for,
    /// where `val` is of none of them.
    pub fn validate(&self, val: &Json, path: &str, _scope: &Scope) -> (r: ValidationState)
        ensures
            r@ == leaf_outcome(self@, val@, path@),
    {
        if self.item.admits(val) {
            ValidationState::new()
        } else {
            ValidationState::of_error(
                error::ValidationError::WrongType(
                    error::WrongType { path: path.to_string(), detail: self.item.detail() },
                ),
            )
        }
    }
}

} // verus!
