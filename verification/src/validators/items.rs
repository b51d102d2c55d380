use crate::error;
use crate::json::Json;
use crate::scope::Scope;
use crate::uri::{uri_views, Uri};
use crate::validators::{
    element_path_of, followed, followed_elements, least, paired,
    validate_elements, validate_one, AdditionalKindModel, ItemsKindModel, StateModel,
    ValidationState, ValidatorModel,
};
use vstd::prelude::*;

verus! {

broadcast use vstd::seq::group_seq_axioms;

/// The schema for the elements of an array: one for all of them, or one for
/// each place.
#[derive(Debug)]
pub enum ItemsKind {
    Schema(Uri),
    Array(Vec<Uri>),
}

/// What holds of what nothing else speaks of: it is allowed or not, or must
/// match a schema.
#[derive(Debug)]
pub enum AdditionalKind {
    Boolean(bool),
    Schema(Uri),
}

impl View for ItemsKind {
    type V = ItemsKindModel;

    open spec fn view(&self) -> ItemsKindModel {
        match self {
            ItemsKind::Schema(url) => ItemsKindModel::Schema(url@),
            ItemsKind::Array(urls) => ItemsKindModel::Array(uri_views(urls@)),
        }
    }
}

impl View for AdditionalKind {
    type V = AdditionalKindModel;

    open spec fn view(&self) -> AdditionalKindModel {
        match self {
            AdditionalKind::Boolean(b) => AdditionalKindModel::Boolean(*b),
            AdditionalKind::Schema(url) => AdditionalKindModel::Schema(url@),
        }
    }
}

/// The elements of an array must match the schemas of `items`, and those
/// that `items` has no schema for must be as `additional` says.
#[derive(Debug)]
pub struct Items {
    pub items: Option<ItemsKind>,
    pub additional: Option<AdditionalKind>,
}

impl View for Items {
    type V = ValidatorModel;

    open spec fn view(&self) -> ValidatorModel {
        ValidatorModel::Items {
            items: match self.items {
                Some(k) => Some(k@),
                None => None,
            },
            additional: match self.additional {
                Some(k) => Some(k@),
                None => None,
            },
        }
    }
}

/// Validates the elements of `array` from the place `from` on against the
/// schema that `url` stands for.
pub fn follow_elements(
    scope: &Scope,
    url: &Uri,
    array: &Vec<Json>,
    from: usize,
    path: &str,
    depth: usize,
) -> (r: ValidationState)
    ensures
        r@ == followed_elements(
            scope@,
            url@,
            crate::validators::json_models(array@),
            from as nat,
            path@,
            depth as nat,
        ),
    decreases depth, 0nat, 0nat,
{
    let schema = match scope.resolve(url) {
        Some(schema) => schema,
        None => {
            return ValidationState::of_missing(url.clone());
        },
    };
    if depth == 0 {
        return ValidationState::ran_out();
    }
    let ghost a = crate::validators::json_models(array@);
    let ghost node = schema.node();
    let mut state = ValidationState::new();
    if from >= array.len() {
        return state;
    }
    let mut i: usize = from;
    while i < array.len()
        invariant
            from <= i <= array.len(),
            depth > 0,
            a == crate::validators::json_models(array@),
            schema.node() == node,
            schema.scope_model() == scope@,
            state@ == validate_elements(
                scope@,
                node,
                a,
                from as nat,
                i as nat,
                path@,
                (depth - 1) as nat,
            ),
        decreases array.len() - i,
    {
        let item_path = element_path_of(path, i);
        let found = schema.validate_within(&array[i], item_path.as_str(), depth - 1);
        proof {
            assert(a[i as int] == array[i as int]@);
            assert(validate_elements(
                scope@,
                node,
                a,
                from as nat,
                (i + 1) as nat,
                path@,
                (depth - 1) as nat,
            ) == validate_elements(
                scope@,
                node,
                a,
                from as nat,
                i as nat,
                path@,
                (depth - 1) as nat,
            ).append(found@));
        }
        state.append(found);
        i = i + 1;
    }
    state
}

impl Items {
    /// Reports what the schemas find of the elements of the array `val`,
    /// each under the path of its place, and one `items` error where the
    /// array has elements that are not allowed. Of a value that is no array
    /// it reports nothing.
    pub fn validate(&self, val: &Json, path: &str, scope: &Scope, depth: usize) -> (r:
        ValidationState)
        ensures
            r@ == validate_one(scope@, self@, val@, path@, depth as nat),
        decreases depth, 1nat, 0nat,
    {
        let array = match val.as_array() {
            Some(array) => array,
            None => {
                return ValidationState::new();
            },
        };
        let ghost a = val@.elements();
        assert(a == crate::validators::json_models(array@));
        match &self.items {
            Some(ItemsKind::Schema(url)) => follow_elements(scope, url, array, 0, path, depth),
            Some(ItemsKind::Array(urls)) => {
                let min = if urls.len() <= array.len() {
                    urls.len()
                } else {
                    array.len()
                };
                let ghost targets = uri_views(urls@);
                let mut state = ValidationState::new();
                let mut idx: usize = 0;
                while idx < min
                    invariant
                        idx <= min,
                        min == least(urls.len() as nat, array.len() as nat),
                        targets == uri_views(urls@),
                        a == crate::validators::json_models(array@),
                        state@ == paired(scope@, targets, a, idx as nat, path@, depth as nat),
                    decreases min - idx,
                {
                    let item_path = element_path_of(path, idx);
                    state.append(followed(scope, &urls[idx], &array[idx], item_path.as_str(), depth));
                    idx = idx + 1;
                }
                if array.len() > urls.len() {
                    match &self.additional {
                        Some(AdditionalKind::Boolean(allow)) => {
                            if !*allow {
                                state.append(
                                    ValidationState::of_error(
                                        error::ValidationError::Items(
                                            error::Items {
                                                path: path.to_string(),
                                                detail: "Additional items are not allowed".to_string(),
                                            },
                                        ),
                                    ),
                                );
                            } else {
                                assert(state@.append(StateModel::empty()) == state@);
                            }
                        },
                        Some(AdditionalKind::Schema(url)) => {
                            state.append(
                                follow_elements(scope, url, array, urls.len(), path, depth),
                            );
                        },
                        None => {
                            assert(state@.append(StateModel::empty()) == state@);
                        },
                    }
                } else {
                    assert(state@.append(StateModel::empty()) == state@);
                }
                state
            },
            None => ValidationState::new(),
        }
    }
}

} // verus!
