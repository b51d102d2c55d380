use crate::json::Json;
use crate::scope::Scope;
use crate::uri::Uri;
use crate::validators::{
    name_path, validate_members, validate_one, ValidationState, ValidatorModel,
};
use vstd::prelude::*;

verus! {

broadcast use vstd::seq::group_seq_axioms;

/// The members of an object must match the schema that `url` stands for.
#[derive(Debug)]
pub struct PropertyNames {
    pub url: Uri,
}

impl View for PropertyNames {
    type V = ValidatorModel;

    open spec fn view(&self) -> ValidatorModel {
        ValidatorModel::PropertyNames { url: self.url@ }
    }
}

impl PropertyNames {
    /// Reports what the schema at `url` finds of the value of each member of
    /// the object `val`, under the path of that member's name. Where the
    /// scope has no such schema, it reports no error and `url` as missing;
    /// where it has one and `depth` is used up, it reports that alone. Of a
    /// value that is no object it reports nothing.
    pub fn validate(&self, val: &Json, path: &str, scope: &Scope, depth: usize) -> (r:
        ValidationState)
        ensures
            r@ == validate_one(scope@, self@, val@, path@, depth as nat),
        decreases depth, 1nat, 0nat,
    {
        let object = match val.as_object() {
            Some(object) => object,
            None => {
                return ValidationState::new();
            },
        };
        let schema = match scope.resolve(&self.url) {
            Some(schema) => schema,
            None => {
                return ValidationState::of_missing(self.url.clone());
            },
        };
        if depth == 0 {
            return ValidationState::ran_out();
        }
        let ghost members = val@.members();
        let ghost node = schema.node();
        let mut state = ValidationState::new();
        let mut i: usize = 0;
        while i < object.len()
            invariant
                i <= object.len(),
                depth > 0,
                members == val@.members(),
                members.len() == object.len(),
                forall|k: int| 0 <= k < object.len() ==> members[k] == object[k]@,
                schema.node() == node,
                schema.scope_model() == scope@,
                state@ == validate_members(
                    scope@,
                    node,
                    members.take(i as int),
                    path@,
                    (depth - 1) as nat,
                ),
            decreases object.len() - i,
        {
            proof {
                let done = members.take(i + 1);
                assert(done.drop_last() == members.take(i as int));
                assert(done.last() == object[i as int]@);
            }
            let key = &object[i].key;
            let mut item_path = path.to_string();
            item_path.append("/");
            item_path.append("[");
            item_path.append(key.as_str());
            item_path.append("]");
            proof {
                reveal_strlit("/");
                reveal_strlit("[");
                reveal_strlit("]");
                assert(item_path@ == name_path(path@, key@));
            }
            state.append(schema.validate_within(&object[i].value, item_path.as_str(), depth - 1));
            i = i + 1;
        }
        assert(members.take(object.len() as int) == members);
        state
    }
}

} // verus!
