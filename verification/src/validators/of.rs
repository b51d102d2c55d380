use crate::error;
use crate::error::states_model;
use crate::json::Json;
use crate::scope::Scope;
use crate::uri::{uri_views, Uri};
use crate::validators::{
    all_of_outcome, branch_exhausted, branch_missing, branch_states, branches, follow,
    follow_in, valid_count, validate_one, ValidationState, ValidatorModel,
};
use vstd::prelude::*;

verus! {

broadcast use {vstd::seq::group_seq_axioms, vstd::std_specs::vec::group_vec_axioms};

/// The value must match each of the schemas that `schemes` stand for.
#[derive(Debug)]
pub struct AllOf {
    pub schemes: Vec<Uri>,
}

/// The value must match one at least of the schemas that `schemes` stand for.
#[derive(Debug)]
pub struct AnyOf {
    pub schemes: Vec<Uri>,
}

/// The value must match one and only one of the schemas that `schemes` stand
/// for.
#[derive(Debug)]
pub struct OneOf {
    pub schemes: Vec<Uri>,
}

impl View for AllOf {
    type V = ValidatorModel;

    open spec fn view(&self) -> ValidatorModel {
        ValidatorModel::AllOf { schemes: uri_views(self.schemes@) }
    }
}

impl View for AnyOf {
    type V = ValidatorModel;

    open spec fn view(&self) -> ValidatorModel {
        ValidatorModel::AnyOf { schemes: uri_views(self.schemes@) }
    }
}

impl View for OneOf {
    type V = ValidatorModel;

    open spec fn view(&self) -> ValidatorModel {
        ValidatorModel::OneOf { schemes: uri_views(self.schemes@) }
    }
}

/// What the alternatives found, gathered as `anyOf` and `oneOf` need it.
pub struct Gathered {
    /// What each alternative that was followed found.
    pub states: Vec<ValidationState>,
    /// What the alternatives report as missing.
    pub missing: Vec<Uri>,
    /// How many alternatives found no violation.
    pub valid: usize,
    /// Whether one of the alternatives gave up on a reference.
    pub exhausted: bool,
}

/// One alternative more: the next of `schemes`, and `found`, what it found.
proof fn lemma_one_more(
    scope: crate::scope::ScopeModel,
    schemes: Seq<Seq<char>>,
    i: int,
    value: crate::json::JsonValue,
    path: Seq<char>,
    depth: nat,
)
    requires
        0 <= i < schemes.len(),
    ensures
        branches(scope, schemes.take(i + 1), value, path, depth) == branches(
            scope,
            schemes.take(i),
            value,
            path,
            depth,
        ).push(follow(scope, schemes[i], value, path, depth)),
        branches(scope, schemes.take(i), value, path, depth).len() == i,
    decreases i,
{
    assert(schemes.take(i + 1).drop_last() == schemes.take(i));
    if i > 0 {
        lemma_one_more(scope, schemes, i - 1, value, path, depth);
    }
}

/// Adds a copy of each of `src` behind `dst`.
fn append_copies(dst: &mut Vec<Uri>, src: &Vec<Uri>)
    ensures
        uri_views(final(dst)@) == uri_views(old(dst)@) + uri_views(src@),
{
    let mut i: usize = 0;
    while i < src.len()
        invariant
            i <= src.len(),
            uri_views(dst@) == uri_views(old(dst)@) + uri_views(src@).take(i as int),
        decreases src.len() - i,
    {
        let ghost before = dst@;
        dst.push(src[i].clone());
        proof {
            assert(uri_views(dst@) == uri_views(before).push(src[i as int]@));
            assert(uri_views(src@).take(i + 1) == uri_views(src@).take(i as int).push(
                src[i as int]@,
            ));
        }
        i = i + 1;
    }
    assert(uri_views(src@).take(src.len() as int) == uri_views(src@));
}

/// Follows each of `schemes` and gathers what they find.
fn gather(schemes: &Vec<Uri>, val: &Json, path: &str, scope: &Scope, depth: usize) -> (r: Gathered)
    ensures
        states_model(r.states) == branch_states(
            branches(scope@, uri_views(schemes@), val@, path@, depth as nat),
        ),
        uri_views(r.missing@) == branch_missing(
            uri_views(schemes@),
            branches(scope@, uri_views(schemes@), val@, path@, depth as nat),
        ),
        r.valid == valid_count(branches(scope@, uri_views(schemes@), val@, path@, depth as nat)),
        r.exhausted == branch_exhausted(
            branches(scope@, uri_views(schemes@), val@, path@, depth as nat),
        ),
    decreases depth, 0nat, 1nat,
{
    let ghost urls = uri_views(schemes@);
    let mut states: Vec<ValidationState> = Vec::new();
    let mut missing: Vec<Uri> = Vec::new();
    let mut valid: usize = 0;
    let mut exhausted = false;
    let mut i: usize = 0;
    while i < schemes.len()
        invariant
            i <= schemes.len(),
            urls == uri_views(schemes@),
            valid <= i,
            branches(scope@, urls.take(i as int), val@, path@, depth as nat).len() == i,
            states_model(states) == branch_states(
                branches(scope@, urls.take(i as int), val@, path@, depth as nat),
            ),
            uri_views(missing@) == branch_missing(
                urls.take(i as int),
                branches(scope@, urls.take(i as int), val@, path@, depth as nat),
            ),
            valid == valid_count(branches(scope@, urls.take(i as int), val@, path@, depth as nat)),
            exhausted == branch_exhausted(
                branches(scope@, urls.take(i as int), val@, path@, depth as nat),
            ),
        decreases schemes.len() - i,
    {
        let ghost before = branches(scope@, urls.take(i as int), val@, path@, depth as nat);
        let ghost after = branches(scope@, urls.take(i + 1), val@, path@, depth as nat);
        proof {
            lemma_one_more(scope@, urls, i as int, val@, path@, depth as nat);
            assert(after.drop_last() == before);
            assert(urls.take(i + 1).drop_last() == urls.take(i as int));
            assert(urls.take(i + 1).last() == schemes[i as int]@);
        }
        let ghost old_states = states_model(states);
        let ghost old_missing = uri_views(missing@);
        match follow_in(scope, &schemes[i], val, path, depth) {
            Some(state) => {
                if state.is_valid() {
                    valid = valid + 1;
                }
                append_copies(&mut missing, &state.missing);
                exhausted = exhausted || state.exhausted;
                states.push(state);
                proof {
                    assert(states_model(states) == old_states.push(state@));
                }
            },
            None => {
                missing.push(schemes[i].clone());
                proof {
                    assert(uri_views(missing@) == old_missing + seq![schemes[i as int]@]);
                }
            },
        }
        i = i + 1;
    }
    assert(urls.take(schemes.len() as int) == urls);
    Gathered { states, missing, valid, exhausted }
}

impl AllOf {
    /// Reports what each of the schemas finds of `val`, one after the other.
    pub fn validate(&self, val: &Json, path: &str, scope: &Scope, depth: usize) -> (r:
        ValidationState)
        ensures
            r@ == validate_one(scope@, self@, val@, path@, depth as nat),
        decreases depth, 1nat, 0nat,
    {
        let ghost urls = uri_views(self.schemes@);
        let mut state = ValidationState::new();
        let mut i: usize = 0;
        while i < self.schemes.len()
            invariant
                i <= self.schemes.len(),
                urls == uri_views(self.schemes@),
                branches(scope@, urls.take(i as int), val@, path@, depth as nat).len() == i,
                state@ == all_of_outcome(
                    urls.take(i as int),
                    branches(scope@, urls.take(i as int), val@, path@, depth as nat),
                ),
            decreases self.schemes.len() - i,
        {
            proof {
                lemma_one_more(scope@, urls, i as int, val@, path@, depth as nat);
                let after = branches(scope@, urls.take(i + 1), val@, path@, depth as nat);
                assert(after.drop_last() == branches(
                    scope@,
                    urls.take(i as int),
                    val@,
                    path@,
                    depth as nat,
                ));
                assert(urls.take(i + 1).drop_last() == urls.take(i as int));
                assert(urls.take(i + 1).last() == self.schemes[i as int]@);
            }
            let found = match follow_in(scope, &self.schemes[i], val, path, depth) {
                Some(found) => found,
                None => ValidationState::of_missing(self.schemes[i].clone()),
            };
            state.append(found);
            i = i + 1;
        }
        assert(urls.take(self.schemes.len() as int) == urls);
        state
    }
}

impl AnyOf {
    /// Reports no error where one of the schemas finds no violation in `val`,
    /// and else one `any_of` error that holds what each of them found.
    pub fn validate(&self, val: &Json, path: &str, scope: &Scope, depth: usize) -> (r:
        ValidationState)
        ensures
            r@ == validate_one(scope@, self@, val@, path@, depth as nat),
        decreases depth, 1nat, 0nat,
    {
        let gathered = gather(&self.schemes, val, path, scope, depth);
        let Gathered { states, missing, valid, exhausted } = gathered;
        let mut errors: Vec<error::ValidationError> = Vec::new();
        if valid < 1 {
            errors.push(error::ValidationError::AnyOf(error::AnyOf { path: path.to_string(), states }));
        }
        let r = ValidationState { errors, missing, exhausted };
        assert(r@.errors =~= validate_one(scope@, self@, val@, path@, depth as nat).errors);
        r
    }
}

impl OneOf {
    /// Reports no error where one of the schemas and no other finds no
    /// violation in `val`, and else one `one_of` error that holds what each of
    /// them found.
    pub fn validate(&self, val: &Json, path: &str, scope: &Scope, depth: usize) -> (r:
        ValidationState)
        ensures
            r@ == validate_one(scope@, self@, val@, path@, depth as nat),
        decreases depth, 1nat, 0nat,
    {
        let gathered = gather(&self.schemes, val, path, scope, depth);
        let Gathered { states, missing, valid, exhausted } = gathered;
        let mut errors: Vec<error::ValidationError> = Vec::new();
        if valid != 1 {
            errors.push(error::ValidationError::OneOf(error::OneOf { path: path.to_string(), states }));
        }
        let r = ValidationState { errors, missing, exhausted };
        assert(r@.errors =~= validate_one(scope@, self@, val@, path@, depth as nat).errors);
        r
    }
}

} // verus!
