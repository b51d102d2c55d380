use crate::error;
use crate::json::{Json, Member};
use crate::scope::Scope;
use crate::table::Table;
use crate::uri::Uri;
use crate::validators::items::AdditionalKind;
use crate::validators::pattern::{regex_match, regex_matched};
use crate::validators::{
    any_pattern, followed, member_path_of, validate_member, validate_one, validate_patterns,
    validate_properties, PatternModel, ValidationState, ValidatorModel,
};
use vstd::prelude::*;

verus! {

broadcast use vstd::seq::group_seq_axioms;

/// A regular expression for names, and the schema for the members whose names
/// match it.
#[derive(Debug)]
pub struct PatternProperty {
    pub pattern: String,
    pub url: Uri,
}

impl View for PatternProperty {
    type V = PatternModel;

    open spec fn view(&self) -> PatternModel {
        PatternModel { pattern: self.pattern@, url: self.url@ }
    }
}

/// The models of a list of patterns.
pub open spec fn pattern_models(patterns: Seq<PatternProperty>) -> Seq<PatternModel> {
    patterns.map_values(|p: PatternProperty| p@)
}

/// The model of the schemas for the members, by name.
pub open spec fn property_urls(properties: Table<Uri>) -> Map<Seq<char>, Seq<char>> {
    Map::new(|k: Seq<char>| properties.has(k), |k: Seq<char>| properties.entries()[k]@)
}

/// Each member of an object must match the schema that `properties` has for
/// its name and the schemas of the `patterns` that its name matches; a member
/// that none of them speaks of must be as `additional` says.
#[derive(Debug)]
pub struct Properties {
    pub properties: Table<Uri>,
    pub additional: AdditionalKind,
    pub patterns: Vec<PatternProperty>,
}

impl View for Properties {
    type V = ValidatorModel;

    open spec fn view(&self) -> ValidatorModel {
        ValidatorModel::Properties {
            properties: property_urls(self.properties),
            additional: self.additional@,
            patterns: pattern_models(self.patterns@),
        }
    }
}

impl Properties {
    /// What the check finds of the one member `member`.
    fn validate_member(&self, member: &Member, path: &str, scope: &Scope, depth: usize) -> (r:
        ValidationState)
        ensures
            r@ == validate_member(
                scope@,
                property_urls(self.properties),
                self.additional@,
                pattern_models(self.patterns@),
                member@,
                path@,
                depth as nat,
            ),
        decreases depth, 0nat, self.patterns.len() + 2,
    {
        let ghost patterns = pattern_models(self.patterns@);
        let value_path = member_path_of(path, member.key.as_str());
        let mut state = ValidationState::new();
        let is_property_passed = match self.properties.get(member.key.as_str()) {
            Some(url) => {
                state.append(followed(scope, url, &member.value, value_path.as_str(), depth));
                true
            },
            None => false,
        };
        let ghost by_name = state@;
        proof {
            crate::validators::lemma_append_empty(by_name);
            crate::validators::lemma_append_empty(
                crate::validators::found_or_missing(
                    crate::validators::follow(
                        scope@,
                        property_urls(self.properties)[member.key@],
                        member.value@,
                        value_path@,
                        depth as nat,
                    ),
                    property_urls(self.properties)[member.key@],
                ),
            );
        }
        let mut is_pattern_passed = false;
        let mut i: usize = 0;
        while i < self.patterns.len()
            invariant
                i <= self.patterns.len(),
                patterns == pattern_models(self.patterns@),
                value_path@ == crate::validators::member_path(path@, member.key@),
                is_pattern_passed == any_pattern(patterns.take(i as int), member.key@),
                state@ == by_name.append(
                    validate_patterns(scope@, patterns, i as nat, member@, path@, depth as nat),
                ),
            decreases self.patterns.len() - i,
        {
            let ghost before = validate_patterns(
                scope@,
                patterns,
                i as nat,
                member@,
                path@,
                depth as nat,
            );
            let p = &self.patterns[i];
            assert(patterns[i as int] == p@);
            let matched = match regex_match(p.pattern.as_str(), member.key.as_str()) {
                Some(true) => true,
                _ => false,
            };
            proof {
                let shorter = patterns.take(i as int);
                let longer = patterns.take(i + 1);
                if any_pattern(shorter, member.key@) {
                    let k = choose|k: int|
                        0 <= k < shorter.len() && regex_matched(
                            (#[trigger] shorter[k]).pattern,
                            member.key@,
                        ) == Some(true);
                    assert(longer[k] == shorter[k]);
                }
                if matched {
                    assert(longer[i as int] == p@);
                }
                if any_pattern(longer, member.key@) {
                    let k = choose|k: int|
                        0 <= k < longer.len() && regex_matched(
                            (#[trigger] longer[k]).pattern,
                            member.key@,
                        ) == Some(true);
                    if k < i {
                        assert(shorter[k] == longer[k]);
                    }
                }
            }
            if matched {
                let found = followed(scope, &p.url, &member.value, value_path.as_str(), depth);
                proof {
                    crate::validators::lemma_append_associative(by_name, before, found@);
                }
                state.append(found);
                is_pattern_passed = true;
            }
            i = i + 1;
        }
        assert(patterns.take(self.patterns.len() as int) == patterns);
        if is_property_passed || is_pattern_passed {
            return state;
        }
        match &self.additional {
            AdditionalKind::Boolean(allowed) => {
                if *allowed {
                    ValidationState::new()
                } else {
                    ValidationState::of_error(
                        error::ValidationError::Properties(
                            error::Properties {
                                path: path.to_string(),
                                detail: "Additional properties are not allowed".to_string(),
                            },
                        ),
                    )
                }
            },
            AdditionalKind::Schema(url) => followed(
                scope,
                url,
                &member.value,
                value_path.as_str(),
                depth,
            ),
        }
    }

    /// Reports what the schemas find of the members of the object `val`,
    /// each under the path of the member, and one `properties` error for each
    /// member that is not allowed. Of a value that is no object it reports
    /// nothing.
    pub fn validate(&self, val: &Json, path: &str, scope: &Scope, depth: usize) -> (r:
        ValidationState)
        ensures
            r@ == validate_one(scope@, self@, val@, path@, depth as nat),
        decreases depth, 1nat, 0nat,
    {
        let object = match val.as_object() {
            Some(object) => object,
            None => {
                return ValidationState::new();
            },
        };
        let ghost members = val@.members();
        let mut state = ValidationState::new();
        let mut i: usize = 0;
        while i < object.len()
            invariant
                i <= object.len(),
                members == val@.members(),
                members.len() == object.len(),
                forall|k: int| 0 <= k < object.len() ==> members[k] == object[k]@,
                state@ == validate_properties(
                    scope@,
                    property_urls(self.properties),
                    self.additional@,
                    pattern_models(self.patterns@),
                    members,
                    i as nat,
                    path@,
                    depth as nat,
                ),
            decreases object.len() - i,
        {
            state.append(self.validate_member(&object[i], path, scope, depth));
            i = i + 1;
        }
        state
    }
}

} // verus!
