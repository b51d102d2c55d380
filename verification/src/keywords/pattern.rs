use crate::json::{Json, JsonValue};
use crate::keywords::{KeywordResult, KeywordResultModel};
use crate::schema::{WalkContext, WalkModel};
use crate::validators;
use crate::validators::pattern::{regex_match, regex_matched};
use crate::validators::{Validator, ValidatorModel};
use vstd::prelude::*;

verus! {

/// The keyword `pattern`: a string matches the regular expression.
#[derive(Debug)]
pub struct Pattern;

/// Whether `pattern` is a regular expression: whether matching against it
/// gives an answer.
pub open spec fn is_regex(pattern: Seq<char>) -> bool {
    regex_matched(pattern, Seq::empty()) is Some
}

/// Whether `pattern` is a regular expression.
pub fn regex_is_valid(pattern: &str) -> (r: bool)
    ensures
        r == is_regex(pattern@),
{
    proof {
        reveal_strlit("");
        assert(""@ == Seq::<char>::empty());
    }
    regex_match(pattern, "").is_some()
}

impl Pattern {
    /// The check that the keyword stands for: none where `def` has no
    /// `pattern`; the regular expression that the member holds; an error
    /// where the member is no string or no regular expression.
    pub open spec fn compile_spec(def: JsonValue, ctx: WalkModel) -> KeywordResultModel {
        match def.get("pattern"@) {
            None => Ok(None),
            Some(JsonValue::String(pattern)) => if is_regex(pattern) {
                Ok(Some(ValidatorModel::Pattern { pattern }))
            } else {
                Err(ctx.malformed("The value of pattern MUST be a valid RegExp"@))
            },
            Some(_) => Err(ctx.malformed("The value of pattern MUST be a string"@)),
        }
    }

    /// Reads the keyword out of the node `def`, which stands at `ctx`.
    pub fn compile(&self, def: &Json, ctx: &WalkContext<'_>) -> (r: KeywordResult)
        ensures
            crate::keywords::result_view(r) == Self::compile_spec(def@, ctx@),
    {
        let pattern = match def.get("pattern") {
            Some(pattern) => pattern,
            None => {
                return Ok(None);
            },
        };
        match pattern.as_str() {
            Some(text) => {
                if regex_is_valid(text) {
                    Ok(
                        Some(
                            Validator::Pattern(
                                validators::pattern::Pattern { pattern: text.to_string() },
                            ),
                        ),
                    )
                } else {
                    Err(ctx.malformed("The value of pattern MUST be a valid RegExp"))
                }
            },
            None => Err(ctx.malformed("The value of pattern MUST be a string")),
        }
    }
}

} // verus!
