use crate::json::{Json, JsonValue};
use crate::keywords::{CustomKeyword, KeywordResult, KeywordResultModel};
use crate::schema::{WalkContext, WalkModel};
use crate::table::Table;
use crate::validators;
use crate::validators::{Validator, ValidatorModel};
use vstd::prelude::*;

verus! {

broadcast use vstd::seq::group_seq_axioms;

/// A format: one that the library can check, or one of the caller's own
/// making, which is given as the keyword that reads it.
pub enum FormatKind {
    /// A date and time as RFC 3339 writes them.
    DateTime,
    /// A format of the caller's own making.
    Custom(Box<dyn CustomKeyword>),
}

/// For each name of a format, the format.
pub type FormatBuilders = Table<FormatKind>;

/// The formats that are known under a name from the start: `date-time`.
pub open spec fn default_formats_spec() -> Map<Seq<char>, FormatKind> {
    Map::empty().insert("date-time"@, FormatKind::DateTime)
}

/// The formats that are known under a name from the start.
fn default_formats() -> (r: FormatBuilders)
    ensures
        r.entries() == default_formats_spec(),
{
    let mut map: FormatBuilders = Table::new();
    map.insert("date-time".to_string(), FormatKind::DateTime);
    map
}

impl FormatKind {
    /// What the format gives for the node `def`, which names it: the check
    /// of a format of the library, and whatever a format of the caller's own
    /// making gives.
    pub open spec fn compiled(self, def: JsonValue, ctx: WalkModel) -> KeywordResultModel {
        match self {
            FormatKind::DateTime => Ok(Some(ValidatorModel::DateTime)),
            FormatKind::Custom(k) => k.compiled(def, ctx),
        }
    }

    /// What the format gives for the node `def`, which names it.
    pub fn compile(&self, def: &Json, ctx: &WalkContext<'_>) -> (r: KeywordResult)
        ensures
            crate::keywords::result_view(r) == self.compiled(def@, ctx@),
    {
        match self {
            FormatKind::DateTime => Ok(Some(Validator::DateTime(validators::formats::DateTime))),
            FormatKind::Custom(k) => k.compile(def, ctx),
        }
    }
}

/// Whether every format of `formats` is one of the library's own.
pub open spec fn formats_are_built_in(formats: Map<Seq<char>, FormatKind>) -> bool {
    forall|name: Seq<char>| #[trigger] formats.dom().contains(name) ==> formats[name] is DateTime
}

/// The keyword `format`: a string is written in the format that the schema
/// names.
pub struct Format {
    pub formats: FormatBuilders,
}

impl Format {
    /// The check that the keyword stands for: none where `def` has no
    /// `format` or names a format that is not known; what the format that it
    /// names gives; an error where the member is no string.
    pub open spec fn compile_spec(
        formats: Map<Seq<char>, FormatKind>,
        def: JsonValue,
        ctx: WalkModel,
    ) -> KeywordResultModel {
        match def.get("format"@) {
            None => Ok(None),
            Some(JsonValue::String(name)) => if formats.dom().contains(name) {
                formats[name].compiled(def, ctx)
            } else {
                Ok(None)
            },
            Some(_) => Err(ctx.malformed("The value of format must be a string"@)),
        }
    }

    /// The keyword with the formats that are known from the start.
    pub fn new() -> (r: Format)
        ensures
            r.formats.entries() == default_formats_spec(),
    {
        Format { formats: default_formats() }
    }

    /// The keyword with the formats that are known from the start and, under
    /// the names of `more`, the formats of `more`. A later name takes the
    /// place of an earlier one.
    pub fn with(more: Vec<(String, FormatKind)>) -> (r: Format)
        ensures
            r.formats.entries() == with_formats_spec(default_formats_spec(), more@),
    {
        let mut formats = default_formats();
        let mut rest = more;
        let mut turned: Vec<(String, FormatKind)> = Vec::new();
        while rest.len() > 0
            invariant
                rest.len() + turned.len() == more.len(),
                rest@ == more@.take(rest.len() as int),
                forall|j: int| 0 <= j < turned.len() ==> turned[j] == more[more.len() - 1 - j],
            decreases rest.len(),
        {
            match rest.pop() {
                Some(entry) => {
                    turned.push(entry);
                },
                None => {},
            }
        }
        while turned.len() > 0
            invariant
                turned.len() <= more.len(),
                forall|j: int| 0 <= j < turned.len() ==> turned[j] == more[more.len() - 1 - j],
                formats.entries() == with_formats_spec(
                    default_formats_spec(),
                    more@.take(more.len() - turned.len()),
                ),
            decreases turned.len(),
        {
            let ghost i = more.len() - turned.len();
            proof {
                assert(more@.take(i + 1).drop_last() == more@.take(i));
                assert(more@.take(i + 1).last() == more[i]);
            }
            match turned.pop() {
                Some(entry) => {
                    assert(entry == more[i]);
                    formats.insert(entry.0, entry.1);
                },
                None => {},
            }
        }
        assert(more@.take(more.len() as int) == more@);
        Format { formats }
    }

    /// Reads the keyword out of the node `def`, which stands at `ctx`.
    pub fn compile(&self, def: &Json, ctx: &WalkContext<'_>) -> (r: KeywordResult)
        ensures
            crate::keywords::result_view(r) == Self::compile_spec(self.formats.entries(), def@, ctx@),
    {
        let format = match def.get("format") {
            Some(format) => format,
            None => {
                return Ok(None);
            },
        };
        match format.as_str() {
            Some(name) => match self.formats.get(name) {
                Some(kind) => kind.compile(def, ctx),
                None => Ok(None),
            },
            None => Err(ctx.malformed("The value of format must be a string")),
        }
    }
}

/// `formats` with each name of `more` bound to its format, the later over the
/// earlier.
pub open spec fn with_formats_spec(
    formats: Map<Seq<char>, FormatKind>,
    more: Seq<(String, FormatKind)>,
) -> Map<Seq<char>, FormatKind>
    decreases more.len(),
{
    if more.len() == 0 {
        formats
    } else {
        with_formats_spec(formats, more.drop_last()).insert(more.last().0@, more.last().1)
    }
}

} // verus!
