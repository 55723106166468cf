//! Generated catalog endpoints and the database object each one targets.

use vstd::prelude::*;
use crate::error::{PlanError, PlanFailure};
use crate::json::JsonValue;
use crate::text::{
    CharClass, chars_of, leading_run_end, range_is, split, split_ranges, string_of, trailing_run_start,
    trim_matches, strip_leading,
};

verus! {

/// One generated catalog operation, as the endpoint store describes it.
pub struct EndpointRecord {
    pub operation_id: String,
    pub path: String,
    pub method: String,
    pub summary: Option<String>,
    pub description: Option<String>,
    pub input_schema: JsonValue,
    pub output_schema: JsonValue,
}

/// The catalog object that an endpoint path names.
#[derive(Debug, PartialEq, Eq)]
pub enum EndpointTarget {
    Relation { schema: String, name: String },
    Routine { schema: String, name: String },
}

/// The model of an `EndpointTarget`.
pub enum TargetModel {
    Relation { schema: Seq<char>, name: Seq<char> },
    Routine { schema: Seq<char>, name: Seq<char> },
}

impl View for EndpointTarget {
    type V = TargetModel;

    open spec fn view(&self) -> TargetModel {
        match self {
            EndpointTarget::Relation { schema, name } => TargetModel::Relation {
                schema: schema@,
                name: name@,
            },
            EndpointTarget::Routine { schema, name } => TargetModel::Routine {
                schema: schema@,
                name: name@,
            },
        }
    }
}

/// The target named by an endpoint path: with the surrounding `/` removed,
/// `relations/<schema>/<name>` or `routines/<schema>/<name>/<signature>`,
/// schema and name non-empty. Every other path is refused.
pub open spec fn endpoint_target(path: Seq<char>) -> Result<TargetModel, PlanFailure> {
    let parts = split(trim_matches(path, '/'), '/');
    if parts.len() == 3 && parts[0] == "relations"@ && parts[1].len() > 0 && parts[2].len() > 0 {
        Ok(TargetModel::Relation { schema: parts[1], name: parts[2] })
    } else if parts.len() == 4 && parts[0] == "routines"@ && parts[1].len() > 0 && parts[2].len()
        > 0 {
        Ok(TargetModel::Routine { schema: parts[1], name: parts[2] })
    } else {
        Err(PlanFailure::UnsupportedEndpointPath(path))
    }
}

/// `parse_endpoint_target`: the catalog object that a generated endpoint path
/// names.
pub fn parse_endpoint_target(path: &str) -> (r: Result<EndpointTarget, PlanError>)
    ensures
        match r {
            Ok(t) => endpoint_target(path@) == Ok::<TargetModel, PlanFailure>(t@),
            Err(e) => endpoint_target(path@) == Err::<TargetModel, PlanFailure>(e@),
        },
{
    let chars = chars_of(path);
    let slash = CharClass::Only('/');
    let a = leading_run_end(&chars, 0, chars.len(), &slash);
    let b = trailing_run_start(&chars, a, chars.len(), &slash);
    assert(chars@.subrange(0, chars@.len() as int) =~= path@);
    assert(trim_matches(path@, '/') == chars@.subrange(a as int, b as int));
    let ranges = split_ranges(&chars, a, b, '/');
    let ghost parts = split(trim_matches(path@, '/'), '/');
    assert(parts.len() == ranges@.len());
    if ranges.len() == 3 || ranges.len() == 4 {
        let (r0, r1) = ranges[0];
        let (s0, s1) = ranges[1];
        let (n0, n1) = ranges[2];
        assert(parts[0] == chars@.subrange(r0 as int, r1 as int));
        assert(parts[1] == chars@.subrange(s0 as int, s1 as int));
        assert(parts[2] == chars@.subrange(n0 as int, n1 as int));
        if s1 > s0 && n1 > n0 {
            if ranges.len() == 3 && range_is(&chars, r0, r1, "relations") {
                return Ok(
                    EndpointTarget::Relation {
                        schema: string_of(&chars, s0, s1),
                        name: string_of(&chars, n0, n1),
                    },
                );
            }
            if ranges.len() == 4 && range_is(&chars, r0, r1, "routines") {
                return Ok(
                    EndpointTarget::Routine {
                        schema: string_of(&chars, s0, s1),
                        name: string_of(&chars, n0, n1),
                    },
                );
            }
        }
    }
    Err(PlanError::UnsupportedEndpointPath(path.to_owned()))
}

} // verus!

verus! {

/// The path of a relation endpoint: `/relations/<schema>/<name>`.
pub open spec fn relation_path(schema: Seq<char>, name: Seq<char>) -> Seq<char> {
    "/relations/"@ + schema + seq!['/'] + name
}

/// The path of a routine endpoint: `/routines/<schema>/<name>/<signature>`.
pub open spec fn routine_path(schema: Seq<char>, name: Seq<char>, signature: Seq<char>) -> Seq<char> {
    "/routines/"@ + schema + seq!['/'] + name + seq!['/'] + signature
}

proof fn lemma_trim_path(word: Seq<char>, body: Seq<char>)
    requires
        word.len() > 0,
        word[0] != '/',
        body.len() > 0,
        body.last() != '/',
    ensures
        trim_matches(seq!['/'] + word + body, '/') == word + body,
{
    let p = seq!['/'] + word + body;
    let k = CharClass::Only('/');
    assert(p.drop_first() =~= word + body);
    assert((word + body)[0] == word[0]);
    assert(strip_leading(word + body, k) == word + body);
    assert(strip_leading(p, k) == word + body);
    assert((word + body).last() == body.last());
}

/// A relation path built from a schema and a name, both non-empty and free
/// of `/`, is parsed back into exactly that relation.
pub proof fn relation_path_round_trip(schema: Seq<char>, name: Seq<char>)
    requires
        schema.len() > 0,
        name.len() > 0,
        crate::text::lacks(schema, '/'),
        crate::text::lacks(name, '/'),
    ensures
        endpoint_target(relation_path(schema, name)) == Ok::<TargetModel, PlanFailure>(
            TargetModel::Relation { schema, name },
        ),
{
    reveal_strlit("/relations/");
    reveal_strlit("relations");
    let word = "relations"@;
    assert("/relations/"@ =~= seq!['/'] + word + seq!['/']);
    let body = seq!['/'] + schema + seq!['/'] + name;
    assert(relation_path(schema, name) =~= seq!['/'] + word + body);
    assert(body.last() == name.last());
    lemma_trim_path(word, body);
    assert(word + body =~= (word + seq!['/'] + schema) + seq!['/'] + name);
    crate::text::lemma_split_concat(word + seq!['/'] + schema, name, '/');
    crate::text::lemma_split_concat(word, schema, '/');
    crate::text::lemma_split_without_separator(word, '/');
    crate::text::lemma_split_without_separator(schema, '/');
    crate::text::lemma_split_without_separator(name, '/');
    let parts = split(trim_matches(relation_path(schema, name), '/'), '/');
    assert(parts =~= seq![word, schema, name]);
}

/// A routine path built from a schema, a name and a signature, all non-empty
/// and free of `/`, is parsed back into exactly that routine.
pub proof fn routine_path_round_trip(schema: Seq<char>, name: Seq<char>, signature: Seq<char>)
    requires
        schema.len() > 0,
        name.len() > 0,
        signature.len() > 0,
        crate::text::lacks(schema, '/'),
        crate::text::lacks(name, '/'),
        crate::text::lacks(signature, '/'),
    ensures
        endpoint_target(routine_path(schema, name, signature)) == Ok::<TargetModel, PlanFailure>(
            TargetModel::Routine { schema, name },
        ),
{
    reveal_strlit("/routines/");
    reveal_strlit("routines");
    reveal_strlit("relations");
    let word = "routines"@;
    assert("/routines/"@ =~= seq!['/'] + word + seq!['/']);
    let body = seq!['/'] + schema + seq!['/'] + name + seq!['/'] + signature;
    assert(routine_path(schema, name, signature) =~= seq!['/'] + word + body);
    assert(body.last() == signature.last());
    lemma_trim_path(word, body);
    assert(word + body =~= ((word + seq!['/'] + schema) + seq!['/'] + name) + seq!['/']
        + signature);
    crate::text::lemma_split_concat((word + seq!['/'] + schema) + seq!['/'] + name, signature, '/');
    crate::text::lemma_split_concat(word + seq!['/'] + schema, name, '/');
    crate::text::lemma_split_concat(word, schema, '/');
    crate::text::lemma_split_without_separator(word, '/');
    crate::text::lemma_split_without_separator(schema, '/');
    crate::text::lemma_split_without_separator(name, '/');
    crate::text::lemma_split_without_separator(signature, '/');
    let parts = split(trim_matches(routine_path(schema, name, signature), '/'), '/');
    assert(parts =~= seq![word, schema, name, signature]);
    assert(parts[0] != "relations"@ || parts.len() != 3);
}

} // verus!
