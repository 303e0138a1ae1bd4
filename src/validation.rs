//! Validation of submitted content against the schema that governs it.
use vstd::prelude::*;
use crate::api::{ApiError, ApiErrorView, PutConfigRequest};
use crate::engine::texts;
use crate::json::is_json_object;

verus! {

/// What checking `content` against `schema` finds: the violations (each
/// written as instance path and description), or why the schema itself
/// cannot be used.
pub uninterp spec fn schema_check(
    schema: serde_json::Value,
    content: serde_json::Value,
) -> Result<Seq<Seq<char>>, Seq<char>>;

/// Relies on jsonschema's `Validator::new`, which compiles a schema or
/// reports why it cannot, and `Validator::iter_errors`, which lists every
/// violation of a document; without remote reference resolution both depend
/// on the two values alone.
#[verifier::external_body]
fn check_against_schema(schema: &serde_json::Value, content: &serde_json::Value) -> (r: Result<
    Vec<String>,
    String,
>)
    ensures
        match r {
            Ok(v) => schema_check(*schema, *content) == Ok::<Seq<Seq<char>>, Seq<char>>(texts(v@)),
            Err(m) => schema_check(*schema, *content) == Err::<Seq<Seq<char>>, Seq<char>>(m@),
        },
{
    match jsonschema::Validator::new(schema) {
        Ok(validator) => Ok(
            validator.iter_errors(content).map(|e| format!("{}: {}", e.instance_path(), e)).collect(),
        ),
        Err(e) => Err(e.to_string()),
    }
}

/// The parts joined, with `sep` between each two.
pub open spec fn join(parts: Seq<Seq<char>>, sep: Seq<char>) -> Seq<char>
    decreases parts.len(),
{
    if parts.len() == 0 {
        Seq::empty()
    } else if parts.len() == 1 {
        parts[0]
    } else {
        join(parts.drop_last(), sep) + sep + parts.last()
    }
}

/// The parts joined, with `sep` between each two.
pub fn join_texts(parts: &Vec<String>, sep: &str) -> (r: String)
    ensures
        r@ == join(texts(parts@), sep@),
{
    let mut r = String::new();
    let mut i: usize = 0;
    while i < parts.len()
        invariant
            i <= parts@.len(),
            r@ == join(texts(parts@).take(i as int), sep@),
        decreases parts@.len() - i,
    {
        let ghost t = texts(parts@).take(i + 1);
        proof {
            assert(t.drop_last() =~= texts(parts@).take(i as int));
            assert(t.last() == parts@[i as int]@);
        }
        if i > 0 {
            r.append(sep);
        } else {
            proof {
                assert(r@ =~= Seq::<char>::empty());
            }
        }
        r.append(parts[i].as_str());
        proof {
            if i == 0 {
                assert(r@ =~= t[0]);
            }
        }
        i = i + 1;
    }
    proof {
        assert(texts(parts@).take(i as int) =~= texts(parts@));
    }
    r
}

/// The verdict on a write: the content must be a JSON object, the schema
/// usable, and the content free of violations, all of which are reported
/// together.
pub open spec fn verdict(content_is_object: bool, check: Result<Seq<Seq<char>>, Seq<char>>) -> Result<
    (),
    ApiErrorView,
> {
    if !content_is_object {
        Err(ApiErrorView::BadRequest("Content must be a JSON object"@))
    } else {
        match check {
            Err(m) => Err(ApiErrorView::BadRequest("Invalid schema: "@ + m)),
            Ok(v) => if v.len() == 0 {
                Ok(())
            } else {
                Err(ApiErrorView::BadRequest("Validation failed: "@ + join(v, ", "@)))
            },
        }
    }
}

/// The view of a validation outcome.
pub open spec fn api_outcome(r: Result<(), ApiError>) -> Result<(), ApiErrorView> {
    match r {
        Ok(()) => Ok(()),
        Err(e) => Err(e@),
    }
}

/// The verdict on a write, given whether the content is an object and what
/// checking it against the schema found.
pub fn validation_verdict(content_is_object: bool, check: Result<Vec<String>, String>) -> (r: Result<
    (),
    ApiError,
>)
    ensures
        api_outcome(r) == verdict(
            content_is_object,
            match check {
                Ok(v) => Ok(texts(v@)),
                Err(m) => Err(m@),
            },
        ),
{
    if !content_is_object {
        return Err(ApiError::BadRequest(String::from_str("Content must be a JSON object")));
    }
    match check {
        Err(m) => {
            let mut text = String::from_str("Invalid schema: ");
            text.append(m.as_str());
            Err(ApiError::BadRequest(text))
        },
        Ok(v) => {
            if v.len() == 0 {
                Ok(())
            } else {
                let mut text = String::from_str("Validation failed: ");
                let joined = join_texts(&v, ", ");
                text.append(joined.as_str());
                Err(ApiError::BadRequest(text))
            }
        },
    }
}

/// Checks the content of `request` against `schema`.
pub fn validate_request(request: &PutConfigRequest, schema: &serde_json::Value) -> (r: Result<
    (),
    ApiError,
>)
    ensures
        api_outcome(r) == verdict(
            is_json_object(request.content),
            schema_check(*schema, request.content),
        ),
{
    if !request.content.is_object() {
        return validation_verdict(false, Ok(Vec::new()));
    }
    let check = check_against_schema(schema, &request.content);
    validation_verdict(true, check)
}

} // verus!
