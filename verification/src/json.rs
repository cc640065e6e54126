//! JSON objects: their fields, and how they are read and printed.

use vstd::prelude::*;
use crate::text;

verus! {

/// A JSON object, carried through as it is.
#[verifier::external_type_specification]
#[verifier::external_body]
#[verifier::reject_recursive_types(K)]
#[verifier::reject_recursive_types(V)]
pub struct ExJsonObject<K, V>(serde_json::Map<K, V>);

/// A JSON value, carried through as it is.
#[verifier::external_type_specification]
#[verifier::external_body]
pub struct ExJsonValue(serde_json::Value);

/// What a field of a JSON object holds.
pub ghost enum FieldModel {
    Text(Seq<char>),
    /// Anything else, as it is printed.
    Other(Seq<char>),
}

/// The fields of a JSON object in their order, each with what it holds.
pub uninterp spec fn object_fields(
    object: serde_json::Map<String, serde_json::Value>,
) -> Seq<(Seq<char>, FieldModel)>;

/// The fields of the JSON object that a text spells: nothing where it spells
/// none.
pub uninterp spec fn parsed_fields(raw: Seq<char>) -> Option<Seq<(Seq<char>, FieldModel)>>;

/// How a JSON object with these fields is printed.
pub uninterp spec fn printed_object(fields: Seq<(Seq<char>, FieldModel)>) -> Seq<char>;

/// What the field `key` holds.
pub open spec fn value_at(fields: Seq<(Seq<char>, FieldModel)>, key: Seq<char>) -> Option<FieldModel>
    decreases fields.len(),
{
    if fields.len() == 0 {
        None
    } else if fields[0].0 == key {
        Some(fields[0].1)
    } else {
        value_at(fields.skip(1), key)
    }
}

/// The text that the field `key` holds, where it holds one.
pub open spec fn text_at(fields: Seq<(Seq<char>, FieldModel)>, key: Seq<char>) -> Option<Seq<char>> {
    match value_at(fields, key) {
        Some(FieldModel::Text(t)) => Some(t),
        _ => None,
    }
}

/// The fields with `value` at `key`: in the place of what it held, else behind
/// the others.
pub open spec fn with_field(
    fields: Seq<(Seq<char>, FieldModel)>,
    key: Seq<char>,
    value: FieldModel,
) -> Seq<(Seq<char>, FieldModel)>
    decreases fields.len(),
{
    if fields.len() == 0 {
        seq![(key, value)]
    } else if fields[0].0 == key {
        seq![(key, value)] + fields.skip(1)
    } else {
        seq![fields[0]] + with_field(fields.skip(1), key, value)
    }
}

/// Whether two objects have the same fields, and the same texts in them.
pub open spec fn have_same_texts(
    a: Seq<(Seq<char>, FieldModel)>,
    b: Seq<(Seq<char>, FieldModel)>,
) -> bool {
    &&& a.len() == b.len()
    &&& forall|i: int|
        0 <= i < a.len() ==> (#[trigger] a[i]).0 == b[i].0 && (a[i].1 is Text || b[i].1 is Text
            ==> a[i].1 == b[i].1)
}

/// The fields of an object, where there is one.
pub open spec fn opt_fields(
    object: Option<serde_json::Map<String, serde_json::Value>>,
) -> Option<Seq<(Seq<char>, FieldModel)>> {
    match object {
        Some(o) => Some(object_fields(o)),
        None => None,
    }
}

/// `serde_json::from_str` into a JSON value: the object that the text spells,
/// where it spells one. The empty object has no fields.
#[verifier::external_body]
pub(crate) fn parse_object(raw: &str) -> (r: Option<serde_json::Map<String, serde_json::Value>>)
    ensures
        opt_fields(r) == parsed_fields(raw@),
        raw@ == "{}\n"@ ==> r is Some && object_fields(r->0).len() == 0,
{
    match serde_json::from_str::<serde_json::Value>(raw) {
        Ok(serde_json::Value::Object(object)) => Some(object),
        _ => None,
    }
}

/// `serde_json::Map::get`: the text of the field `key`, where it holds one.
#[verifier::external_body]
pub(crate) fn field_text(object: &serde_json::Map<String, serde_json::Value>, key: &str) -> (r: Option<String>)
    ensures
        text::opt_text(r) == text_at(object_fields(*object), key@),
{
    match object.get(key) {
        Some(serde_json::Value::String(text)) => Some(text.clone()),
        _ => None,
    }
}

/// `serde_json::Map::insert`, which keeps the order of the fields: the text
/// `value` at `key`, and every other field as it was.
#[verifier::external_body]
pub(crate) fn put_text(object: &mut serde_json::Map<String, serde_json::Value>, key: &str, value: &str)
    ensures
        object_fields(*final(object)) == with_field(
            object_fields(*old(object)),
            key@,
            FieldModel::Text(value@),
        ),
{
    object.insert(key.to_string(), serde_json::Value::String(value.to_string()));
}

/// How a JSON object with these fields is printed on one line.
pub uninterp spec fn printed_line(fields: Seq<(Seq<char>, FieldModel)>) -> Seq<char>;

/// Whether every field holds a text.
pub open spec fn hold_texts(fields: Seq<(Seq<char>, FieldModel)>) -> bool {
    forall|i: int| 0 <= i < fields.len() ==> (#[trigger] fields[i]).1 is Text
}

/// Whether `s` stands on one line.
pub open spec fn is_one_line(s: Seq<char>) -> bool {
    forall|i: int| 0 <= i < s.len() ==> #[trigger] s[i] != '\n'
}

/// `serde_json::Map::new`: an object without fields.
#[verifier::external_body]
pub(crate) fn empty_object() -> (r: serde_json::Map<String, serde_json::Value>)
    ensures
        object_fields(r).len() == 0,
{
    serde_json::Map::new()
}

/// The `Display` of `serde_json::Value`, for an object: a function of its fields
/// and what they hold, on one line. Where every field holds a text, parsing the
/// printed text and a line feed gives the same fields.
#[verifier::external_body]
pub(crate) fn print_line(object: serde_json::Map<String, serde_json::Value>) -> (r: String)
    ensures
        r@ == printed_line(object_fields(object)),
        is_one_line(r@),
        hold_texts(object_fields(object)) ==> parsed_fields(r@ + "\n"@) == Some(
            object_fields(object),
        ),
{
    format!("{}", serde_json::Value::Object(object))
}

/// `serde_json::to_string_pretty` of an object: a function of its fields and
/// what they hold. Where the object was parsed and a text put into it, parsing
/// the printed text and a line feed gives its fields back, with the same texts.
/// Nothing is said of the other values then: the parser may round a fraction
/// anew.
#[verifier::external_body]
pub(crate) fn print_object(object: &serde_json::Map<String, serde_json::Value>) -> (r: String)
    ensures
        r@ == printed_object(object_fields(*object)),
        forall|raw: Seq<char>, key: Seq<char>, value: Seq<char>|
            parsed_fields(raw) is Some && object_fields(*object) == #[trigger] with_field(
                parsed_fields(raw)->0,
                key,
                FieldModel::Text(value),
            ) ==> parsed_fields(r@ + "\n"@) is Some && have_same_texts(
                parsed_fields(r@ + "\n"@)->0,
                object_fields(*object),
            ),
{
    serde_json::to_string_pretty(object).unwrap_or_default()
}

/// Setting a text keeps every other field, whatever it holds, and the text is
/// what its own field holds then.
pub proof fn law_setting_a_text_keeps_every_other_field(
    fields: Seq<(Seq<char>, FieldModel)>,
    key: Seq<char>,
    value: Seq<char>,
)
    ensures
        ({
            let set = with_field(fields, key, FieldModel::Text(value));
            &&& text_at(set, key) == Some(value)
            &&& forall|k: Seq<char>|
                k != key ==> #[trigger] value_at(set, k) == value_at(fields, k)
        }),
    decreases fields.len(),
{
    let set = with_field(fields, key, FieldModel::Text(value));
    if fields.len() == 0 {
        assert(set.skip(1) =~= fields);
        assert forall|k: Seq<char>| k != key implies #[trigger] value_at(set, k) == value_at(
            fields,
            k,
        ) by {
            assert(value_at(set.skip(1), k) is None);
        }
    } else {
        law_setting_a_text_keeps_every_other_field(fields.skip(1), key, value);
        if fields[0].0 == key {
            assert(set.skip(1) =~= fields.skip(1));
        } else {
            let rest = with_field(fields.skip(1), key, FieldModel::Text(value));
            assert(set.skip(1) =~= rest);
            assert forall|k: Seq<char>| k != key implies #[trigger] value_at(set, k) == value_at(
                fields,
                k,
            ) by {
                assert(value_at(rest, k) == value_at(fields.skip(1), k));
            }
        }
    }
}

/// Objects with the same texts hold the same text at every key.
pub proof fn lemma_same_texts(
    a: Seq<(Seq<char>, FieldModel)>,
    b: Seq<(Seq<char>, FieldModel)>,
    key: Seq<char>,
)
    requires
        have_same_texts(a, b),
    ensures
        text_at(a, key) == text_at(b, key),
    decreases a.len(),
{
    if a.len() > 0 {
        assert(a[0].0 == b[0].0);
        assert forall|i: int| 0 <= i < a.skip(1).len() implies (#[trigger] a.skip(1)[i]).0 == b.skip(
            1,
        )[i].0 && (a.skip(1)[i].1 is Text || b.skip(1)[i].1 is Text ==> a.skip(1)[i].1 == b.skip(
            1,
        )[i].1) by {
            assert(a.skip(1)[i] == a[i + 1]);
        }
        lemma_same_texts(a.skip(1), b.skip(1), key);
    }
}

/// What is looked up is the first field of its name, whatever stands behind it;
/// a name that no field has is not found.
pub proof fn law_the_first_field_of_a_name_is_found(
    fields: Seq<(Seq<char>, FieldModel)>,
    key: Seq<char>,
    i: int,
)
    requires
        0 <= i <= fields.len(),
        forall|j: int| 0 <= j < i ==> (#[trigger] fields[j]).0 != key,
    ensures
        i < fields.len() && fields[i].0 == key ==> value_at(fields, key) == Some(fields[i].1),
        i == fields.len() ==> value_at(fields, key) is None,
        value_at(fields, key) matches Some(FieldModel::Text(t)) ==> text_at(fields, key) == Some(t),
        !(value_at(fields, key) matches Some(FieldModel::Text(t))) ==> text_at(fields, key) is None,
    decreases fields.len(),
{
    if fields.len() > 0 && i > 0 {
        assert(fields[0].0 != key);
        let rest = fields.skip(1);
        assert forall|j: int| 0 <= j < i - 1 implies (#[trigger] rest[j]).0 != key by {
            assert(rest[j] == fields[j + 1]);
        }
        law_the_first_field_of_a_name_is_found(rest, key, i - 1);
    }
}

} // verus!
