//! JSON values.
use vstd::prelude::*;

verus! {

/// A JSON value.
#[verifier::external_type_specification]
#[verifier::external_body]
pub struct ExValue(serde_json::Value);

/// What `serde_json::from_str` makes of a text: a JSON value, or the text of the error.
pub uninterp spec fn json_parse(text: Seq<char>) -> Result<serde_json::Value, Seq<char>>;

/// What `serde_json::to_string_pretty` makes of a JSON value: a text, or the text of the error.
pub uninterp spec fn json_pretty(value: serde_json::Value) -> Result<Seq<char>, Seq<char>>;

/// What a JSON value is made of, one level deep.
pub uninterp spec fn json_node(value: serde_json::Value) -> JsonNode;

/// What a JSON value is made of, one level deep, as a value of the model.
pub enum JsonNode {
    Null,
    Bool(bool),
    /// A number, which is an integer unless it is held as a floating-point number.
    Number { is_float: bool },
    Text(Seq<char>),
    Array(Seq<serde_json::Value>),
    /// The keys and their values, in the order in which they are printed.
    Object(Seq<(Seq<char>, serde_json::Value)>),
}

/// What a JSON value is made of, one level deep.
pub enum JsonParts<'a> {
    Null,
    Bool(bool),
    /// A number, which is an integer unless it is held as a floating-point number.
    Number { is_float: bool },
    Text(&'a String),
    Array(&'a Vec<serde_json::Value>),
    /// The keys and their values, in the order in which they are printed.
    Object(Vec<(&'a String, &'a serde_json::Value)>),
}

impl<'a> View for JsonParts<'a> {
    type V = JsonNode;

    open spec fn view(&self) -> JsonNode {
        match *self {
            JsonParts::Null => JsonNode::Null,
            JsonParts::Bool(b) => JsonNode::Bool(b),
            JsonParts::Number { is_float } => JsonNode::Number { is_float },
            JsonParts::Text(text) => JsonNode::Text(text@),
            JsonParts::Array(items) => JsonNode::Array(items@),
            JsonParts::Object(entries) => JsonNode::Object(
                entries@.map_values(
                    |entry: (&'a String, &'a serde_json::Value)| (entry.0@, *entry.1),
                ),
            ),
        }
    }
}

/// The deepest nesting of arrays and objects that is read.
pub const MAX_DEPTH: u8 = 127;

/// The key that stands for text to be read once more, where an object starts with it.
pub const RESERVED_KEY: &'static str = "$serde_json::private::RawValue";

/// Whether a JSON value is read back as it was printed: it holds no floating-point number, no
/// object that starts with the reserved key, and arrays and objects no deeper than `depth`.
pub open spec fn reads_back(value: serde_json::Value, depth: nat) -> bool
    decreases depth,
{
    match json_node(value) {
        JsonNode::Number { is_float } => !is_float,
        JsonNode::Array(items) => if depth == 0 {
            false
        } else {
            forall|i: int|
                0 <= i < items.len() ==> reads_back(#[trigger] items[i], (depth - 1) as nat)
        },
        JsonNode::Object(entries) => if depth == 0 {
            false
        } else {
            &&& entries.len() > 0 ==> entries[0].0 != RESERVED_KEY@
            &&& forall|i: int|
                0 <= i < entries.len() ==> reads_back(
                    (#[trigger] entries[i]).1,
                    (depth - 1) as nat,
                )
        },
        _ => true,
    }
}

/// Whether a text is what a JSON value is printed as, with a line end.
pub open spec fn is_line_of(value: serde_json::Value, text: Seq<char>) -> bool {
    json_pretty(value) matches Ok(printed) && text == printed + "\n"@
}

/// The value of the model that parsed JSON stands for.
pub open spec fn json_result(r: Result<serde_json::Value, String>) -> Result<
    serde_json::Value,
    Seq<char>,
> {
    match r {
        Ok(value) => Ok(value),
        Err(error) => Err(error@),
    }
}

/// The value of the model that printed JSON stands for.
pub open spec fn printed_result(r: Result<String, String>) -> Result<Seq<char>, Seq<char>> {
    match r {
        Ok(text) => Ok(text@),
        Err(error) => Err(error@),
    }
}

/// Whether what was read from a text is the value that was printed there, where there is one that
/// is read back.
pub open spec fn gives_back(
    read: Result<serde_json::Value, Seq<char>>,
    text: Seq<char>,
) -> bool {
    forall|value: serde_json::Value|
        #[trigger] is_line_of(value, text) && reads_back(value, MAX_DEPTH as nat) ==> read == Ok::<
            serde_json::Value,
            Seq<char>,
        >(value)
}

/// Calls `serde_json::from_str`. The contract names what the text is taken for: a JSON value, or
/// the text of the error. It also says that a value that `serde_json::to_string_pretty` printed is
/// read back, with a line end behind it, unless it holds a floating-point number, which may come
/// back changed, an object that starts with the reserved key, which is taken for something else,
/// or arrays and objects that are nested too deep, which is an error.
#[verifier::external_body]
pub(crate) fn parse_json(text: &str) -> (r: Result<serde_json::Value, String>)
    ensures
        json_result(r) == json_parse(text@),
        gives_back(json_result(r), text@),
{
    serde_json::from_str(text).map_err(|error| error.to_string())
}

/// Calls `serde_json::to_string_pretty`. The contract names what is written for the value, and says
/// that there is always a text: a `serde_json::Value` has text keys only, and memory takes it all.
#[verifier::external_body]
pub(crate) fn print_json(value: &serde_json::Value) -> (r: Result<String, String>)
    ensures
        printed_result(r) == json_pretty(*value),
        r is Ok,
{
    serde_json::to_string_pretty(value).map_err(|error| error.to_string())
}

/// Tells the variants of `serde_json::Value` apart, with `serde_json::Number::is_f64` and
/// `serde_json::Map::iter` for what they hold. The contract names what the value is made of.
#[verifier::external_body]
fn open_json(value: &serde_json::Value) -> (parts: JsonParts<'_>)
    ensures
        parts@ == json_node(*value),
{
    match value {
        serde_json::Value::Null => JsonParts::Null,
        serde_json::Value::Bool(b) => JsonParts::Bool(*b),
        serde_json::Value::Number(n) => JsonParts::Number { is_float: n.is_f64() },
        serde_json::Value::String(text) => JsonParts::Text(text),
        serde_json::Value::Array(items) => JsonParts::Array(items),
        serde_json::Value::Object(entries) => JsonParts::Object(entries.iter().collect()),
    }
}

/// Tells whether a JSON value is read back as it was printed.
pub fn is_read_back(value: &serde_json::Value) -> (r: bool)
    ensures
        r == reads_back(*value, MAX_DEPTH as nat),
{
    is_read_back_within(value, MAX_DEPTH)
}

/// Tells whether a JSON value is read back as it was printed, `depth` levels deep at most.
fn is_read_back_within(value: &serde_json::Value, depth: u8) -> (r: bool)
    ensures
        r == reads_back(*value, depth as nat),
    decreases depth,
{
    match open_json(value) {
        JsonParts::Number { is_float } => !is_float,
        JsonParts::Array(items) => {
            if depth == 0 {
                return false;
            }
            let n: usize = items.len();
            let ghost views = items@;
            assert(json_node(*value) == JsonNode::Array(views));
            let mut i: usize = 0;
            while i < n
                invariant
                    depth > 0,
                    views == items@,
                    n == views.len(),
                    i <= n,
                    json_node(*value) == JsonNode::Array(views),
                    forall|k: int|
                        0 <= k < i ==> reads_back(#[trigger] views[k], (depth - 1) as nat),
                decreases n - i,
            {
                if !is_read_back_within(&items[i], depth - 1) {
                    let ghost held = json_node(*value)->Array_0;
                    assert(held[i as int] == views[i as int]);
                    assert(!reads_back(held[i as int], (depth - 1) as nat));
                    assert(!reads_back(*value, depth as nat));
                    return false;
                }
                i = i + 1;
            }
            proof {
                let held = json_node(*value)->Array_0;
                assert forall|k: int| 0 <= k < held.len() implies reads_back(
                    #[trigger] held[k],
                    (depth - 1) as nat,
                ) by {
                    assert(held[k] == views[k]);
                }
                assert(reads_back(*value, depth as nat));
            }
            true
        },
        JsonParts::Object(entries) => {
            if depth == 0 {
                return false;
            }
            let n: usize = entries.len();
            let ghost views = entries@.map_values(
                |entry: (&String, &serde_json::Value)| (entry.0@, *entry.1),
            );
            assert(json_node(*value) == JsonNode::Object(views));
            if n > 0 && crate::text::text_eq(entries[0].0.as_str(), RESERVED_KEY) {
                assert(views[0].0 == RESERVED_KEY@);
                return false;
            }
            let mut i: usize = 0;
            while i < n
                invariant
                    depth > 0,
                    n == entries@.len(),
                    n == views.len(),
                    i <= n,
                    json_node(*value) == JsonNode::Object(views),
                    forall|k: int|
                        0 <= k < n ==> #[trigger] views[k] == (entries@[k].0@, *entries@[k].1),
                    forall|k: int|
                        0 <= k < i ==> reads_back((#[trigger] views[k]).1, (depth - 1) as nat),
                decreases n - i,
            {
                if !is_read_back_within(entries[i].1, depth - 1) {
                    assert(!reads_back(views[i as int].1, (depth - 1) as nat));
                    return false;
                }
                i = i + 1;
            }
            assert(n > 0 ==> views[0].0 != RESERVED_KEY@);
            true
        },
        _ => true,
    }
}

/// What is read back: everything but floating-point numbers, arrays and objects of which a part is
/// not, objects that start with the reserved key, and what is nested deeper than 127 levels. What
/// is read back at some depth is read back at every greater one.
pub proof fn law_what_is_read_back(value: serde_json::Value, depth: nat)
    ensures
        MAX_DEPTH == 127,
        json_node(value) is Null || json_node(value) is Bool || json_node(value) is Text
            ==> reads_back(value, depth),
        json_node(value) matches JsonNode::Number { is_float } ==> (reads_back(value, depth)
            <==> !is_float),
        json_node(value) matches JsonNode::Array(items) ==> {
            &&& !reads_back(value, 0)
            &&& reads_back(value, depth + 1) <==> forall|i: int|
                0 <= i < items.len() ==> reads_back(#[trigger] items[i], depth)
        },
        json_node(value) matches JsonNode::Object(entries) ==> {
            &&& !reads_back(value, 0)
            &&& reads_back(value, depth + 1) <==> {
                &&& entries.len() > 0 ==> entries[0].0 != "$serde_json::private::RawValue"@
                &&& forall|i: int|
                    0 <= i < entries.len() ==> reads_back((#[trigger] entries[i]).1, depth)
            }
        },
        reads_back(value, depth) ==> reads_back(value, depth + 1),
    decreases depth,
{
    if depth > 0 {
        match json_node(value) {
            JsonNode::Array(items) => {
                assert forall|i: int| 0 <= i < items.len() && reads_back(
                    items[i],
                    (depth - 1) as nat,
                ) implies reads_back(#[trigger] items[i], depth) by {
                    law_what_is_read_back(items[i], (depth - 1) as nat);
                }
            },
            JsonNode::Object(entries) => {
                assert forall|i: int| 0 <= i < entries.len() && reads_back(
                    entries[i].1,
                    (depth - 1) as nat,
                ) implies reads_back((#[trigger] entries[i]).1, depth) by {
                    law_what_is_read_back(entries[i].1, (depth - 1) as nat);
                }
            },
            _ => {},
        }
    }
}

} // verus!
