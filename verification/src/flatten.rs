//! Flattening: a parsed payload becomes an ordered list of pairs, one for
//! each scalar leaf, of the leaf's path and its text.

use crate::json::{
    array_view_is_itemwise, json_parse, object_view_is_memberwise, option_view, parse_json,
    FloatText, FloatTextView, JsonNumber, JsonNumberView, JsonValue, JsonView,
};
use crate::text::{decimal_of_i64, decimal_of_u64, decimal_text, has_char};
use vstd::prelude::*;

verus! {

/// The path of a member: the path of what holds it, a `/`, and the member's
/// key or index.
pub open spec fn child_path(parent: Seq<char>, key: Seq<char>) -> Seq<char> {
    parent + seq!['/'] + key
}

/// The number of decimal places that a whole float is rendered with: one,
/// as in `3.0`.
pub const WHOLE_FLOAT_PLACES: u8 = 1;

/// What reading `payload` as JSON gives, its floats rendered as the
/// flattening wants them.
pub open spec fn read_payload(payload: Seq<char>) -> Option<JsonView> {
    json_parse(payload, WHOLE_FLOAT_PLACES)
}

/// The text of a float: its default text where that shows a fractional
/// part, and else, for a whole value, its text with the fixed number of
/// decimal places.
pub open spec fn float_text(f: FloatTextView) -> Seq<char> {
    if f.shortest.contains('.') {
        f.shortest
    } else {
        f.fixed
    }
}

/// The text of a number: the decimal text of an integer, signed before
/// unsigned, and else the text of the float.
pub open spec fn number_text(n: JsonNumberView) -> Seq<char> {
    if n.signed is Some {
        decimal_text(n.signed->0 as int)
    } else if n.unsigned is Some {
        decimal_text(n.unsigned->0 as int)
    } else if n.float is Some {
        float_text(n.float->0)
    } else {
        "null"@
    }
}

/// The text of a scalar leaf: a string as it is, without quotes; a boolean
/// as `true` or `false`; a number by [`number_text`]; null as `null`.
pub open spec fn scalar_text(v: JsonView) -> Seq<char> {
    match v {
        JsonView::Str(s) => s,
        JsonView::Bool(b) => if b {
            "true"@
        } else {
            "false"@
        },
        JsonView::Number(n) => number_text(n),
        _ => "null"@,
    }
}

/// The pairs of the value `v` that stands at `path`: for a scalar the one
/// pair of `path` and its text; for an object the pairs of its members, in
/// their order, each under the path of its key; for an array the pairs of
/// its items, each under the path of its index.
pub open spec fn entries(v: JsonView, path: Seq<char>) -> Seq<(Seq<char>, Seq<char>)>
    decreases v, 0nat,
{
    match v {
        JsonView::Object(members) => member_entries(members, path, members.len()),
        JsonView::Array(items) => item_entries(items, path, items.len()),
        _ => seq![(path, scalar_text(v))],
    }
}

/// The pairs of the first `count` members of an object at `path`.
pub open spec fn member_entries(
    members: Seq<(Seq<char>, JsonView)>,
    path: Seq<char>,
    count: nat,
) -> Seq<(Seq<char>, Seq<char>)>
    decreases members, count,
{
    if count == 0 || count > members.len() {
        Seq::empty()
    } else {
        member_entries(members, path, (count - 1) as nat) + entries(
            members[count - 1].1,
            child_path(path, members[count - 1].0),
        )
    }
}

/// The pairs of the first `count` items of an array at `path`.
pub open spec fn item_entries(items: Seq<JsonView>, path: Seq<char>, count: nat) -> Seq<
    (Seq<char>, Seq<char>),
>
    decreases items, count,
{
    if count == 0 || count > items.len() {
        Seq::empty()
    } else {
        item_entries(items, path, (count - 1) as nat) + entries(
            items[count - 1],
            child_path(path, decimal_text(count - 1)),
        )
    }
}

/// What flattening `v` under `prefix` yields: the pairs of an object or an
/// array, and nothing for a scalar.
pub open spec fn flattened(v: JsonView, prefix: Seq<char>) -> Seq<(Seq<char>, Seq<char>)> {
    if v.is_container() {
        entries(v, prefix)
    } else {
        Seq::empty()
    }
}

/// The candidates of a message whose payload has been read: the pairs of
/// the payload where expansion is enabled and the payload is an object, and
/// else the one pair of the topic and the payload as it came.
pub open spec fn flatten_outcome(
    topic: Seq<char>,
    payload: Seq<char>,
    enabled: bool,
    parsed: Option<JsonView>,
) -> Seq<(Seq<char>, Seq<char>)> {
    if enabled && parsed is Some && parsed->0 is Object {
        entries(parsed->0, topic)
    } else {
        seq![(topic, payload)]
    }
}

/// A payload that could not be read, or that is no object, is the one
/// candidate of its message, under the topic and as it came, whether
/// expansion is enabled or not.
pub proof fn payload_without_object_is_kept(
    topic: Seq<char>,
    payload: Seq<char>,
    enabled: bool,
    parsed: Option<JsonView>,
)
    requires
        parsed is None || !(parsed->0 is Object),
    ensures
        flatten_outcome(topic, payload, enabled, parsed) == seq![(topic, payload)],
{
}

/// With expansion disabled the payload is the one candidate of its
/// message, whatever reading it would give.
pub proof fn disabled_expansion_keeps_payload(
    topic: Seq<char>,
    payload: Seq<char>,
    parsed: Option<JsonView>,
)
    ensures
        flatten_outcome(topic, payload, false, parsed) == seq![(topic, payload)],
{
}

/// The path of a member.
pub fn join_path(parent: &str, key: &str) -> (path: String)
    ensures
        path@ == child_path(parent@, key@),
{
    let mut path = parent.to_owned();
    path.push('/');
    path.append(key);
    path
}

/// The text of a float.
pub fn float_string(f: &FloatText) -> (text: String)
    ensures
        text@ == float_text(f@),
{
    if has_char(f.shortest.as_str(), '.') {
        f.shortest.clone()
    } else {
        f.fixed.clone()
    }
}

/// The text of a number.
pub fn number_string(n: &JsonNumber) -> (text: String)
    ensures
        text@ == number_text(n@),
{
    match n.signed {
        Some(i) => decimal_of_i64(i),
        None => match n.unsigned {
            Some(u) => decimal_of_u64(u),
            None => match &n.float {
                Some(f) => float_string(f),
                None => "null".to_owned(),
            },
        },
    }
}

/// The text of a scalar leaf.
pub fn scalar_string(value: &JsonValue) -> (text: String)
    ensures
        text@ == scalar_text(value@),
{
    match value {
        JsonValue::Str(s) => s.clone(),
        JsonValue::Bool(b) => if *b {
            "true".to_owned()
        } else {
            "false".to_owned()
        },
        JsonValue::Number(n) => number_string(n),
        _ => "null".to_owned(),
    }
}

/// Appends to `acc` the pairs of `value` at `path`.
pub fn append_entries(value: &JsonValue, path: String, acc: &mut Vec<(String, String)>)
    ensures
        final(acc).deep_view() == old(acc).deep_view() + entries(value@, path@),
    decreases value,
{
    match value {
        JsonValue::Object(members) => {
            let ghost before = acc.deep_view();
            let ghost views = value@->Object_0;
            proof {
                object_view_is_memberwise(*members);
                assert(before + member_entries(views, path@, 0) =~= before);
            }
            let mut i: usize = 0;
            while i < members.len()
                invariant
                    i <= members.len(),
                    value == JsonValue::Object(*members),
                    views == value@->Object_0,
                    views.len() == members.len(),
                    forall|k: int|
                        0 <= k < members.len() ==> (#[trigger] views[k]) == (
                            members[k].0@,
                            members[k].1@,
                        ),
                    acc.deep_view() == before + member_entries(views, path@, i as nat),
                decreases members.len() - i,
            {
                let ghost so_far = acc.deep_view();
                let inner = join_path(path.as_str(), members[i].0.as_str());
                append_entries(&members[i].1, inner, acc);
                proof {
                    assert(acc.deep_view() == before + member_entries(views, path@, (i + 1) as nat))
                        by {
                        assert(before + member_entries(views, path@, i as nat) + entries(
                            views[i as int].1,
                            child_path(path@, views[i as int].0),
                        ) =~= before + (member_entries(views, path@, i as nat) + entries(
                            views[i as int].1,
                            child_path(path@, views[i as int].0),
                        )));
                    }
                }
                i = i + 1;
            }
        },
        JsonValue::Array(items) => {
            let ghost before = acc.deep_view();
            let ghost views = value@->Array_0;
            proof {
                array_view_is_itemwise(*items);
                assert(before + item_entries(views, path@, 0) =~= before);
            }
            let mut i: usize = 0;
            while i < items.len()
                invariant
                    i <= items.len(),
                    value == JsonValue::Array(*items),
                    views == value@->Array_0,
                    views.len() == items.len(),
                    forall|k: int| 0 <= k < items.len() ==> (#[trigger] views[k]) == items[k]@,
                    acc.deep_view() == before + item_entries(views, path@, i as nat),
                decreases items.len() - i,
            {
                let index = decimal_of_u64(i as u64);
                let inner = join_path(path.as_str(), index.as_str());
                append_entries(&items[i], inner, acc);
                proof {
                    assert(acc.deep_view() == before + item_entries(views, path@, (i + 1) as nat))
                        by {
                        assert(before + item_entries(views, path@, i as nat) + entries(
                            views[i as int],
                            child_path(path@, decimal_text(i as int)),
                        ) =~= before + (item_entries(views, path@, i as nat) + entries(
                            views[i as int],
                            child_path(path@, decimal_text(i as int)),
                        )));
                    }
                }
                i = i + 1;
            }
        },
        _ => {
            let text = scalar_string(value);
            let ghost before = acc.deep_view();
            let ghost pair = (path@, text@);
            acc.push((path, text));
            assert(acc.deep_view() =~= before.push(pair));
            assert(before.push(pair) =~= before + seq![pair]);
        },
    }
}

/// Flattens `value` into `acc`, with `/` as the separator of a path: the
/// pairs of an object or an array are appended under `prefix`; a scalar
/// leaves `acc` as it is.
pub fn flatten_json(value: &JsonValue, prefix: &str, acc: &mut Vec<(String, String)>)
    ensures
        final(acc).deep_view() == old(acc).deep_view() + flattened(value@, prefix@),
{
    match value {
        JsonValue::Object(_) => append_entries(value, prefix.to_owned(), acc),
        JsonValue::Array(_) => append_entries(value, prefix.to_owned(), acc),
        _ => {
            assert(acc.deep_view() =~= acc.deep_view() + Seq::empty());
        },
    }
}

/// The one candidate of a payload that is taken as it came.
pub fn single_pair(topic: &str, payload: &str) -> (out: Vec<(String, String)>)
    ensures
        out.deep_view() == seq![(topic@, payload@)],
{
    let mut out: Vec<(String, String)> = Vec::new();
    out.push((topic.to_owned(), payload.to_owned()));
    assert(out.deep_view() =~= seq![(topic@, payload@)]);
    out
}

/// The candidates of a message, given what reading its payload gave: with
/// expansion enabled the pairs of an object, and else, or where the payload
/// could not be read or is no object, the payload as it came.
pub fn flatten_parsed(topic: &str, payload: &str, enabled: bool, parsed: Option<JsonValue>) -> (out:
    Vec<(String, String)>)
    ensures
        out.deep_view() == flatten_outcome(topic@, payload@, enabled, option_view(parsed)),
{
    if !enabled {
        return single_pair(topic, payload);
    }
    match parsed {
        Some(value) => match value {
            JsonValue::Object(_) => {
                let mut out: Vec<(String, String)> = Vec::new();
                assert(out.deep_view() =~= Seq::empty());
                flatten_json(&value, topic, &mut out);
                assert(Seq::<(Seq<char>, Seq<char>)>::empty() + entries(value@, topic@) =~= entries(
                    value@,
                    topic@,
                ));
                out
            },
            _ => single_pair(topic, payload),
        },
        None => single_pair(topic, payload),
    }
}

/// Reads `payload` as JSON where expansion is enabled, and not at all where
/// it is not: what comes back decides the candidates as the reading of the
/// payload does.
pub fn read_if(enabled: bool, payload: &str) -> (parsed: Option<JsonValue>)
    ensures
        enabled ==> option_view(parsed) == read_payload(payload@),
        !enabled ==> parsed is None,
{
    if enabled {
        parse_json(payload, WHOLE_FLOAT_PLACES)
    } else {
        None
    }
}

/// The candidates of a message: with expansion disabled the payload is not
/// read, and the one candidate is the topic with the payload as it came;
/// with expansion enabled the payload is read as JSON, and an object is
/// flattened under the topic.
pub fn flatten(topic: &str, payload: &str, enabled: bool) -> (out: Vec<(String, String)>)
    ensures
        out.deep_view() == flatten_outcome(topic@, payload@, enabled, read_payload(payload@)),
{
    flatten_parsed(topic, payload, enabled, read_if(enabled, payload))
}

/// The pairs of an expansion on request: the value is read as JSON, and
/// an object is flattened under the topic; any other value comes back as
/// it is, with the topic.
pub fn expand(topic: &str, value: &str) -> (out: Vec<(String, String)>)
    ensures
        out.deep_view() == flatten_outcome(topic@, value@, true, read_payload(value@)),
{
    flatten(topic, value, true)
}

} // verus!
