//! JSON values as the template engine reads them.
//!
//! A number is kept as the text that the JSON library prints for it, so
//! that rendering it is exact without arithmetic on its value.

use vstd::prelude::*;

verus! {

/// A JSON value. Object members keep the order in which the JSON library
/// lists them.
#[derive(Debug)]
pub enum JsonValue {
    Null,
    Bool(bool),
    /// A number, as its printed text.
    Number(String),
    String(String),
    Array(Vec<JsonValue>),
    Object(Vec<(String, JsonValue)>),
}

/// A JSON value as plain spec values.
pub enum JsonView {
    Null,
    Bool(bool),
    Number(Seq<char>),
    String(Seq<char>),
    Array(Seq<JsonView>),
    Object(Seq<(Seq<char>, JsonView)>),
}

pub open spec fn json_view(v: JsonValue) -> JsonView
    decreases v,
{
    match v {
        JsonValue::Null => JsonView::Null,
        JsonValue::Bool(b) => JsonView::Bool(b),
        JsonValue::Number(n) => JsonView::Number(n@),
        JsonValue::String(s) => JsonView::String(s@),
        JsonValue::Array(items) => JsonView::Array(
            Seq::new(
                items@.len(),
                |i: int|
                    {
                        if 0 <= i < items@.len() {
                            json_view(items@[i])
                        } else {
                            JsonView::Null
                        }
                    },
            ),
        ),
        JsonValue::Object(members) => JsonView::Object(
            Seq::new(
                members@.len(),
                |i: int|
                    {
                        if 0 <= i < members@.len() {
                            (members@[i].0@, json_view(members@[i].1))
                        } else {
                            (Seq::empty(), JsonView::Null)
                        }
                    },
            ),
        ),
    }
}

impl View for JsonValue {
    type V = JsonView;

    open spec fn view(&self) -> JsonView {
        json_view(*self)
    }
}

/// The text a value renders to in a template: strings as they are, numbers
/// and booleans as printed, list items joined by ", ", object members as
/// "key: value" joined by newlines, and null as nothing.
pub open spec fn json_text(v: JsonView) -> Seq<char>
    decreases v, 0nat,
{
    match v {
        JsonView::Null => Seq::empty(),
        JsonView::Bool(b) => if b {
            seq!['t', 'r', 'u', 'e']
        } else {
            seq!['f', 'a', 'l', 's', 'e']
        },
        JsonView::Number(n) => n,
        JsonView::String(s) => s,
        JsonView::Array(items) => items_text(items, items.len()),
        JsonView::Object(members) => members_text(members, members.len()),
    }
}

/// The first `n` list items rendered and joined by ", ".
pub open spec fn items_text(items: Seq<JsonView>, n: nat) -> Seq<char>
    decreases items, n,
{
    if n == 0 || n > items.len() {
        Seq::empty()
    } else if n == 1 {
        json_text(items[0])
    } else {
        items_text(items, (n - 1) as nat) + seq![',', ' '] + json_text(items[n - 1])
    }
}

/// The first `n` object members rendered as "key: value" and joined by
/// newlines.
pub open spec fn members_text(members: Seq<(Seq<char>, JsonView)>, n: nat) -> Seq<char>
    decreases members, n,
{
    if n == 0 || n > members.len() {
        Seq::empty()
    } else if n == 1 {
        members[0].0 + seq![':', ' '] + json_text(members[0].1)
    } else {
        members_text(members, (n - 1) as nat) + seq!['\n'] + members[n - 1].0 + seq![':', ' ']
            + json_text(members[n - 1].1)
    }
}

/// A boolean renders as the word for its value: `true` as "true" and
/// `false` as "false", so the two never render alike.
pub proof fn law_bool_renders_its_value(b: bool)
    ensures
        json_text(JsonView::Bool(b)) == (if b {
            "true"@
        } else {
            "false"@
        }),
        json_text(JsonView::Bool(true)) != json_text(JsonView::Bool(false)),
{
    reveal_strlit("true");
    reveal_strlit("false");
    assert(json_text(JsonView::Bool(true)) =~= "true"@);
    assert(json_text(JsonView::Bool(false)) =~= "false"@);
    assert(json_text(JsonView::Bool(true))[0] != json_text(JsonView::Bool(false))[0]);
}

/// The name of a value's kind: "string", "number", "boolean", "list",
/// "object" or "null".
pub open spec fn json_kind_name(v: JsonView) -> Seq<char> {
    match v {
        JsonView::String(_) => "string"@,
        JsonView::Number(_) => "number"@,
        JsonView::Bool(_) => "boolean"@,
        JsonView::Array(_) => "list"@,
        JsonView::Object(_) => "object"@,
        JsonView::Null => "null"@,
    }
}

/// Renders a value as it appears in a template.
pub fn value_to_string(v: &JsonValue) -> (s: String)
    ensures
        s@ == json_text(v@),
        v@ is Bool ==> s@ == (if v@->Bool_0 {
            "true"@
        } else {
            "false"@
        }),
    decreases v,
{
    match v {
        JsonValue::Null => String::new(),
        JsonValue::Bool(b) => {
            proof {
                reveal_strlit("true");
                reveal_strlit("false");
            }
            if *b {
                crate::text::owned("true")
            } else {
                crate::text::owned("false")
            }
        },
        JsonValue::Number(n) => n.clone(),
        JsonValue::String(s) => s.clone(),
        JsonValue::Array(items) => {
            let mut out = String::new();
            let mut i: usize = 0;
            while i < items.len()
                invariant
                    *v == JsonValue::Array(*items),
                    i <= items@.len(),
                    out@ == items_text(items@.map_values(|x: JsonValue| x@), i as nat),
                decreases items@.len() - i,
            {
                proof {
                    reveal_strlit(", ");
                    assert(decreases_to!(*v => (*v)->Array_0));
                    assert(decreases_to!(*items => items@));
                    assert(decreases_to!(items@ => items@[i as int]));
                }
                let t = value_to_string(&items[i]);
                if i > 0 {
                    out.append(", ");
                }
                out.append(t.as_str());
                i = i + 1;
            }
            proof {
                if let JsonView::Array(a) = v@ {
                    assert(a =~= items@.map_values(|x: JsonValue| x@));
                }
            }
            out
        },
        JsonValue::Object(members) => {
            let mut out = String::new();
            let mut i: usize = 0;
            while i < members.len()
                invariant
                    *v == JsonValue::Object(*members),
                    i <= members@.len(),
                    out@ == members_text(members@.map_values(|m: (String, JsonValue)| (m.0@, m.1@)), i as nat),
                decreases members@.len() - i,
            {
                proof {
                    reveal_strlit("\n");
                    reveal_strlit(": ");
                    assert(decreases_to!(*v => (*v)->Object_0));
                    assert(decreases_to!(*members => members@));
                    assert(decreases_to!(members@ => members@[i as int]));
                    assert(decreases_to!(members@[i as int] => members@[i as int].1));
                }
                let t = value_to_string(&members[i].1);
                if i > 0 {
                    out.append("\n");
                }
                out.append(members[i].0.as_str());
                out.append(": ");
                out.append(t.as_str());
                i = i + 1;
            }
            proof {
                if let JsonView::Object(a) = v@ {
                    assert(a =~= members@.map_values(|m: (String, JsonValue)| (m.0@, m.1@)));
                }
            }
            out
        },
    }
}

/// A copy of a value.
pub fn json_clone(v: &JsonValue) -> (r: JsonValue)
    ensures
        r@ == v@,
    decreases v,
{
    match v {
        JsonValue::Null => JsonValue::Null,
        JsonValue::Bool(b) => JsonValue::Bool(*b),
        JsonValue::Number(n) => JsonValue::Number(n.clone()),
        JsonValue::String(s) => JsonValue::String(s.clone()),
        JsonValue::Array(items) => {
            let mut out: Vec<JsonValue> = Vec::new();
            let mut i: usize = 0;
            while i < items.len()
                invariant
                    *v == JsonValue::Array(*items),
                    i <= items@.len(),
                    out@.len() == i,
                    forall|j: int| 0 <= j < i ==> #[trigger] out@[j]@ == items@[j]@,
                decreases items@.len() - i,
            {
                proof {
                    assert(decreases_to!(*v => (*v)->Array_0));
                    assert(decreases_to!(*items => items@));
                    assert(decreases_to!(items@ => items@[i as int]));
                }
                out.push(json_clone(&items[i]));
                i = i + 1;
            }
            let r = JsonValue::Array(out);
            proof {
                if let JsonView::Array(a) = r@ {
                    if let JsonView::Array(b) = v@ {
                        assert forall|j: int| 0 <= j < a.len() implies a[j] == b[j] by {
                            assert(out@[j]@ == items@[j]@);
                        }
                        assert(a =~= b);
                    }
                }
            }
            r
        },
        JsonValue::Object(members) => {
            let mut out: Vec<(String, JsonValue)> = Vec::new();
            let mut i: usize = 0;
            while i < members.len()
                invariant
                    *v == JsonValue::Object(*members),
                    i <= members@.len(),
                    out@.len() == i,
                    forall|j: int| 0 <= j < i ==> (#[trigger] out@[j]).0@ == members@[j].0@ && out@[j].1@ == members@[j].1@,
                decreases members@.len() - i,
            {
                proof {
                    assert(decreases_to!(*v => (*v)->Object_0));
                    assert(decreases_to!(*members => members@));
                    assert(decreases_to!(members@ => members@[i as int]));
                    assert(decreases_to!(members@[i as int] => members@[i as int].1));
                }
                let item = (members[i].0.clone(), json_clone(&members[i].1));
                out.push(item);
                i = i + 1;
            }
            let r = JsonValue::Object(out);
            proof {
                if let JsonView::Object(a) = r@ {
                    if let JsonView::Object(b) = v@ {
                        assert forall|j: int| 0 <= j < a.len() implies a[j] == b[j] by {
                            assert(out@[j].0@ == members@[j].0@ && out@[j].1@ == members@[j].1@);
                        }
                        assert(a =~= b);
                    }
                }
            }
            r
        },
    }
}

/// The name of a value's kind.
pub fn value_type_name(v: &JsonValue) -> (s: &'static str)
    ensures
        s@ == json_kind_name(v@),
{
    match v {
        JsonValue::String(_) => "string",
        JsonValue::Number(_) => "number",
        JsonValue::Bool(_) => "boolean",
        JsonValue::Array(_) => "list",
        JsonValue::Object(_) => "object",
        JsonValue::Null => "null",
    }
}

} // verus!
