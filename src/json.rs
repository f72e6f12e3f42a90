use vstd::prelude::*;

verus! {

/// A JSON document held as plain values.
///
/// Numbers are kept as their JSON text, so that no floating-point value is needed;
/// object members are kept in document order.
#[derive(Debug)]
pub enum JsonValue {
    Null,
    Bool(bool),
    Number(String),
    Str(String),
    Array(Vec<JsonValue>),
    Object(Vec<(String, JsonValue)>),
}

/// The compact JSON text of a string value: a double quote, the escaped characters,
/// and a double quote.
pub uninterp spec fn json_quoted(s: Seq<char>) -> Seq<char>;

/// A character that a JSON string encoder must escape.
pub open spec fn needs_escape(c: char) -> bool {
    c == '"' || c == '\\' || (c as u32) < 0x20
}

/// Relies on serde_json's `Display` for `Value::String`: it writes a double quote, the
/// characters of `s` with `"`, `\` and the control characters escaped, and a double quote.
#[verifier::external_body]
pub(crate) fn quote_json(s: &str) -> (r: String)
    ensures
        r@ == json_quoted(s@),
        r@.len() >= 2,
        r@[0] == '"',
        r@[r@.len() - 1] == '"',
        (forall|i: int| 0 <= i < s@.len() ==> !needs_escape(#[trigger] s@[i])) ==> r@ == seq!['"']
            + s@ + seq!['"'],
{
    serde_json::Value::String(s.to_string()).to_string()
}

/// The compact JSON text of a value, as serde_json writes it: no whitespace,
/// items and members separated by commas.
pub open spec fn render(v: JsonValue) -> Seq<char>
    decreases v,
{
    match v {
        JsonValue::Null => seq!['n', 'u', 'l', 'l'],
        JsonValue::Bool(b) => if b {
            seq!['t', 'r', 'u', 'e']
        } else {
            seq!['f', 'a', 'l', 's', 'e']
        },
        JsonValue::Number(t) => t@,
        JsonValue::Str(s) => json_quoted(s@),
        JsonValue::Array(items) => seq!['['] + render_items(items@) + seq![']'],
        JsonValue::Object(members) => seq!['{'] + render_members(members@) + seq!['}'],
    }
}

/// The texts of `items`, separated by commas.
pub open spec fn render_items(items: Seq<JsonValue>) -> Seq<char>
    decreases items,
{
    if items.len() == 0 {
        seq![]
    } else if items.len() == 1 {
        render(items[0])
    } else {
        render_items(items.subrange(0, items.len() - 1)) + seq![','] + render(
            items[items.len() - 1],
        )
    }
}

/// One object member: its quoted key, a colon, and its value's text.
pub open spec fn render_member(m: (String, JsonValue)) -> Seq<char>
    decreases m,
{
    json_quoted(m.0@) + seq![':'] + render(m.1)
}

/// The texts of `members`, separated by commas.
pub open spec fn render_members(members: Seq<(String, JsonValue)>) -> Seq<char>
    decreases members,
{
    if members.len() == 0 {
        seq![]
    } else if members.len() == 1 {
        render_member(members[0])
    } else {
        render_members(members.subrange(0, members.len() - 1)) + seq![','] + render_member(
            members[members.len() - 1],
        )
    }
}

/// The views of a sequence of strings.
pub open spec fn texts(v: Seq<String>) -> Seq<Seq<char>> {
    v.map_values(|s: String| s@)
}

/// `v` is a JSON string holding `s`.
pub open spec fn is_str(v: JsonValue, s: Seq<char>) -> bool {
    v is Str && v->Str_0@ == s
}

/// `v` is a JSON array whose items are the strings `s`, in order.
pub open spec fn is_str_array(v: JsonValue, s: Seq<Seq<char>>) -> bool {
    &&& v is Array
    &&& v->Array_0@.len() == s.len()
    &&& forall|i: int| 0 <= i < s.len() ==> is_str(#[trigger] v->Array_0@[i], s[i])
}

/// `v` is a JSON object whose member keys are `keys`, in order.
pub open spec fn has_keys(v: JsonValue, keys: Seq<Seq<char>>) -> bool {
    &&& v is Object
    &&& v->Object_0@.len() == keys.len()
    &&& forall|i: int| 0 <= i < keys.len() ==> (#[trigger] v->Object_0@[i]).0@ == keys[i]
}

/// The value of the `i`-th member of an object.
pub open spec fn member_at(v: JsonValue, i: int) -> JsonValue {
    v->Object_0@[i].1
}

/// The value of the first member of `members` whose key is `key`.
pub open spec fn find_member(members: Seq<(String, JsonValue)>, key: Seq<char>) -> Option<
    JsonValue,
>
    decreases members.len(),
{
    if members.len() == 0 {
        None
    } else if members[0].0@ == key {
        Some(members[0].1)
    } else {
        find_member(members.drop_first(), key)
    }
}

/// The child of `doc` under `key`: `None` where `doc` is no object or has no such member.
pub open spec fn child(doc: JsonValue, key: Seq<char>) -> Option<JsonValue> {
    match doc {
        JsonValue::Object(members) => find_member(members@, key),
        _ => None,
    }
}

/// Builds a JSON array of copies of `items`.
pub fn string_array(items: &Vec<String>) -> (r: JsonValue)
    ensures
        is_str_array(r, texts(items@)),
{
    let mut out: Vec<JsonValue> = Vec::new();
    let mut i: usize = 0;
    while i < items.len()
        invariant
            i <= items@.len(),
            out@.len() == i,
            forall|j: int| 0 <= j < i ==> is_str(#[trigger] out@[j], items@[j]@),
        decreases items@.len() - i,
    {
        out.push(JsonValue::Str(items[i].clone()));
        i += 1;
    }
    JsonValue::Array(out)
}

/// Looks up the child of `doc` under `key`.
pub fn child_of<'a>(doc: &'a JsonValue, key: &str) -> (r: Option<&'a JsonValue>)
    ensures
        match r {
            Some(v) => child(*doc, key@) == Some(*v),
            None => child(*doc, key@) is None,
        },
{
    match doc {
        JsonValue::Object(members) => {
            let mut i: usize = 0;
            assert(members@.subrange(0, members@.len() as int) =~= members@);
            while i < members.len()
                invariant
                    i <= members@.len(),
                    *doc == JsonValue::Object(*members),
                    find_member(members@, key@) == find_member(members@.subrange(i as int, members@.len() as int), key@),
                decreases members@.len() - i,
            {
                let ghost rest = members@.subrange(i as int, members@.len() as int);
                assert(rest.drop_first() =~= members@.subrange(i + 1, members@.len() as int));
                if equal_text(members[i].0.as_str(), key) {
                    return Some(&members[i].1);
                }
                i += 1;
            }
            None
        },
        _ => None,
    }
}

/// Whether two strings hold the same characters.
pub fn equal_text(a: &str, b: &str) -> (r: bool)
    ensures
        r == (a@ == b@),
{
    let n = a.unicode_len();
    if n != b.unicode_len() {
        return false;
    }
    let mut i: usize = 0;
    while i < n
        invariant
            n == a@.len(),
            n == b@.len(),
            i <= n,
            forall|j: int| 0 <= j < i ==> a@[j] == b@[j],
        decreases n - i,
    {
        if a.get_char(i) != b.get_char(i) {
            return false;
        }
        i += 1;
    }
    assert(a@ =~= b@);
    true
}

proof fn lemma_render_items_step(items: Seq<JsonValue>, i: int)
    requires
        0 < i < items.len(),
    ensures
        render_items(items.subrange(0, i + 1)) == render_items(items.subrange(0, i)) + seq![',']
            + render(items[i]),
{
    assert(items.subrange(0, i + 1).subrange(0, i) =~= items.subrange(0, i));
}

proof fn lemma_render_members_step(members: Seq<(String, JsonValue)>, i: int)
    requires
        0 < i < members.len(),
    ensures
        render_members(members.subrange(0, i + 1)) == render_members(members.subrange(0, i))
            + seq![','] + render_member(members[i]),
{
    assert(members.subrange(0, i + 1).subrange(0, i) =~= members.subrange(0, i));
}

/// Writes `v` as compact JSON text.
pub fn render_json(v: &JsonValue) -> (r: String)
    ensures
        r@ == render(*v),
    decreases v,
{
    proof {
        reveal_strlit("null");
        reveal_strlit("true");
        reveal_strlit("false");
        reveal_strlit("[");
        reveal_strlit("]");
        reveal_strlit("{");
        reveal_strlit("}");
        reveal_strlit(",");
        reveal_strlit(":");
    }
    match v {
        JsonValue::Null => String::from_str("null"),
        JsonValue::Bool(b) => if *b {
            String::from_str("true")
        } else {
            String::from_str("false")
        },
        JsonValue::Number(t) => t.clone(),
        JsonValue::Str(s) => quote_json(s.as_str()),
        JsonValue::Array(items) => {
            let mut out = String::from_str("[");
            let mut i: usize = 0;
            while i < items.len()
                invariant
                    i <= items@.len(),
                    *v == JsonValue::Array(*items),
                    out@ == seq!['['] + render_items(items@.subrange(0, i as int)),
                decreases items@.len() - i,
            {
                proof {
                    reveal_strlit(",");
                    assert(decreases_to!(*v => v->Array_0));
                    assert(decreases_to!(*items => items@));
                    assert(decreases_to!(items@ => items@[i as int]));
                }
                let part = render_json(&items[i]);
                proof {
                    if i > 0 {
                        lemma_render_items_step(items@, i as int);
                    } else {
                        assert(items@.subrange(0, 1) =~= seq![items@[0]]);
                    }
                }
                if i > 0 {
                    out.append(",");
                }
                out.append(part.as_str());
                i += 1;
            }
            assert(items@.subrange(0, items@.len() as int) =~= items@);
            proof {
                reveal_strlit("]");
            }
            out.append("]");
            out
        },
        JsonValue::Object(members) => {
            let mut out = String::from_str("{");
            let mut i: usize = 0;
            while i < members.len()
                invariant
                    i <= members@.len(),
                    *v == JsonValue::Object(*members),
                    out@ == seq!['{'] + render_members(members@.subrange(0, i as int)),
                decreases members@.len() - i,
            {
                proof {
                    reveal_strlit(",");
                    reveal_strlit(":");
                    assert(decreases_to!(*v => v->Object_0));
                    assert(decreases_to!(*members => members@));
                    assert(decreases_to!(members@ => members@[i as int]));
                    assert(decreases_to!(members@[i as int] => members@[i as int].1));
                }
                let key = quote_json(members[i].0.as_str());
                let value = render_json(&members[i].1);
                proof {
                    if i > 0 {
                        lemma_render_members_step(members@, i as int);
                    } else {
                        assert(members@.subrange(0, 1) =~= seq![members@[0]]);
                    }
                }
                if i > 0 {
                    out.append(",");
                }
                out.append(key.as_str());
                out.append(":");
                out.append(value.as_str());
                i += 1;
            }
            assert(members@.subrange(0, members@.len() as int) =~= members@);
            proof {
                reveal_strlit("}");
            }
            out.append("}");
            out
        },
    }
}

} // verus!
