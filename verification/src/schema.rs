//! JSON schemas of tool parameters and their strict form: every object schema
//! that lists properties gets `additionalProperties: false` and requires all
//! of its properties, at every depth.

use vstd::prelude::*;

use crate::text::same_text;

verus! {

/// A JSON value; a number is kept as its text.
#[derive(Debug)]
pub enum JsonValue {
    Null,
    Bool(bool),
    Number(String),
    Str(String),
    Array(Vec<JsonValue>),
    Object(Vec<JsonMember>),
}

/// A member of a JSON object.
#[derive(Debug)]
pub struct JsonMember {
    pub key: String,
    pub value: JsonValue,
}

pub enum JsonView {
    Null,
    Bool(bool),
    Number(Seq<char>),
    Str(Seq<char>),
    Array(Seq<JsonView>),
    Object(Seq<(Seq<char>, JsonView)>),
}

pub open spec fn json_view(v: JsonValue) -> JsonView
    decreases v, 1int,
{
    match v {
        JsonValue::Null => JsonView::Null,
        JsonValue::Bool(b) => JsonView::Bool(b),
        JsonValue::Number(n) => JsonView::Number(n@),
        JsonValue::Str(s) => JsonView::Str(s@),
        JsonValue::Array(a) => JsonView::Array(items_view(a@)),
        JsonValue::Object(ms) => JsonView::Object(members_view(ms@)),
    }
}

pub open spec fn items_view(a: Seq<JsonValue>) -> Seq<JsonView>
    decreases a, 0int,
{
    if a.len() == 0 {
        Seq::empty()
    } else {
        items_view(a.drop_last()).push(json_view(a.last()))
    }
}

pub open spec fn members_view(ms: Seq<JsonMember>) -> Seq<(Seq<char>, JsonView)>
    decreases ms, 0int,
{
    if ms.len() == 0 {
        Seq::empty()
    } else {
        members_view(ms.drop_last()).push((ms.last().key@, json_view(ms.last().value)))
    }
}

/// The position of the first member named `k`, or the length.
pub open spec fn member_pos(ms: Seq<(Seq<char>, JsonView)>, k: Seq<char>) -> int
    decreases ms.len(),
{
    if ms.len() == 0 {
        0
    } else if ms[0].0 == k {
        0
    } else {
        1 + member_pos(ms.drop_first(), k)
    }
}

/// The members with `k` set to `v`: in place of the member named `k`, or last.
pub open spec fn set_member(ms: Seq<(Seq<char>, JsonView)>, k: Seq<char>, v: JsonView) -> Seq<
    (Seq<char>, JsonView),
> {
    let p = member_pos(ms, k);
    if p < ms.len() {
        ms.update(p, (k, v))
    } else {
        ms.push((k, v))
    }
}

/// The members without those named `k`.
pub open spec fn without(ms: Seq<(Seq<char>, JsonView)>, k: Seq<char>) -> Seq<
    (Seq<char>, JsonView),
>
    decreases ms.len(),
{
    if ms.len() == 0 {
        Seq::empty()
    } else if ms.last().0 == k {
        without(ms.drop_last(), k)
    } else {
        without(ms.drop_last(), k).push(ms.last())
    }
}

/// The names of the properties where the member `properties` is an object.
pub open spec fn property_names(ms: Seq<(Seq<char>, JsonView)>) -> Option<Seq<JsonView>> {
    let p = member_pos(ms, "properties"@);
    if p < ms.len() {
        match ms[p].1 {
            JsonView::Object(props) => Some(props.map_values(|m: (Seq<char>, JsonView)| JsonView::Str(m.0))),
            _ => None,
        }
    } else {
        None
    }
}

/// The strict form of a schema: every object with an object of properties
/// gets `additionalProperties: false` and `required` listing its properties
/// in their order; members and items are made strict at every depth.
pub open spec fn strict(v: JsonView) -> JsonView
    decreases v, 1int,
{
    match v {
        JsonView::Array(a) => JsonView::Array(strict_items(a)),
        JsonView::Object(ms) => {
            let done = strict_members(ms);
            match property_names(ms) {
                Some(names) => JsonView::Object(
                    set_member(
                        set_member(done, "additionalProperties"@, JsonView::Bool(false)),
                        "required"@,
                        JsonView::Array(names),
                    ),
                ),
                None => JsonView::Object(done),
            }
        },
        _ => v,
    }
}

pub open spec fn strict_items(a: Seq<JsonView>) -> Seq<JsonView>
    decreases a, 0int,
{
    if a.len() == 0 {
        Seq::empty()
    } else {
        strict_items(a.drop_last()).push(strict(a.last()))
    }
}

pub open spec fn strict_members(ms: Seq<(Seq<char>, JsonView)>) -> Seq<(Seq<char>, JsonView)>
    decreases ms, 0int,
{
    if ms.len() == 0 {
        Seq::empty()
    } else {
        strict_members(ms.drop_last()).push((ms.last().0, strict(ms.last().1)))
    }
}

/// The parameters that a tool declares: its schema without the top-level
/// `$schema` and `title`, in strict form.
pub open spec fn declared_parameters(v: JsonView) -> JsonView {
    match v {
        JsonView::Object(ms) => strict(JsonView::Object(without(without(ms, "$schema"@), "title"@))),
        _ => strict(v),
    }
}

proof fn lemma_members_view(ms: Seq<JsonMember>)
    ensures
        members_view(ms).len() == ms.len(),
        forall|i: int|
            0 <= i < ms.len() ==> #[trigger] members_view(ms)[i] == (ms[i].key@, json_view(ms[i].value)),
    decreases ms.len(),
{
    if ms.len() > 0 {
        lemma_members_view(ms.drop_last());
    }
}

proof fn lemma_items_view(a: Seq<JsonValue>)
    ensures
        items_view(a).len() == a.len(),
        forall|i: int| 0 <= i < a.len() ==> #[trigger] items_view(a)[i] == json_view(a[i]),
    decreases a.len(),
{
    if a.len() > 0 {
        lemma_items_view(a.drop_last());
    }
}

/// A copy of a JSON value.
pub fn copy_json(v: &JsonValue) -> (r: JsonValue)
    ensures
        json_view(r) == json_view(*v),
    decreases v,
{
    match v {
        JsonValue::Null => JsonValue::Null,
        JsonValue::Bool(b) => JsonValue::Bool(*b),
        JsonValue::Number(n) => JsonValue::Number(n.clone()),
        JsonValue::Str(s) => JsonValue::Str(s.clone()),
        JsonValue::Array(a) => {
            let mut out: Vec<JsonValue> = Vec::new();
            let mut i: usize = 0;
            while i < a.len()
                invariant
                    *v == JsonValue::Array(*a),
                    i <= a.len(),
                    items_view(out@) == items_view(a@.take(i as int)),
                decreases a.len() - i,
            {
                assert(decreases_to!(*v => (*v)->Array_0));
                assert(decreases_to!(*a => a@));
                assert(decreases_to!(a@ => a@[i as int]));
                let x = copy_json(&a[i]);
                proof {
                    assert(a@.take(i + 1).drop_last() =~= a@.take(i as int));
                    assert(out@.push(x).drop_last() =~= out@);
                }
                out.push(x);
                i = i + 1;
            }
            assert(a@.take(a.len() as int) =~= a@);
            JsonValue::Array(out)
        },
        JsonValue::Object(ms) => {
            let mut out: Vec<JsonMember> = Vec::new();
            let mut i: usize = 0;
            while i < ms.len()
                invariant
                    *v == JsonValue::Object(*ms),
                    i <= ms.len(),
                    members_view(out@) == members_view(ms@.take(i as int)),
                decreases ms.len() - i,
            {
                assert(decreases_to!(*v => (*v)->Object_0));
                assert(decreases_to!(*ms => ms@));
                assert(decreases_to!(ms@ => ms@[i as int]));
                assert(decreases_to!(ms@[i as int] => ms@[i as int].value));
                let x = copy_json(&ms[i].value);
                let m = JsonMember { key: ms[i].key.clone(), value: x };
                proof {
                    assert(ms@.take(i + 1).drop_last() =~= ms@.take(i as int));
                    assert(out@.push(m).drop_last() =~= out@);
                }
                out.push(m);
                i = i + 1;
            }
            assert(ms@.take(ms.len() as int) =~= ms@);
            JsonValue::Object(out)
        },
    }
}

/// The position of the first member named `key`, or the length.
fn find_member(ms: &Vec<JsonMember>, key: &str) -> (r: usize)
    ensures
        r == member_pos(members_view(ms@), key@),
{
    let ghost s = members_view(ms@);
    proof {
        lemma_members_view(ms@);
    }
    let mut i: usize = 0;
    assert(s.subrange(0, s.len() as int) =~= s);
    while i < ms.len() && !same_text(ms[i].key.as_str(), key)
        invariant
            s == members_view(ms@),
            s.len() == ms.len(),
            forall|j: int| 0 <= j < ms.len() ==> #[trigger] s[j] == (ms@[j].key@, json_view(ms@[j].value)),
            i <= ms.len(),
            member_pos(s, key@) == i + member_pos(s.subrange(i as int, s.len() as int), key@),
        decreases ms.len() - i,
    {
        assert(s.subrange(i as int, s.len() as int).drop_first() =~= s.subrange(
            i + 1,
            s.len() as int,
        ));
        i = i + 1;
    }
    i
}

/// Sets the member `key` to `value`: in place of the member of that name, or last.
fn put_member(ms: &mut Vec<JsonMember>, key: &str, value: JsonValue)
    ensures
        members_view(final(ms)@) == set_member(members_view(old(ms)@), key@, json_view(value)),
{
    let ghost v = json_view(value);
    let p = find_member(ms, key);
    proof {
        lemma_members_view(ms@);
    }
    let m = JsonMember { key: String::from_str(key), value };
    if p < ms.len() {
        ms.set(p, m);
    } else {
        ms.push(m);
    }
    proof {
        lemma_members_view(ms@);
        assert(members_view(ms@) =~= set_member(members_view(old(ms)@), key@, v));
    }
}

/// The members without those named `key`.
fn remove_members(ms: &Vec<JsonMember>, key: &str) -> (r: Vec<JsonMember>)
    ensures
        members_view(r@) == without(members_view(ms@), key@),
{
    let ghost s = members_view(ms@);
    proof {
        lemma_members_view(ms@);
    }
    let mut out: Vec<JsonMember> = Vec::new();
    let mut i: usize = 0;
    while i < ms.len()
        invariant
            s == members_view(ms@),
            s.len() == ms.len(),
            forall|j: int| 0 <= j < ms.len() ==> #[trigger] s[j] == (ms@[j].key@, json_view(ms@[j].value)),
            i <= ms.len(),
            members_view(out@) == without(s.take(i as int), key@),
        decreases ms.len() - i,
    {
        assert(s.take(i + 1).drop_last() =~= s.take(i as int));
        if !same_text(ms[i].key.as_str(), key) {
            let m = JsonMember { key: ms[i].key.clone(), value: copy_json(&ms[i].value) };
            assert(out@.push(m).drop_last() =~= out@);
            out.push(m);
        }
        i = i + 1;
    }
    assert(s.take(ms.len() as int) =~= s);
    out
}

/// The names of the properties, as strings, where `properties` is an object.
fn properties_of(ms: &Vec<JsonMember>) -> (r: Option<Vec<JsonValue>>)
    ensures
        match r {
            Some(names) => property_names(members_view(ms@)) == Some(items_view(names@)),
            None => property_names(members_view(ms@)) is None,
        },
{
    proof {
        lemma_members_view(ms@);
    }
    let p = find_member(ms, "properties");
    if p >= ms.len() {
        return None;
    }
    match &ms[p].value {
        JsonValue::Object(props) => {
            proof {
                lemma_members_view(props@);
            }
            let mut names: Vec<JsonValue> = Vec::new();
            let mut i: usize = 0;
            while i < props.len()
                invariant
                    i <= props.len(),
                    names.len() == i,
                    forall|j: int| 0 <= j < i ==> #[trigger] names@[j] == JsonValue::Str(props@[j].key),
                decreases props.len() - i,
            {
                names.push(JsonValue::Str(props[i].key.clone()));
                i = i + 1;
            }
            proof {
                lemma_items_view(names@);
                assert(items_view(names@) =~= members_view(props@).map_values(
                    |m: (Seq<char>, JsonView)| JsonView::Str(m.0),
                ));
            }
            Some(names)
        },
        _ => None,
    }
}

/// The strict form of the schema `v` (see `strict`).
pub fn strict_schema(v: &JsonValue) -> (r: JsonValue)
    ensures
        json_view(r) == strict(json_view(*v)),
    decreases v,
{
    match v {
        JsonValue::Array(a) => {
            let mut out: Vec<JsonValue> = Vec::new();
            let mut i: usize = 0;
            while i < a.len()
                invariant
                    *v == JsonValue::Array(*a),
                    i <= a.len(),
                    items_view(out@) == strict_items(items_view(a@.take(i as int))),
                decreases a.len() - i,
            {
                assert(decreases_to!(*v => (*v)->Array_0));
                assert(decreases_to!(*a => a@));
                assert(decreases_to!(a@ => a@[i as int]));
                let x = strict_schema(&a[i]);
                proof {
                    assert(a@.take(i + 1).drop_last() =~= a@.take(i as int));
                    assert(items_view(a@.take(i + 1)).drop_last() =~= items_view(a@.take(i as int)));
                    assert(out@.push(x).drop_last() =~= out@);
                }
                out.push(x);
                i = i + 1;
            }
            assert(a@.take(a.len() as int) =~= a@);
            JsonValue::Array(out)
        },
        JsonValue::Object(ms) => {
            let mut out: Vec<JsonMember> = Vec::new();
            let mut i: usize = 0;
            while i < ms.len()
                invariant
                    *v == JsonValue::Object(*ms),
                    i <= ms.len(),
                    members_view(out@) == strict_members(members_view(ms@.take(i as int))),
                decreases ms.len() - i,
            {
                assert(decreases_to!(*v => (*v)->Object_0));
                assert(decreases_to!(*ms => ms@));
                assert(decreases_to!(ms@ => ms@[i as int]));
                assert(decreases_to!(ms@[i as int] => ms@[i as int].value));
                let x = strict_schema(&ms[i].value);
                let m = JsonMember { key: ms[i].key.clone(), value: x };
                proof {
                    assert(ms@.take(i + 1).drop_last() =~= ms@.take(i as int));
                    assert(members_view(ms@.take(i + 1)).drop_last() =~= members_view(
                        ms@.take(i as int),
                    ));
                    assert(out@.push(m).drop_last() =~= out@);
                }
                out.push(m);
                i = i + 1;
            }
            assert(ms@.take(ms.len() as int) =~= ms@);
            match properties_of(ms) {
                Some(names) => {
                    put_member(&mut out, "additionalProperties", JsonValue::Bool(false));
                    put_member(&mut out, "required", JsonValue::Array(names));
                },
                None => {},
            }
            JsonValue::Object(out)
        },
        _ => copy_json(v),
    }
}

/// Makes the schema `val` strict, at every depth.
pub fn enforce_strict_schema(val: &mut JsonValue)
    ensures
        json_view(*final(val)) == strict(json_view(*old(val))),
{
    let r = strict_schema(&*val);
    *val = r;
}

/// The declaration of a function that the model may call.
#[derive(Debug)]
pub struct FunctionDeclaration {
    pub name: String,
    pub description: String,
    pub parameters: JsonValue,
    pub strict: Option<bool>,
}

/// A tool as the model's API describes it.
#[derive(Debug)]
pub struct Tool {
    pub tool_type: String,
    pub function: FunctionDeclaration,
}

/// The description of a tool for the model: a strict function declaration
/// whose parameters are the tool's schema without its top-level `$schema`
/// and `title`, in strict form.
pub fn as_api_tool(name: &str, description: &str, parameters: JsonValue) -> (r: Tool)
    ensures
        r.tool_type@ == "function"@,
        r.function.name@ == name@,
        r.function.description@ == description@,
        json_view(r.function.parameters) == declared_parameters(json_view(parameters)),
        r.function.strict == Some(true),
{
    let mut params = parameters;
    match &params {
        JsonValue::Object(ms) => {
            let a = remove_members(ms, "$schema");
            let b = remove_members(&a, "title");
            params = JsonValue::Object(b);
        },
        _ => {},
    }
    enforce_strict_schema(&mut params);
    Tool {
        tool_type: String::from_str("function"),
        function: FunctionDeclaration {
            name: String::from_str(name),
            description: String::from_str(description),
            parameters: params,
            strict: Some(true),
        },
    }
}

/// Whether making `v` strict a second time would change nothing: at every
/// object, making its members strict keeps the names of its properties. This
/// fails only where a properties object itself holds an object named
/// `properties`, and so gains `additionalProperties` or `required`.
pub open spec fn strict_stable(v: JsonView) -> bool
    decreases v, 1int,
{
    match v {
        JsonView::Array(a) => items_stable(a),
        JsonView::Object(ms) => members_stable(ms) && property_names(strict_members(ms))
            == property_names(ms),
        _ => true,
    }
}

pub open spec fn items_stable(a: Seq<JsonView>) -> bool
    decreases a, 0int,
{
    if a.len() == 0 {
        true
    } else {
        items_stable(a.drop_last()) && strict_stable(a.last())
    }
}

pub open spec fn members_stable(ms: Seq<(Seq<char>, JsonView)>) -> bool
    decreases ms, 0int,
{
    if ms.len() == 0 {
        true
    } else {
        members_stable(ms.drop_last()) && strict_stable(ms.last().1)
    }
}

proof fn lemma_strict_members_shape(ms: Seq<(Seq<char>, JsonView)>)
    ensures
        strict_members(ms).len() == ms.len(),
        forall|i: int|
            0 <= i < ms.len() ==> #[trigger] strict_members(ms)[i] == (ms[i].0, strict(ms[i].1)),
    decreases ms.len(),
{
    if ms.len() > 0 {
        lemma_strict_members_shape(ms.drop_last());
    }
}

proof fn lemma_strict_items_shape(a: Seq<JsonView>)
    ensures
        strict_items(a).len() == a.len(),
        forall|i: int| 0 <= i < a.len() ==> #[trigger] strict_items(a)[i] == strict(a[i]),
    decreases a.len(),
{
    if a.len() > 0 {
        lemma_strict_items_shape(a.drop_last());
    }
}

proof fn lemma_member_pos(ms: Seq<(Seq<char>, JsonView)>, k: Seq<char>)
    ensures
        0 <= member_pos(ms, k) <= ms.len(),
        member_pos(ms, k) < ms.len() ==> ms[member_pos(ms, k)].0 == k,
        forall|j: int| 0 <= j < member_pos(ms, k) ==> ms[j].0 != k,
    decreases ms.len(),
{
    if ms.len() > 0 && ms[0].0 != k {
        lemma_member_pos(ms.drop_first(), k);
        assert forall|j: int| 0 <= j < member_pos(ms, k) implies ms[j].0 != k by {
            if j > 0 {
                assert(ms[j] == ms.drop_first()[j - 1]);
            }
        }
    }
}

/// The first member named `k` is found where the names agree up to it.
proof fn lemma_member_pos_at(ms: Seq<(Seq<char>, JsonView)>, k: Seq<char>, p: int)
    requires
        0 <= p < ms.len(),
        ms[p].0 == k,
        forall|j: int| 0 <= j < p ==> ms[j].0 != k,
    ensures
        member_pos(ms, k) == p,
{
    lemma_member_pos(ms, k);
}

/// Setting a member leaves the names before the end as they were, leaves
/// every other member in place, and leaves the member set where its name is
/// found.
proof fn lemma_set_member(ms: Seq<(Seq<char>, JsonView)>, k: Seq<char>, v: JsonView)
    ensures
        ({
            let t = set_member(ms, k, v);
            &&& t.len() >= ms.len()
            &&& forall|j: int| 0 <= j < ms.len() ==> #[trigger] t[j].0 == ms[j].0
            &&& forall|j: int| 0 <= j < ms.len() && ms[j].0 != k ==> #[trigger] t[j] == ms[j]
            &&& forall|j: int| ms.len() <= j < t.len() ==> #[trigger] t[j] == (k, v)
            &&& forall|j: int| 0 <= j < t.len() ==> #[trigger] t[j] == (k, v) || (j < ms.len() && t[j] == ms[j])
            &&& member_pos(t, k) < t.len()
            &&& t[member_pos(t, k)] == (k, v)
        }),
{
    lemma_member_pos(ms, k);
    let p = member_pos(ms, k);
    let t = set_member(ms, k, v);
    if p < ms.len() {
        lemma_member_pos_at(t, k, p);
    } else {
        lemma_member_pos_at(t, k, ms.len() as int);
    }
}

/// A member that is already set is set again to no effect.
proof fn lemma_set_member_present(ms: Seq<(Seq<char>, JsonView)>, k: Seq<char>, v: JsonView)
    requires
        member_pos(ms, k) < ms.len(),
        ms[member_pos(ms, k)] == (k, v),
    ensures
        set_member(ms, k, v) == ms,
{
    lemma_member_pos(ms, k);
    assert(ms.update(member_pos(ms, k), (k, v)) =~= ms);
}

/// Members whose values are already strict are their own strict members.
proof fn lemma_strict_members_fixed(ms: Seq<(Seq<char>, JsonView)>)
    requires
        forall|i: int| 0 <= i < ms.len() ==> strict(#[trigger] ms[i].1) == ms[i].1,
    ensures
        strict_members(ms) == ms,
{
    lemma_strict_members_shape(ms);
    assert(strict_members(ms) =~= ms);
}

/// The property names that `strict` lists are strings, which are strict.
proof fn lemma_names_fixed(props: Seq<(Seq<char>, JsonView)>)
    ensures
        ({
            let names = props.map_values(|m: (Seq<char>, JsonView)| JsonView::Str(m.0));
            strict_items(names) == names
        }),
{
    let names = props.map_values(|m: (Seq<char>, JsonView)| JsonView::Str(m.0));
    lemma_strict_items_shape(names);
    assert(strict_items(names) =~= names);
}

proof fn lemma_items_idempotent(a: Seq<JsonView>)
    requires
        items_stable(a),
    ensures
        strict_items(strict_items(a)) == strict_items(a),
    decreases a, 0int,
{
    if a.len() > 0 {
        lemma_items_idempotent(a.drop_last());
        lemma_strict_idempotent(a.last());
        let s = strict_items(a);
        assert(s.drop_last() =~= strict_items(a.drop_last()));
    }
}

proof fn lemma_members_idempotent(ms: Seq<(Seq<char>, JsonView)>)
    requires
        members_stable(ms),
    ensures
        strict_members(strict_members(ms)) == strict_members(ms),
    decreases ms, 0int,
{
    if ms.len() > 0 {
        lemma_members_idempotent(ms.drop_last());
        lemma_strict_idempotent(ms.last().1);
        let s = strict_members(ms);
        assert(s.drop_last() =~= strict_members(ms.drop_last()));
    }
}

proof fn lemma_strict_idempotent(v: JsonView)
    requires
        strict_stable(v),
    ensures
        strict(strict(v)) == strict(v),
    decreases v, 1int,
{
    match v {
        JsonView::Array(a) => {
            lemma_items_idempotent(a);
        },
        JsonView::Object(ms) => {
            lemma_members_idempotent(ms);
            let d = strict_members(ms);
            lemma_strict_members_shape(d);
            assert forall|i: int| 0 <= i < d.len() implies strict(#[trigger] d[i].1) == d[i].1 by {
                assert(strict_members(d)[i] == d[i]);
            }
            match property_names(ms) {
                Some(names) => {
                    let ap = "additionalProperties"@;
                    let rq = "required"@;
                    let r1 = set_member(d, ap, JsonView::Bool(false));
                    let r = set_member(r1, rq, JsonView::Array(names));
                    lemma_set_member(d, ap, JsonView::Bool(false));
                    lemma_set_member(r1, rq, JsonView::Array(names));
                    let pr = "properties"@;
                    reveal_strlit("properties");
                    reveal_strlit("additionalProperties");
                    reveal_strlit("required");
                    assert(pr.len() != ap.len());
                    assert(pr.len() != rq.len());
                    assert(ap.len() != rq.len());
                    // the members of the result are strict already
                    lemma_member_pos(ms, pr);
                    lemma_names_fixed(ms[member_pos(ms, pr)].1->Object_0);
                    assert(strict(JsonView::Array(names)) == JsonView::Array(names));
                    assert forall|i: int| 0 <= i < r.len() implies strict(#[trigger] r[i].1)
                        == r[i].1 by {
                        if r[i] != (rq, JsonView::Array(names)) {
                            assert(r[i] == r1[i]);
                            if r1[i] != (ap, JsonView::Bool(false)) {
                                assert(r1[i] == d[i]);
                            }
                        }
                    }
                    lemma_strict_members_fixed(r);
                    // the properties are found where they were, with the same names
                    let pp = member_pos(d, pr);
                    lemma_member_pos(d, pr);
                    lemma_member_pos(ms, pr);
                    assert(pp < d.len());
                    assert(r1[pp] == d[pp]);
                    assert(r[pp] == d[pp]);
                    assert forall|j: int| 0 <= j < pp implies r[j].0 != pr by {
                        assert(r[j].0 == r1[j].0);
                        assert(r1[j].0 == d[j].0);
                    }
                    lemma_member_pos_at(r, pr, pp);
                    assert(property_names(r) == property_names(d));
                    // setting the two members again changes nothing
                    let q = member_pos(r1, ap);
                    lemma_member_pos(r1, ap);
                    assert(r[q] == r1[q]);
                    assert forall|j: int| 0 <= j < q implies r[j].0 != ap by {
                        assert(r[j].0 == r1[j].0);
                    }
                    lemma_member_pos_at(r, ap, q);
                    lemma_set_member_present(r, ap, JsonView::Bool(false));
                    lemma_set_member_present(r, rq, JsonView::Array(names));
                },
                None => {
                    lemma_strict_members_fixed(d);
                },
            }
        },
        _ => {},
    }
}

/// Law: making a schema strict a second time changes nothing, for every
/// schema in which each object keeps the names of its properties when its
/// members are made strict.
pub proof fn law_strict_idempotent(v: JsonView)
    requires
        strict_stable(v),
    ensures
        strict(strict(v)) == strict(v),
{
    lemma_strict_idempotent(v);
}

} // verus!
