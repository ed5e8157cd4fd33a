//! JSON values as trees, read from text and written back to text.

use crate::text::{decimal, join, lemma_join_step, signed_to_decimal};
use vstd::prelude::*;

verus! {

/// A JSON value.
///
/// A number is `Int` where it is an integer within `i64`; any other number is
/// `Real` and holds the text that stands for it.
#[derive(Debug, PartialEq, Eq)]
pub enum Json {
    Null,
    Bool(bool),
    Int(i64),
    Real(String),
    Text(String),
    List(Vec<Json>),
    Object(Vec<(String, Json)>),
}

/// The mathematical value of a [`Json`].
pub enum JsonView {
    Null,
    Bool(bool),
    Int(i64),
    Real(Seq<char>),
    Text(Seq<char>),
    List(Seq<JsonView>),
    Object(Seq<(Seq<char>, JsonView)>),
}

impl View for Json {
    type V = JsonView;

    open spec fn view(&self) -> JsonView
        decreases self,
    {
        match self {
            Json::Null => JsonView::Null,
            Json::Bool(b) => JsonView::Bool(*b),
            Json::Int(i) => JsonView::Int(*i),
            Json::Real(s) => JsonView::Real(s@),
            Json::Text(s) => JsonView::Text(s@),
            Json::List(items) => JsonView::List(
                Seq::new(
                    items.len() as nat,
                    |i: int|
                        if 0 <= i < items.len() {
                            items[i].view()
                        } else {
                            JsonView::Null
                        },
                ),
            ),
            Json::Object(members) => JsonView::Object(
                Seq::new(
                    members.len() as nat,
                    |i: int|
                        if 0 <= i < members.len() {
                            (members[i].0@, members[i].1.view())
                        } else {
                            (Seq::empty(), JsonView::Null)
                        },
                ),
            ),
        }
    }
}

impl JsonView {
    /// The texts of the items of a list.
    pub open spec fn item_texts(items: Seq<JsonView>) -> Seq<Seq<char>>
        decreases items,
    {
        Seq::new(
            items.len(),
            |i: int|
                if 0 <= i < items.len() {
                    items[i].text()
                } else {
                    Seq::empty()
                },
        )
    }

    /// The texts of the members of an object: the quoted key, a colon, the value.
    pub open spec fn member_texts(members: Seq<(Seq<char>, JsonView)>) -> Seq<Seq<char>>
        decreases members,
    {
        Seq::new(
            members.len(),
            |i: int|
                if 0 <= i < members.len() {
                    json_quote(members[i].0) + ":"@ + members[i].1.text()
                } else {
                    Seq::empty()
                },
        )
    }

    /// The compact text of the value: no white space, members in their order.
    pub open spec fn text(self) -> Seq<char>
        decreases self,
    {
        match self {
            JsonView::Null => "null"@,
            JsonView::Bool(b) => if b {
                "true"@
            } else {
                "false"@
            },
            JsonView::Int(i) => decimal(i as int),
            JsonView::Real(s) => s,
            JsonView::Text(s) => json_quote(s),
            JsonView::List(items) => "["@ + join(Self::item_texts(items), ","@) + "]"@,
            JsonView::Object(members) => "{"@ + join(Self::member_texts(members), ","@) + "}"@,
        }
    }
}

/// `serde_json::Value`, the tree that `serde_json` reads a text into. Nothing
/// inside it is seen here: it is only handed from `read_value` to `tree_of`.
#[verifier::external_type_specification]
#[verifier::external_body]
pub struct ExValue(serde_json::Value);

/// The tree that a `serde_json::Value` holds: its variant, and what is in it.
pub uninterp spec fn value_tree(v: serde_json::Value) -> JsonView;

/// What `serde_json` writes for a string: the JSON string, quotes and escapes
/// included.
pub uninterp spec fn json_quote(s: Seq<char>) -> Seq<char>;

/// What `serde_json` reads from a text: the tree, or the message of its error.
pub uninterp spec fn json_read(bytes: Seq<u8>) -> Result<JsonView, Seq<char>>;

/// `serde_json::from_slice` at `serde_json::Value`. The outcome is a function of
/// the bytes alone. An error is handed on as the text that it displays, which
/// is never empty: it says what was expected and at which line and column.
#[verifier::external_body]
fn read_value(bytes: &[u8]) -> (res: Result<serde_json::Value, String>)
    ensures
        match res {
            Ok(v) => json_read(bytes@) == Ok::<JsonView, Seq<char>>(value_tree(v)),
            Err(e) => json_read(bytes@) == Err::<JsonView, Seq<char>>(e@) && e@.len() > 0,
        },
{
    match serde_json::from_slice::<serde_json::Value>(bytes) {
        Ok(v) => Ok(v),
        Err(e) => Err(e.to_string()),
    }
}

/// Copies a `serde_json::Value` into a [`Json`], variant by variant. A number
/// becomes `Int` where `Number::as_i64` gives an integer, else `Real` with the
/// text that `Number` displays; the members of an object come in the order in
/// which its map hands them out. The outcome is a function of the value alone.
/// The values that `read_value` gives are at most 128 levels deep, which is
/// where `serde_json` stops reading.
#[verifier::external_body]
fn tree_of(v: &serde_json::Value) -> (res: Json)
    ensures
        res@ == value_tree(*v),
{
    match v {
        serde_json::Value::Null => Json::Null,
        serde_json::Value::Bool(b) => Json::Bool(*b),
        serde_json::Value::Number(n) => match n.as_i64() {
            Some(i) => Json::Int(i),
            None => Json::Real(n.to_string()),
        },
        serde_json::Value::String(s) => Json::Text(s.clone()),
        serde_json::Value::Array(a) => Json::List(a.iter().map(tree_of).collect()),
        serde_json::Value::Object(m) => Json::Object(
            m.iter().map(|(k, v)| (k.clone(), tree_of(v))).collect(),
        ),
    }
}

/// `serde_json::to_string` at `str`: the string as a JSON string, in quotes and
/// with its escapes. The outcome is a function of the string alone, and for a
/// string there is no error.
#[verifier::external_body]
fn quote(s: &str) -> (res: String)
    ensures
        res@ == json_quote(s@),
{
    serde_json::to_string(s).unwrap_or_default()
}

/// The views of the items of a list.
pub open spec fn items_view(items: Seq<Json>) -> Seq<JsonView> {
    Seq::new(items.len(), |i: int| items[i]@)
}

/// The views of the members of an object.
pub open spec fn members_view(members: Seq<(String, Json)>) -> Seq<(Seq<char>, JsonView)> {
    Seq::new(members.len(), |i: int| (members[i].0@, members[i].1@))
}

/// The value of the first member of the given name.
pub open spec fn find(members: Seq<(Seq<char>, JsonView)>, name: Seq<char>) -> Option<JsonView>
    decreases members.len(),
{
    if members.len() == 0 {
        None
    } else if members[0].0 == name {
        Some(members[0].1)
    } else {
        find(members.subrange(1, members.len() as int), name)
    }
}

/// The members that one field of a record gives: one where the field has a
/// value, none where it has not.
pub open spec fn field(name: Seq<char>, value: Option<JsonView>) -> Seq<(Seq<char>, JsonView)> {
    match value {
        Some(v) => seq![(name, v)],
        None => Seq::empty(),
    }
}

/// A lookup among members that end in those of a field finds what stands
/// before the field first, and the field's value under the field's name.
pub broadcast proof fn lemma_find_field(
    rest: Seq<(Seq<char>, JsonView)>,
    name: Seq<char>,
    value: Option<JsonView>,
    wanted: Seq<char>,
)
    ensures
        #[trigger] find(rest + field(name, value), wanted) == (match find(rest, wanted) {
            Some(v) => Some(v),
            None => if wanted == name {
                value
            } else {
                None
            },
        }),
    decreases rest.len(),
{
    let all = rest + field(name, value);
    if rest.len() == 0 {
        assert(all =~= field(name, value));
        if value is Some {
            assert(all.subrange(1, all.len() as int) =~= Seq::empty());
            assert(find(all.subrange(1, all.len() as int), wanted) is None);
        }
    } else {
        assert(all[0] == rest[0]);
        let tail = rest.subrange(1, rest.len() as int);
        assert(all.subrange(1, all.len() as int) =~= tail + field(name, value));
        lemma_find_field(tail, name, value, wanted);
    }
}

/// Nothing is found among no members.
pub broadcast proof fn lemma_find_none(wanted: Seq<char>)
    ensures
        #[trigger] find(Seq::empty(), wanted) is None,
{
}

impl Json {
    /// The view of a list holds the views of its items, in their order.
    pub proof fn lemma_view_list(self)
        requires
            self is List,
        ensures
            self@ == JsonView::List(items_view(self->List_0@)),
    {
        reveal_with_fuel(<Json as View>::view, 2);
        assert(self@->List_0 =~= items_view(self->List_0@));
    }

    /// The view of an object holds the views of its members, in their order.
    pub proof fn lemma_view_object(self)
        requires
            self is Object,
        ensures
            self@ == JsonView::Object(members_view(self->Object_0@)),
    {
        reveal_with_fuel(<Json as View>::view, 2);
        assert(self@->Object_0 =~= members_view(self->Object_0@));
    }

    /// The member of the given name, where `members` has one: the first of them.
    pub fn find<'a>(members: &'a Vec<(String, Json)>, name: &str) -> (res: Option<&'a Json>)
        ensures
            match res {
                Some(j) => find(members_view(members@), name@) == Some(j@),
                None => find(members_view(members@), name@) is None,
            },
    {
        let wanted = String::from_str(name);
        let ghost all = members_view(members@);
        proof {
            assert(all.subrange(0, all.len() as int) =~= all);
        }
        let mut i: usize = 0;
        while i < members.len()
            invariant
                i <= members.len(),
                all == members_view(members@),
                wanted@ == name@,
                find(all, name@) == find(all.subrange(i as int, all.len() as int), name@),
            decreases members.len() - i,
        {
            let ghost rest = all.subrange(i as int, all.len() as int);
            proof {
                assert(rest[0] == (members[i as int].0@, members[i as int].1@));
                assert(rest.subrange(1, rest.len() as int) =~= all.subrange(
                    i + 1,
                    all.len() as int,
                ));
            }
            if members[i].0 == wanted {
                return Some(&members[i].1);
            }
            i += 1;
        }
        None
    }
}

impl Json {
    /// Writes the value as compact JSON text.
    pub fn render(&self) -> (res: String)
        ensures
            res@ == self@.text(),
        decreases self,
    {
        match self {
            Json::Null => String::from_str("null"),
            Json::Bool(b) => if *b {
                String::from_str("true")
            } else {
                String::from_str("false")
            },
            Json::Int(i) => signed_to_decimal(*i),
            Json::Real(s) => s.clone(),
            Json::Text(s) => quote(s.as_str()),
            Json::List(items) => {
                let ghost parts = JsonView::item_texts(self@->List_0);
                proof {
                    self.lemma_view_list();
                    assert forall|k: int| 0 <= k < items.len() implies #[trigger] parts[k]
                        == items[k]@.text() by {
                        assert(self@->List_0[k] == items[k]@);
                    }
                }
                let mut out = String::from_str("[");
                let mut i: usize = 0;
                while i < items.len()
                    invariant
                        i <= items.len(),
                        self is List,
                        *items == self->List_0,
                        parts.len() == items.len(),
                        forall|k: int| 0 <= k < items.len() ==> #[trigger] parts[k] == items[k]@.text(),
                        out@ == "["@ + join(parts.take(i as int), ","@),
                    decreases items.len() - i,
                {
                    if i > 0 {
                        out.append(",");
                    }
                    proof {
                        broadcast use vstd::std_specs::vec::axiom_vec_index_decreases;
                        assert(decreases_to!(self->List_0 => self->List_0[i as int]));
                        assert(decreases_to!(*self => self->List_0));
                    }
                    let item = items[i].render();
                    out.append(item.as_str());
                    proof {
                        lemma_join_step(parts, ","@, i as int);
                        assert(out@ =~= "["@ + join(parts.take(i + 1), ","@));
                    }
                    i += 1;
                }
                out.append("]");
                proof {
                    assert(parts.take(i as int) =~= parts);
                }
                out
            },
            Json::Object(members) => {
                let ghost parts = JsonView::member_texts(self@->Object_0);
                proof {
                    self.lemma_view_object();
                    assert forall|k: int| 0 <= k < members.len() implies #[trigger] parts[k]
                        == json_quote(members[k].0@) + ":"@ + members[k].1@.text() by {
                        assert(self@->Object_0[k] == (members[k].0@, members[k].1@));
                    }
                }
                let mut out = String::from_str("{");
                let mut i: usize = 0;
                while i < members.len()
                    invariant
                        i <= members.len(),
                        self is Object,
                        *members == self->Object_0,
                        parts.len() == members.len(),
                        forall|k: int|
                            0 <= k < members.len() ==> #[trigger] parts[k] == json_quote(
                                members[k].0@,
                            ) + ":"@ + members[k].1@.text(),
                        out@ == "{"@ + join(parts.take(i as int), ","@),
                    decreases members.len() - i,
                {
                    if i > 0 {
                        out.append(",");
                    }
                    let key = quote(members[i].0.as_str());
                    out.append(key.as_str());
                    out.append(":");
                    proof {
                        broadcast use vstd::std_specs::vec::axiom_vec_index_decreases;
                        assert(decreases_to!(self->Object_0 => self->Object_0[i as int]));
                        assert(decreases_to!(self->Object_0[i as int] => self->Object_0[i as int].1));
                        assert(decreases_to!(*self => self->Object_0));
                    }
                    let value = members[i].1.render();
                    out.append(value.as_str());
                    proof {
                        lemma_join_step(parts, ","@, i as int);
                        assert(out@ =~= "{"@ + join(parts.take(i + 1), ","@));
                    }
                    i += 1;
                }
                out.append("}");
                proof {
                    assert(parts.take(i as int) =~= parts);
                }
                out
            },
        }
    }

    /// Reads a JSON text: its tree, or the message that says why it is none.
    /// The message is never empty.
    pub fn parse(bytes: &[u8]) -> (res: Result<Json, String>)
        ensures
            match res {
                Ok(j) => json_read(bytes@) == Ok::<JsonView, Seq<char>>(j@),
                Err(e) => json_read(bytes@) == Err::<JsonView, Seq<char>>(e@) && e@.len() > 0,
            },
    {
        match read_value(bytes) {
            Ok(v) => Ok(tree_of(&v)),
            Err(e) => Err(e),
        }
    }
}

} // verus!
