//! How values travel as JSON: the names of the members, the errors of reading,
//! and what is common to records, lists and mappings.

use crate::json::{field, find, items_view, json_read, members_view, Json, JsonView};
use vstd::prelude::*;

verus! {

/// The names of the members that the documents use.
#[derive(Clone, Copy, Debug, PartialEq, Eq, Structural)]
pub enum Key {
    Description,
    Variable,
    Zone,
    Policy,
    ClampMss,
    Filter,
    Dnat,
    Snat,
    Service,
    In,
    Out,
    Action,
    Dest,
    ToPort,
    ConnLimit,
    Count,
    Interval,
    Proto,
    Port,
    Iface,
    Message,
}

impl Key {
    /// The name as it stands in a document.
    pub open spec fn name(self) -> Seq<char> {
        match self {
            Key::Description => "description"@,
            Key::Variable => "variable"@,
            Key::Zone => "zone"@,
            Key::Policy => "policy"@,
            Key::ClampMss => "clamp-mss"@,
            Key::Filter => "filter"@,
            Key::Dnat => "dnat"@,
            Key::Snat => "snat"@,
            Key::Service => "service"@,
            Key::In => "in"@,
            Key::Out => "out"@,
            Key::Action => "action"@,
            Key::Dest => "dest"@,
            Key::ToPort => "to-port"@,
            Key::ConnLimit => "conn-limit"@,
            Key::Count => "count"@,
            Key::Interval => "interval"@,
            Key::Proto => "proto"@,
            Key::Port => "port"@,
            Key::Iface => "iface"@,
            Key::Message => "message"@,
        }
    }

    pub fn as_str(&self) -> (res: &'static str)
        ensures
            res@ == self.name(),
    {
        match self {
            Key::Description => "description",
            Key::Variable => "variable",
            Key::Zone => "zone",
            Key::Policy => "policy",
            Key::ClampMss => "clamp-mss",
            Key::Filter => "filter",
            Key::Dnat => "dnat",
            Key::Snat => "snat",
            Key::Service => "service",
            Key::In => "in",
            Key::Out => "out",
            Key::Action => "action",
            Key::Dest => "dest",
            Key::ToPort => "to-port",
            Key::ConnLimit => "conn-limit",
            Key::Count => "count",
            Key::Interval => "interval",
            Key::Proto => "proto",
            Key::Port => "port",
            Key::Iface => "iface",
            Key::Message => "message",
        }
    }

    /// The length of a name and its first two characters.
    pub open spec fn mark(name: Seq<char>) -> (nat, char, char) {
        (name.len(), name[0], name[1])
    }

    /// No two keys have the same name.
    pub proof fn lemma_names_differ()
        ensures
            forall|a: Key, b: Key| #[trigger] a.name() == #[trigger] b.name() ==> a == b,
    {
        reveal_strlit("description");
        reveal_strlit("variable");
        reveal_strlit("zone");
        reveal_strlit("policy");
        reveal_strlit("clamp-mss");
        reveal_strlit("filter");
        reveal_strlit("dnat");
        reveal_strlit("snat");
        reveal_strlit("service");
        reveal_strlit("in");
        reveal_strlit("out");
        reveal_strlit("action");
        reveal_strlit("dest");
        reveal_strlit("to-port");
        reveal_strlit("conn-limit");
        reveal_strlit("count");
        reveal_strlit("interval");
        reveal_strlit("proto");
        reveal_strlit("port");
        reveal_strlit("iface");
        reveal_strlit("message");
        assert(Self::mark(Key::Description.name()) == (11nat, 'd', 'e'));
        assert(Self::mark(Key::Variable.name()) == (8nat, 'v', 'a'));
        assert(Self::mark(Key::Zone.name()) == (4nat, 'z', 'o'));
        assert(Self::mark(Key::Policy.name()) == (6nat, 'p', 'o'));
        assert(Self::mark(Key::ClampMss.name()) == (9nat, 'c', 'l'));
        assert(Self::mark(Key::Filter.name()) == (6nat, 'f', 'i'));
        assert(Self::mark(Key::Dnat.name()) == (4nat, 'd', 'n'));
        assert(Self::mark(Key::Snat.name()) == (4nat, 's', 'n'));
        assert(Self::mark(Key::Service.name()) == (7nat, 's', 'e'));
        assert(Self::mark(Key::In.name()) == (2nat, 'i', 'n'));
        assert(Self::mark(Key::Out.name()) == (3nat, 'o', 'u'));
        assert(Self::mark(Key::Action.name()) == (6nat, 'a', 'c'));
        assert(Self::mark(Key::Dest.name()) == (4nat, 'd', 'e'));
        assert(Self::mark(Key::ToPort.name()) == (7nat, 't', 'o'));
        assert(Self::mark(Key::ConnLimit.name()) == (10nat, 'c', 'o'));
        assert(Self::mark(Key::Count.name()) == (5nat, 'c', 'o'));
        assert(Self::mark(Key::Interval.name()) == (8nat, 'i', 'n'));
        assert(Self::mark(Key::Proto.name()) == (5nat, 'p', 'r'));
        assert(Self::mark(Key::Port.name()) == (4nat, 'p', 'o'));
        assert(Self::mark(Key::Iface.name()) == (5nat, 'i', 'f'));
        assert(Self::mark(Key::Message.name()) == (7nat, 'm', 'e'));
        assert forall|a: Key, b: Key| #[trigger] a.name() == #[trigger] b.name() implies a
            == b by {
            assert(Self::mark(a.name()) == Self::mark(b.name()));
        }
    }
}

/// What a value in a document has to be.
#[derive(Clone, Copy, Debug, PartialEq, Eq, Structural)]
pub enum Shape {
    Text,
    Integer,
    List,
    Object,
}

/// Why a tree is no document.
#[derive(Clone, Copy, Debug, PartialEq, Eq, Structural)]
pub enum SchemaError {
    /// A member that must be there is not.
    Missing(Key),
    /// A value is not of the shape that its place asks for.
    Type(Shape),
    /// An integer does not fit the type of its place.
    Range,
    /// A mapping names a key twice.
    Duplicate,
}

impl SchemaError {
    /// The error in words.
    pub open spec fn text(self) -> Seq<char> {
        match self {
            SchemaError::Missing(key) => "missing field `"@ + key.name() + "`"@,
            SchemaError::Type(Shape::Text) => "invalid type: expected a string"@,
            SchemaError::Type(Shape::Integer) => "invalid type: expected an integer"@,
            SchemaError::Type(Shape::List) => "invalid type: expected a sequence"@,
            SchemaError::Type(Shape::Object) => "invalid type: expected a map"@,
            SchemaError::Range => "invalid value: integer out of range"@,
            SchemaError::Duplicate => "invalid value: duplicate key"@,
        }
    }

    /// The words of an error are never none.
    pub proof fn lemma_text_not_empty(self)
        ensures
            self.text().len() > 0,
    {
        reveal_strlit("missing field `");
        reveal_strlit("invalid type: expected a string");
        reveal_strlit("invalid type: expected an integer");
        reveal_strlit("invalid type: expected a sequence");
        reveal_strlit("invalid type: expected a map");
        reveal_strlit("invalid value: integer out of range");
        reveal_strlit("invalid value: duplicate key");
    }

    /// The error in words.
    pub fn message(&self) -> (res: String)
        ensures
            res@ == self.text(),
    {
        match self {
            SchemaError::Missing(key) => {
                let mut out = String::from_str("missing field `");
                out.append(key.as_str());
                out.append("`");
                out
            },
            SchemaError::Type(Shape::Text) => String::from_str("invalid type: expected a string"),
            SchemaError::Type(Shape::Integer) => String::from_str(
                "invalid type: expected an integer",
            ),
            SchemaError::Type(Shape::List) => String::from_str(
                "invalid type: expected a sequence",
            ),
            SchemaError::Type(Shape::Object) => String::from_str("invalid type: expected a map"),
            SchemaError::Range => String::from_str("invalid value: integer out of range"),
            SchemaError::Duplicate => String::from_str("invalid value: duplicate key"),
        }
    }
}

/// A value that travels as JSON.
///
/// `to_tree` says how the value is written and `from_tree` which trees are read
/// as which value; `encode` and `decode` compute the two. `valid` holds of the
/// values that reading gives, and those are read back as they were written.
pub trait Wire: Sized + View {
    spec fn valid(m: Self::V) -> bool;

    spec fn to_tree(m: Self::V) -> JsonView;

    spec fn from_tree(j: JsonView) -> Result<Self::V, SchemaError>;

    fn encode(&self) -> (res: Json)
        ensures
            res@ == Self::to_tree(self@),
    ;

    fn decode(j: &Json) -> (res: Result<Self, SchemaError>)
        ensures
            match res {
                Ok(v) => Self::from_tree(j@) == Ok::<Self::V, SchemaError>(v@),
                Err(e) => Self::from_tree(j@) == Err::<Self::V, SchemaError>(e),
            },
    ;

    /// What was written is read back as it was.
    proof fn lemma_round_trip(m: Self::V)
        requires
            Self::valid(m),
        ensures
            Self::from_tree(Self::to_tree(m)) == Ok::<Self::V, SchemaError>(m),
    ;

    /// What is read is valid.
    proof fn lemma_read_valid(j: JsonView)
        ensures
            Self::from_tree(j) matches Ok(m) ==> Self::valid(m),
    ;
}

/// The views of the elements of a vector.
pub open spec fn views<T: View>(xs: Seq<T>) -> Seq<T::V> {
    Seq::new(xs.len(), |i: int| xs[i]@)
}

/// The views of the entries of a mapping.
pub open spec fn entry_views<T: View>(es: Seq<(String, T)>) -> Seq<(Seq<char>, T::V)> {
    Seq::new(es.len(), |i: int| (es[i].0@, es[i].1@))
}

/// No name occurs twice.
pub open spec fn distinct<A>(es: Seq<(Seq<char>, A)>) -> bool {
    forall|i: int, j: int| 0 <= i < j < es.len() ==> es[i].0 != es[j].0
}

/// Every element is valid.
pub open spec fn list_valid<T: Wire>(xs: Seq<T::V>) -> bool {
    forall|i: int| 0 <= i < xs.len() ==> T::valid(#[trigger] xs[i])
}

/// No key occurs twice and every value is valid.
pub open spec fn map_valid<T: Wire>(es: Seq<(Seq<char>, T::V)>) -> bool {
    &&& distinct(es)
    &&& forall|i: int| 0 <= i < es.len() ==> T::valid(#[trigger] es[i].1)
}

/// A list as trees: one for each element, in their order.
pub open spec fn list_to_trees<T: Wire>(xs: Seq<T::V>) -> Seq<JsonView> {
    Seq::new(xs.len(), |i: int| T::to_tree(xs[i]))
}

/// The elements that the trees are read as, or the error of the first tree
/// that is read as none.
pub open spec fn list_from_trees<T: Wire>(items: Seq<JsonView>) -> Result<Seq<T::V>, SchemaError>
    decreases items.len(),
{
    if items.len() == 0 {
        Ok(Seq::empty())
    } else {
        match list_from_trees::<T>(items.drop_last()) {
            Err(e) => Err(e),
            Ok(xs) => match T::from_tree(items.last()) {
                Err(e) => Err(e),
                Ok(x) => Ok(xs.push(x)),
            },
        }
    }
}

/// A mapping as members: one for each entry, in their order.
pub open spec fn map_to_members<T: Wire>(es: Seq<(Seq<char>, T::V)>) -> Seq<
    (Seq<char>, JsonView),
> {
    Seq::new(es.len(), |i: int| (es[i].0, T::to_tree(es[i].1)))
}

/// The entries that the members are read as, or the error of the first member
/// whose value is read as none.
pub open spec fn map_from_members<T: Wire>(members: Seq<(Seq<char>, JsonView)>) -> Result<
    Seq<(Seq<char>, T::V)>,
    SchemaError,
>
    decreases members.len(),
{
    if members.len() == 0 {
        Ok(Seq::empty())
    } else {
        match map_from_members::<T>(members.drop_last()) {
            Err(e) => Err(e),
            Ok(es) => match T::from_tree(members.last().1) {
                Err(e) => Err(e),
                Ok(x) => Ok(es.push((members.last().0, x))),
            },
        }
    }
}

/// Reads a list: the tree must be a list, and each item an element.
pub open spec fn list_from_tree<T: Wire>(j: JsonView) -> Result<Seq<T::V>, SchemaError> {
    match j {
        JsonView::List(items) => list_from_trees::<T>(items),
        _ => Err(SchemaError::Type(Shape::List)),
    }
}

/// Reads a mapping: the tree must be an object that names no key twice, and
/// each value an element.
pub open spec fn map_from_tree<T: Wire>(j: JsonView) -> Result<
    Seq<(Seq<char>, T::V)>,
    SchemaError,
> {
    match j {
        JsonView::Object(members) => if distinct(members) {
            map_from_members::<T>(members)
        } else {
            Err(SchemaError::Duplicate)
        },
        _ => Err(SchemaError::Type(Shape::Object)),
    }
}

/// Reads a member that must be there.
pub open spec fn required<T: Wire>(members: Seq<(Seq<char>, JsonView)>, key: Key) -> Result<
    T::V,
    SchemaError,
> {
    match find(members, key.name()) {
        None => Err(SchemaError::Missing(key)),
        Some(j) => T::from_tree(j),
    }
}

/// Reads a member that may be absent or null.
pub open spec fn optional<T: Wire>(members: Seq<(Seq<char>, JsonView)>, key: Key) -> Result<
    Option<T::V>,
    SchemaError,
> {
    match find(members, key.name()) {
        None => Ok(None),
        Some(JsonView::Null) => Ok(None),
        Some(j) => match T::from_tree(j) {
            Err(e) => Err(e),
            Ok(v) => Ok(Some(v)),
        },
    }
}

/// Reads a list that must be there; it may be empty.
pub open spec fn required_list<T: Wire>(members: Seq<(Seq<char>, JsonView)>, key: Key) -> Result<
    Seq<T::V>,
    SchemaError,
> {
    match find(members, key.name()) {
        None => Err(SchemaError::Missing(key)),
        Some(j) => list_from_tree::<T>(j),
    }
}

/// Reads a list that may be absent or null; an empty one counts as absent.
pub open spec fn optional_list<T: Wire>(members: Seq<(Seq<char>, JsonView)>, key: Key) -> Result<
    Option<Seq<T::V>>,
    SchemaError,
> {
    match find(members, key.name()) {
        None => Ok(None),
        Some(JsonView::Null) => Ok(None),
        Some(j) => match list_from_tree::<T>(j) {
            Err(e) => Err(e),
            Ok(xs) => if xs.len() == 0 {
                Ok(None)
            } else {
                Ok(Some(xs))
            },
        },
    }
}

/// Reads a mapping that must be there; it may be empty.
pub open spec fn required_map<T: Wire>(members: Seq<(Seq<char>, JsonView)>, key: Key) -> Result<
    Seq<(Seq<char>, T::V)>,
    SchemaError,
> {
    match find(members, key.name()) {
        None => Err(SchemaError::Missing(key)),
        Some(j) => map_from_tree::<T>(j),
    }
}

/// Reads a mapping that may be absent or null; an empty one counts as absent.
pub open spec fn optional_map<T: Wire>(members: Seq<(Seq<char>, JsonView)>, key: Key) -> Result<
    Option<Seq<(Seq<char>, T::V)>>,
    SchemaError,
> {
    match find(members, key.name()) {
        None => Ok(None),
        Some(JsonView::Null) => Ok(None),
        Some(j) => match map_from_tree::<T>(j) {
            Err(e) => Err(e),
            Ok(es) => if es.len() == 0 {
                Ok(None)
            } else {
                Ok(Some(es))
            },
        },
    }
}

/// The member that writes a value that may be absent.
pub open spec fn optional_field<T: Wire>(key: Key, value: Option<T::V>) -> Seq<
    (Seq<char>, JsonView),
> {
    field(
        key.name(),
        match value {
            Some(v) => Some(T::to_tree(v)),
            None => None,
        },
    )
}

/// The member that writes a list that may be absent; an empty one is not written.
pub open spec fn optional_list_field<T: Wire>(key: Key, value: Option<Seq<T::V>>) -> Seq<
    (Seq<char>, JsonView),
> {
    field(
        key.name(),
        match value {
            Some(xs) => if xs.len() == 0 {
                None
            } else {
                Some(JsonView::List(list_to_trees::<T>(xs)))
            },
            None => None,
        },
    )
}

/// The member that writes a mapping that may be absent; an empty one is not
/// written.
pub open spec fn optional_map_field<T: Wire>(
    key: Key,
    value: Option<Seq<(Seq<char>, T::V)>>,
) -> Seq<(Seq<char>, JsonView)> {
    field(
        key.name(),
        match value {
            Some(es) => if es.len() == 0 {
                None
            } else {
                Some(JsonView::Object(map_to_members::<T>(es)))
            },
            None => None,
        },
    )
}

/// Once a tree of a list is read as no element, the list is read as none, with
/// that error.
pub proof fn lemma_list_error_stays<T: Wire>(items: Seq<JsonView>, k: int)
    requires
        0 <= k <= items.len(),
        list_from_trees::<T>(items.take(k)) is Err,
    ensures
        list_from_trees::<T>(items) == list_from_trees::<T>(items.take(k)),
    decreases items.len() - k,
{
    if k < items.len() {
        assert(items.take(k + 1).drop_last() =~= items.take(k));
        lemma_list_error_stays::<T>(items, k + 1);
    } else {
        assert(items.take(k) =~= items);
    }
}

/// Once a value of a mapping is read as no element, the mapping is read as
/// none, with that error.
pub proof fn lemma_map_error_stays<T: Wire>(members: Seq<(Seq<char>, JsonView)>, k: int)
    requires
        0 <= k <= members.len(),
        map_from_members::<T>(members.take(k)) is Err,
    ensures
        map_from_members::<T>(members) == map_from_members::<T>(members.take(k)),
    decreases members.len() - k,
{
    if k < members.len() {
        assert(members.take(k + 1).drop_last() =~= members.take(k));
        lemma_map_error_stays::<T>(members, k + 1);
    } else {
        assert(members.take(k) =~= members);
    }
}

/// A list of valid elements is read back as it was written.
pub proof fn lemma_list_round_trip<T: Wire>(xs: Seq<T::V>)
    requires
        list_valid::<T>(xs),
    ensures
        list_from_trees::<T>(list_to_trees::<T>(xs)) == Ok::<Seq<T::V>, SchemaError>(xs),
    decreases xs.len(),
{
    let trees = list_to_trees::<T>(xs);
    if xs.len() == 0 {
        assert(xs =~= Seq::empty());
    } else {
        let front = xs.drop_last();
        assert(trees.drop_last() =~= list_to_trees::<T>(front));
        lemma_list_round_trip::<T>(front);
        T::lemma_round_trip(xs.last());
        assert(front.push(xs.last()) =~= xs);
    }
}

/// A mapping of valid values is read back as it was written.
pub proof fn lemma_map_round_trip<T: Wire>(es: Seq<(Seq<char>, T::V)>)
    requires
        map_valid::<T>(es),
    ensures
        map_from_members::<T>(map_to_members::<T>(es)) == Ok::<
            Seq<(Seq<char>, T::V)>,
            SchemaError,
        >(es),
        distinct(map_to_members::<T>(es)),
    decreases es.len(),
{
    let members = map_to_members::<T>(es);
    if es.len() == 0 {
        assert(es =~= Seq::empty());
    } else {
        let front = es.drop_last();
        assert(members.drop_last() =~= map_to_members::<T>(front));
        lemma_map_round_trip::<T>(front);
        T::lemma_round_trip(es.last().1);
        assert(front.push(es.last()) =~= es);
    }
}

/// The entries that members are read as have the members' names and valid
/// values.
pub proof fn lemma_map_read_valid<T: Wire>(members: Seq<(Seq<char>, JsonView)>)
    ensures
        map_from_members::<T>(members) matches Ok(es) ==> {
            &&& es.len() == members.len()
            &&& forall|i: int| 0 <= i < es.len() ==> (#[trigger] es[i]).0 == members[i].0
            &&& forall|i: int| 0 <= i < es.len() ==> T::valid(#[trigger] es[i].1)
        },
    decreases members.len(),
{
    if members.len() > 0 {
        lemma_map_read_valid::<T>(members.drop_last());
        T::lemma_read_valid(members.last().1);
    }
}

/// The view of a value that may be absent.
pub open spec fn option_view<T: View>(v: Option<T>) -> Option<T::V> {
    match v {
        Some(x) => Some(x@),
        None => None,
    }
}

/// The view of a list that may be absent.
pub open spec fn option_views<T: View>(v: Option<Vec<T>>) -> Option<Seq<T::V>> {
    match v {
        Some(xs) => Some(views(xs@)),
        None => None,
    }
}

/// The view of a mapping that may be absent.
pub open spec fn option_entry_views<T: View>(v: Option<Vec<(String, T)>>) -> Option<
    Seq<(Seq<char>, T::V)>,
> {
    match v {
        Some(es) => Some(entry_views(es@)),
        None => None,
    }
}

/// An object of the given members.
pub fn object(members: Vec<(String, Json)>) -> (res: Json)
    ensures
        res@ == JsonView::Object(members_view(members@)),
{
    let res = Json::Object(members);
    proof {
        res.lemma_view_object();
    }
    res
}

/// A list of the given items.
pub fn list(items: Vec<Json>) -> (res: Json)
    ensures
        res@ == JsonView::List(items_view(items@)),
{
    let res = Json::List(items);
    proof {
        res.lemma_view_list();
    }
    res
}

/// Appends the member of a field, where the field has a value.
pub fn write_field(members: &mut Vec<(String, Json)>, key: Key, value: Option<Json>)
    ensures
        members_view(final(members)@) == members_view(old(members)@) + field(
            key.name(),
            option_view(value),
        ),
{
    match value {
        Some(v) => {
            members.push((String::from_str(key.as_str()), v));
            proof {
                assert(members_view(members@) =~= members_view(old(members)@) + field(
                    key.name(),
                    Some(v@),
                ));
            }
        },
        None => {
            proof {
                assert(members_view(members@) =~= members_view(old(members)@) + field(
                    key.name(),
                    None,
                ));
            }
        },
    }
}

/// Writes a list.
pub fn encode_list<T: Wire>(xs: &Vec<T>) -> (res: Json)
    ensures
        res@ == JsonView::List(list_to_trees::<T>(views(xs@))),
{
    let mut items: Vec<Json> = Vec::new();
    let mut i: usize = 0;
    while i < xs.len()
        invariant
            i <= xs.len(),
            items@.len() == i,
            forall|k: int| 0 <= k < i ==> (#[trigger] items@[k])@ == T::to_tree(xs@[k]@),
        decreases xs.len() - i,
    {
        items.push(xs[i].encode());
        i += 1;
    }
    proof {
        assert(items_view(items@) =~= list_to_trees::<T>(views(xs@)));
    }
    list(items)
}

/// Writes a mapping.
pub fn encode_map<T: Wire>(es: &Vec<(String, T)>) -> (res: Json)
    ensures
        res@ == JsonView::Object(map_to_members::<T>(entry_views(es@))),
{
    let mut members: Vec<(String, Json)> = Vec::new();
    let mut i: usize = 0;
    while i < es.len()
        invariant
            i <= es.len(),
            members@.len() == i,
            forall|k: int|
                0 <= k < i ==> (#[trigger] members@[k]).0@ == es@[k].0@ && members@[k].1@
                    == T::to_tree(es@[k].1@),
        decreases es.len() - i,
    {
        members.push((es[i].0.clone(), es[i].1.encode()));
        i += 1;
    }
    proof {
        assert(members_view(members@) =~= map_to_members::<T>(entry_views(es@)));
    }
    object(members)
}

/// Reads a list.
pub fn decode_list<T: Wire>(j: &Json) -> (res: Result<Vec<T>, SchemaError>)
    ensures
        match res {
            Ok(xs) => list_from_tree::<T>(j@) == Ok::<Seq<T::V>, SchemaError>(views(xs@)),
            Err(e) => list_from_tree::<T>(j@) == Err::<Seq<T::V>, SchemaError>(e),
        },
{
    match j {
        Json::List(items) => {
            let ghost all = items_view(items@);
            proof {
                j.lemma_view_list();
            }
            let mut out: Vec<T> = Vec::new();
            proof {
                assert(all.take(0) =~= Seq::empty());
                assert(views(out@) =~= Seq::empty());
            }
            let mut i: usize = 0;
            while i < items.len()
                invariant
                    i <= items.len(),
                    all == items_view(items@),
                    j@ == JsonView::List(all),
                    list_from_trees::<T>(all.take(i as int)) == Ok::<Seq<T::V>, SchemaError>(
                        views(out@),
                    ),
                decreases items.len() - i,
            {
                let ghost before = views(out@);
                proof {
                    let next = all.take(i + 1);
                    assert(next.drop_last() =~= all.take(i as int));
                    assert(next.last() == items[i as int]@);
                }
                match T::decode(&items[i]) {
                    Ok(x) => {
                        out.push(x);
                        proof {
                            assert(views(out@) =~= before.push(x@));
                        }
                    },
                    Err(e) => {
                        proof {
                            lemma_list_error_stays::<T>(all, i + 1);
                        }
                        return Err(e);
                    },
                }
                i += 1;
            }
            proof {
                assert(all.take(i as int) =~= all);
            }
            Ok(out)
        },
        _ => Err(SchemaError::Type(Shape::List)),
    }
}

/// Whether no member has the name of another.
pub fn distinct_names(members: &Vec<(String, Json)>) -> (res: bool)
    ensures
        res == distinct(members_view(members@)),
{
    let ghost all = members_view(members@);
    let mut i: usize = 0;
    while i < members.len()
        invariant
            i <= members.len(),
            all == members_view(members@),
            forall|a: int, b: int| 0 <= a < i && a < b < all.len() ==> all[a].0 != all[b].0,
        decreases members.len() - i,
    {
        let mut j: usize = i + 1;
        while j < members.len()
            invariant
                i < j <= members.len(),
                all == members_view(members@),
                forall|b: int| i < b < j ==> all[i as int].0 != all[b].0,
            decreases members.len() - j,
        {
            if members[i].0 == members[j].0 {
                proof {
                    assert(all[i as int].0 == all[j as int].0);
                }
                return false;
            }
            j += 1;
        }
        i += 1;
    }
    true
}

/// Reads a mapping.
pub fn decode_map<T: Wire>(j: &Json) -> (res: Result<Vec<(String, T)>, SchemaError>)
    ensures
        match res {
            Ok(es) => map_from_tree::<T>(j@) == Ok::<Seq<(Seq<char>, T::V)>, SchemaError>(
                entry_views(es@),
            ),
            Err(e) => map_from_tree::<T>(j@) == Err::<Seq<(Seq<char>, T::V)>, SchemaError>(e),
        },
{
    match j {
        Json::Object(members) => {
            let ghost all = members_view(members@);
            proof {
                j.lemma_view_object();
            }
            if !distinct_names(members) {
                return Err(SchemaError::Duplicate);
            }
            let mut out: Vec<(String, T)> = Vec::new();
            proof {
                assert(all.take(0) =~= Seq::empty());
                assert(entry_views(out@) =~= Seq::empty());
            }
            let mut i: usize = 0;
            while i < members.len()
                invariant
                    i <= members.len(),
                    all == members_view(members@),
                    j@ == JsonView::Object(all),
                    distinct(all),
                    map_from_members::<T>(all.take(i as int)) == Ok::<
                        Seq<(Seq<char>, T::V)>,
                        SchemaError,
                    >(entry_views(out@)),
                decreases members.len() - i,
            {
                let ghost before = entry_views(out@);
                proof {
                    let next = all.take(i + 1);
                    assert(next.drop_last() =~= all.take(i as int));
                    assert(next.last() == (members[i as int].0@, members[i as int].1@));
                }
                match T::decode(&members[i].1) {
                    Ok(x) => {
                        out.push((members[i].0.clone(), x));
                        proof {
                            assert(entry_views(out@) =~= before.push((members[i as int].0@, x@)));
                        }
                    },
                    Err(e) => {
                        proof {
                            lemma_map_error_stays::<T>(all, i + 1);
                        }
                        return Err(e);
                    },
                }
                i += 1;
            }
            proof {
                assert(all.take(i as int) =~= all);
            }
            Ok(out)
        },
        _ => Err(SchemaError::Type(Shape::Object)),
    }
}

/// Reads a member that must be there.
pub fn read_required<T: Wire>(members: &Vec<(String, Json)>, key: Key) -> (res: Result<
    T,
    SchemaError,
>)
    ensures
        match res {
            Ok(v) => required::<T>(members_view(members@), key) == Ok::<T::V, SchemaError>(v@),
            Err(e) => required::<T>(members_view(members@), key) == Err::<T::V, SchemaError>(e),
        },
{
    match Json::find(members, key.as_str()) {
        None => Err(SchemaError::Missing(key)),
        Some(j) => T::decode(j),
    }
}

/// Reads a member that may be absent or null.
pub fn read_optional<T: Wire>(members: &Vec<(String, Json)>, key: Key) -> (res: Result<
    Option<T>,
    SchemaError,
>)
    ensures
        match res {
            Ok(v) => optional::<T>(members_view(members@), key) == Ok::<
                Option<T::V>,
                SchemaError,
            >(option_view(v)),
            Err(e) => optional::<T>(members_view(members@), key) == Err::<
                Option<T::V>,
                SchemaError,
            >(e),
        },
{
    match Json::find(members, key.as_str()) {
        None => Ok(None),
        Some(Json::Null) => Ok(None),
        Some(j) => match T::decode(j) {
            Ok(v) => Ok(Some(v)),
            Err(e) => Err(e),
        },
    }
}

/// Reads a list that must be there.
pub fn read_required_list<T: Wire>(members: &Vec<(String, Json)>, key: Key) -> (res: Result<
    Vec<T>,
    SchemaError,
>)
    ensures
        match res {
            Ok(xs) => required_list::<T>(members_view(members@), key) == Ok::<
                Seq<T::V>,
                SchemaError,
            >(views(xs@)),
            Err(e) => required_list::<T>(members_view(members@), key) == Err::<
                Seq<T::V>,
                SchemaError,
            >(e),
        },
{
    match Json::find(members, key.as_str()) {
        None => Err(SchemaError::Missing(key)),
        Some(j) => decode_list::<T>(j),
    }
}

/// Reads a list that may be absent or null; an empty one counts as absent.
pub fn read_optional_list<T: Wire>(members: &Vec<(String, Json)>, key: Key) -> (res: Result<
    Option<Vec<T>>,
    SchemaError,
>)
    ensures
        match res {
            Ok(v) => optional_list::<T>(members_view(members@), key) == Ok::<
                Option<Seq<T::V>>,
                SchemaError,
            >(option_views(v)),
            Err(e) => optional_list::<T>(members_view(members@), key) == Err::<
                Option<Seq<T::V>>,
                SchemaError,
            >(e),
        },
{
    match Json::find(members, key.as_str()) {
        None => Ok(None),
        Some(Json::Null) => Ok(None),
        Some(j) => match decode_list::<T>(j) {
            Ok(xs) => if xs.len() == 0 {
                Ok(None)
            } else {
                Ok(Some(xs))
            },
            Err(e) => Err(e),
        },
    }
}

/// Reads a mapping that must be there.
pub fn read_required_map<T: Wire>(members: &Vec<(String, Json)>, key: Key) -> (res: Result<
    Vec<(String, T)>,
    SchemaError,
>)
    ensures
        match res {
            Ok(es) => required_map::<T>(members_view(members@), key) == Ok::<
                Seq<(Seq<char>, T::V)>,
                SchemaError,
            >(entry_views(es@)),
            Err(e) => required_map::<T>(members_view(members@), key) == Err::<
                Seq<(Seq<char>, T::V)>,
                SchemaError,
            >(e),
        },
{
    match Json::find(members, key.as_str()) {
        None => Err(SchemaError::Missing(key)),
        Some(j) => decode_map::<T>(j),
    }
}

/// Reads a mapping that may be absent or null; an empty one counts as absent.
pub fn read_optional_map<T: Wire>(members: &Vec<(String, Json)>, key: Key) -> (res: Result<
    Option<Vec<(String, T)>>,
    SchemaError,
>)
    ensures
        match res {
            Ok(v) => optional_map::<T>(members_view(members@), key) == Ok::<
                Option<Seq<(Seq<char>, T::V)>>,
                SchemaError,
            >(option_entry_views(v)),
            Err(e) => optional_map::<T>(members_view(members@), key) == Err::<
                Option<Seq<(Seq<char>, T::V)>>,
                SchemaError,
            >(e),
        },
{
    match Json::find(members, key.as_str()) {
        None => Ok(None),
        Some(Json::Null) => Ok(None),
        Some(j) => match decode_map::<T>(j) {
            Ok(es) => if es.len() == 0 {
                Ok(None)
            } else {
                Ok(Some(es))
            },
            Err(e) => Err(e),
        },
    }
}

/// The member that writes a value that is always there.
pub open spec fn required_field<T: Wire>(key: Key, value: T::V) -> Seq<(Seq<char>, JsonView)> {
    field(key.name(), Some(T::to_tree(value)))
}

/// The member that writes a list that is always there, empty or not.
pub open spec fn list_field<T: Wire>(key: Key, value: Seq<T::V>) -> Seq<(Seq<char>, JsonView)> {
    field(key.name(), Some(JsonView::List(list_to_trees::<T>(value))))
}

/// The member that writes a mapping that is always there, empty or not.
pub open spec fn map_field<T: Wire>(key: Key, value: Seq<(Seq<char>, T::V)>) -> Seq<
    (Seq<char>, JsonView),
> {
    field(key.name(), Some(JsonView::Object(map_to_members::<T>(value))))
}

/// Appends the member of a value that is always there.
pub fn write_required<T: Wire>(members: &mut Vec<(String, Json)>, key: Key, value: &T)
    ensures
        members_view(final(members)@) == members_view(old(members)@) + required_field::<T>(
            key,
            value@,
        ),
{
    write_field(members, key, Some(value.encode()));
}

/// Appends the member of a value, where there is one.
pub fn write_optional<T: Wire>(members: &mut Vec<(String, Json)>, key: Key, value: &Option<T>)
    ensures
        members_view(final(members)@) == members_view(old(members)@) + optional_field::<T>(
            key,
            option_view(*value),
        ),
{
    let tree = match value {
        Some(v) => Some(v.encode()),
        None => None,
    };
    write_field(members, key, tree);
}

/// Appends the member of a list that is always there.
pub fn write_list<T: Wire>(members: &mut Vec<(String, Json)>, key: Key, value: &Vec<T>)
    ensures
        members_view(final(members)@) == members_view(old(members)@) + list_field::<T>(
            key,
            views(value@),
        ),
{
    write_field(members, key, Some(encode_list::<T>(value)));
}

/// Appends the member of a list, where there is one that is not empty.
pub fn write_optional_list<T: Wire>(
    members: &mut Vec<(String, Json)>,
    key: Key,
    value: &Option<Vec<T>>,
)
    ensures
        members_view(final(members)@) == members_view(old(members)@) + optional_list_field::<T>(
            key,
            option_views(*value),
        ),
{
    let tree = match value {
        Some(xs) => if xs.len() == 0 {
            None
        } else {
            Some(encode_list::<T>(xs))
        },
        None => None,
    };
    write_field(members, key, tree);
}

/// Appends the member of a mapping that is always there.
pub fn write_map<T: Wire>(members: &mut Vec<(String, Json)>, key: Key, value: &Vec<(String, T)>)
    ensures
        members_view(final(members)@) == members_view(old(members)@) + map_field::<T>(
            key,
            entry_views(value@),
        ),
{
    write_field(members, key, Some(encode_map::<T>(value)));
}

/// Appends the member of a mapping, where there is one that is not empty.
pub fn write_optional_map<T: Wire>(
    members: &mut Vec<(String, Json)>,
    key: Key,
    value: &Option<Vec<(String, T)>>,
)
    ensures
        members_view(final(members)@) == members_view(old(members)@) + optional_map_field::<T>(
            key,
            option_entry_views(*value),
        ),
{
    let tree = match value {
        Some(es) => if es.len() == 0 {
            None
        } else {
            Some(encode_map::<T>(es))
        },
        None => None,
    };
    write_field(members, key, tree);
}

/// Why a text is no document.
#[derive(Debug, PartialEq, Eq)]
pub enum ParseError {
    /// The text is no JSON: the message says where and why.
    Syntax(String),
    /// The text is JSON, but not of the document's form.
    Schema(SchemaError),
}

pub enum ParseErrorView {
    Syntax(Seq<char>),
    Schema(SchemaError),
}

impl View for ParseError {
    type V = ParseErrorView;

    open spec fn view(&self) -> ParseErrorView {
        match self {
            ParseError::Syntax(m) => ParseErrorView::Syntax(m@),
            ParseError::Schema(e) => ParseErrorView::Schema(*e),
        }
    }
}

impl ParseErrorView {
    /// The error in words.
    pub open spec fn text(self) -> Seq<char> {
        match self {
            ParseErrorView::Syntax(m) => m,
            ParseErrorView::Schema(e) => e.text(),
        }
    }
}

impl ParseError {
    /// The error in words.
    pub fn message(&self) -> (res: String)
        ensures
            res@ == self@.text(),
    {
        match self {
            ParseError::Syntax(m) => m.clone(),
            ParseError::Schema(e) => e.message(),
        }
    }
}

/// What a text is read as, given what the JSON reader makes of it: the value of
/// its tree, or why there is none.
pub open spec fn from_read<T: Wire>(read: Result<JsonView, Seq<char>>) -> Result<
    T::V,
    ParseErrorView,
> {
    match read {
        Err(m) => Err(ParseErrorView::Syntax(m)),
        Ok(j) => match T::from_tree(j) {
            Ok(v) => Ok(v),
            Err(e) => Err(ParseErrorView::Schema(e)),
        },
    }
}

/// Reads a value from JSON text. Where there is none, the error's message is
/// not empty.
pub fn from_text<T: Wire>(bytes: &[u8]) -> (res: Result<T, ParseError>)
    ensures
        match res {
            Ok(v) => from_read::<T>(json_read(bytes@)) == Ok::<T::V, ParseErrorView>(v@),
            Err(e) => from_read::<T>(json_read(bytes@)) == Err::<T::V, ParseErrorView>(e@)
                && e@.text().len() > 0,
        },
{
    match Json::parse(bytes) {
        Err(m) => Err(ParseError::Syntax(m)),
        Ok(j) => match T::decode(&j) {
            Ok(v) => Ok(v),
            Err(e) => {
                proof {
                    e.lemma_text_not_empty();
                }
                Err(ParseError::Schema(e))
            },
        },
    }
}

/// Writes a value as JSON text: the compact text of its tree.
pub fn to_text<T: Wire>(value: &T) -> (res: String)
    ensures
        res@ == T::to_tree(value@).text(),
{
    value.encode().render()
}

impl Wire for String {
    open spec fn valid(m: Seq<char>) -> bool {
        true
    }

    open spec fn to_tree(m: Seq<char>) -> JsonView {
        JsonView::Text(m)
    }

    open spec fn from_tree(j: JsonView) -> Result<Seq<char>, SchemaError> {
        match j {
            JsonView::Text(s) => Ok(s),
            _ => Err(SchemaError::Type(Shape::Text)),
        }
    }

    fn encode(&self) -> (res: Json) {
        Json::Text(self.clone())
    }

    fn decode(j: &Json) -> (res: Result<String, SchemaError>) {
        match j {
            Json::Text(s) => Ok(s.clone()),
            _ => Err(SchemaError::Type(Shape::Text)),
        }
    }

    proof fn lemma_round_trip(m: Seq<char>) {
    }

    proof fn lemma_read_valid(j: JsonView) {
    }
}

impl Wire for i32 {
    open spec fn valid(m: i32) -> bool {
        true
    }

    open spec fn to_tree(m: i32) -> JsonView {
        JsonView::Int(m as i64)
    }

    open spec fn from_tree(j: JsonView) -> Result<i32, SchemaError> {
        match j {
            JsonView::Int(i) => if i32::MIN <= i <= i32::MAX {
                Ok(i as i32)
            } else {
                Err(SchemaError::Range)
            },
            _ => Err(SchemaError::Type(Shape::Integer)),
        }
    }

    fn encode(&self) -> (res: Json) {
        Json::Int(*self as i64)
    }

    fn decode(j: &Json) -> (res: Result<i32, SchemaError>) {
        match j {
            Json::Int(i) => if -2147483648 <= *i && *i <= 2147483647 {
                Ok(*i as i32)
            } else {
                Err(SchemaError::Range)
            },
            _ => Err(SchemaError::Type(Shape::Integer)),
        }
    }

    proof fn lemma_round_trip(m: i32) {
    }

    proof fn lemma_read_valid(j: JsonView) {
    }
}

impl Wire for i16 {
    open spec fn valid(m: i16) -> bool {
        true
    }

    open spec fn to_tree(m: i16) -> JsonView {
        JsonView::Int(m as i64)
    }

    open spec fn from_tree(j: JsonView) -> Result<i16, SchemaError> {
        match j {
            JsonView::Int(i) => if i16::MIN <= i <= i16::MAX {
                Ok(i as i16)
            } else {
                Err(SchemaError::Range)
            },
            _ => Err(SchemaError::Type(Shape::Integer)),
        }
    }

    fn encode(&self) -> (res: Json) {
        Json::Int(*self as i64)
    }

    fn decode(j: &Json) -> (res: Result<i16, SchemaError>) {
        match j {
            Json::Int(i) => if -32768 <= *i && *i <= 32767 {
                Ok(*i as i16)
            } else {
                Err(SchemaError::Range)
            },
            _ => Err(SchemaError::Type(Shape::Integer)),
        }
    }

    proof fn lemma_round_trip(m: i16) {
    }

    proof fn lemma_read_valid(j: JsonView) {
    }
}

} // verus!
