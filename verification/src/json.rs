//! JSON values as plain data, and the tree of plain values that each of them
//! stands for.

use vstd::prelude::*;

use crate::decimal;
use crate::text;

verus! {

/// A JSON value. An object keeps its members in order, each name once.
#[derive(Debug, PartialEq)]
pub enum Json {
    Null,
    Bool(bool),
    /// A number that a signed integer of 64 bits can hold.
    Int(i64),
    /// Any other number as JSON writes it: a larger integer in digits, or a
    /// number with a point or an exponent.
    Number(String),
    Text(String),
    Array(Vec<Json>),
    Object(Vec<(String, Json)>),
}

/// What a JSON value stands for.
pub enum Tree {
    Null,
    Bool(bool),
    Int(int),
    Number(Seq<char>),
    Text(Seq<char>),
    Array(Seq<Tree>),
    Object(Seq<(Seq<char>, Tree)>),
}

impl Json {
    pub open spec fn tree(self) -> Tree
        decreases self,
    {
        match self {
            Json::Null => Tree::Null,
            Json::Bool(b) => Tree::Bool(b),
            Json::Int(n) => Tree::Int(n as int),
            Json::Number(s) => Tree::Number(s@),
            Json::Text(s) => Tree::Text(s@),
            Json::Array(items) => Tree::Array(
                Seq::new(
                    items@.len(),
                    |i: int|
                        if 0 <= i < items@.len() {
                            items@[i].tree()
                        } else {
                            Tree::Null
                        },
                ),
            ),
            Json::Object(members) => Tree::Object(
                Seq::new(
                    members@.len(),
                    |i: int|
                        if 0 <= i < members@.len() {
                            (members@[i].0@, members@[i].1.tree())
                        } else {
                            (Seq::empty(), Tree::Null)
                        },
                ),
            ),
        }
    }
}

impl View for Json {
    type V = Tree;

    open spec fn view(&self) -> Tree {
        self.tree()
    }
}

/// The value of the first member with the given name.
pub open spec fn member(members: Seq<(Seq<char>, Tree)>, name: Seq<char>) -> Option<Tree>
    decreases members.len(),
{
    if members.len() == 0 {
        None
    } else if members[0].0 == name {
        Some(members[0].1)
    } else {
        member(members.drop_first(), name)
    }
}

impl Tree {
    /// The member of an object with the given name.
    pub open spec fn get(self, name: Seq<char>) -> Option<Tree> {
        match self {
            Tree::Object(members) => member(members, name),
            _ => None,
        }
    }

    pub open spec fn as_str(self) -> Option<Seq<char>> {
        match self {
            Tree::Text(s) => Some(s),
            _ => None,
        }
    }

    pub open spec fn as_i64(self) -> Option<int> {
        match self {
            Tree::Int(n) => Some(n),
            _ => None,
        }
    }

    pub open spec fn as_array(self) -> Option<Seq<Tree>> {
        match self {
            Tree::Array(items) => Some(items),
            _ => None,
        }
    }

    /// The text of the member with the given name.
    pub open spec fn text_at(self, name: Seq<char>) -> Option<Seq<char>> {
        match self.get(name) {
            Some(t) => t.as_str(),
            None => None,
        }
    }

    /// The text of a member of a member.
    pub open spec fn text_at2(self, outer: Seq<char>, inner: Seq<char>) -> Option<Seq<char>> {
        match self.get(outer) {
            Some(t) => t.text_at(inner),
            None => None,
        }
    }
}

/// The trees of a list of values.
pub open spec fn trees(v: Seq<Json>) -> Seq<Tree> {
    v.map_values(|j: Json| j@)
}

/// The view of an optional value.
pub open spec fn tree_of(v: Option<&Json>) -> Option<Tree> {
    match v {
        Some(j) => Some(j@),
        None => None,
    }
}

/// The view of an optional text.
pub open spec fn text_of(v: Option<&str>) -> Option<Seq<char>> {
    match v {
        Some(s) => Some(s@),
        None => None,
    }
}

impl Json {
    /// The member of an object with the given name.
    pub fn get(&self, name: &str) -> (r: Option<&Json>)
        ensures
            tree_of(r) == self@.get(name@),
    {
        match self {
            Json::Object(members) => {
                let ghost all = self@->Object_0;
                let mut i: usize = 0;
                assert(all.skip(0) == all);
                while i < members.len()
                    invariant
                        i <= members.len(),
                        *self == Json::Object(*members),
                        self@ == Tree::Object(all),
                        all.len() == members.len(),
                        member(all, name@) == member(all.skip(i as int), name@),
                    decreases members.len() - i,
                {
                    assert(all[i as int] == (members@[i as int].0@, members@[i as int].1@));
                    if text::same_text(members[i].0.as_str(), name) {
                        return Some(&members[i].1);
                    }
                    assert(all.skip(i as int).drop_first() == all.skip(i + 1));
                    i += 1;
                }
                None
            },
            _ => None,
        }
    }

    pub fn as_str(&self) -> (r: Option<&str>)
        ensures
            text_of(r) == self@.as_str(),
    {
        match self {
            Json::Text(s) => Some(s.as_str()),
            _ => None,
        }
    }

    pub fn as_i64(&self) -> (r: Option<i64>)
        ensures
            self@.as_i64() == match r {
                Some(n) => Some(n as int),
                None => None,
            },
    {
        match self {
            Json::Int(n) => Some(*n),
            _ => None,
        }
    }

    pub fn as_array(&self) -> (r: Option<&Vec<Json>>)
        ensures
            r is Some <==> self@.as_array() is Some,
            r matches Some(items) ==> self@.as_array() == Some(trees(items@)),
    {
        match self {
            Json::Array(items) => {
                assert(self@->Array_0 =~= trees(items@));
                Some(items)
            },
            _ => None,
        }
    }

    /// The text of the member with the given name.
    pub fn text_at(&self, name: &str) -> (r: Option<&str>)
        ensures
            text_of(r) == self@.text_at(name@),
    {
        match self.get(name) {
            Some(j) => j.as_str(),
            None => None,
        }
    }

    /// The text of a member of a member.
    pub fn text_at2(&self, outer: &str, inner: &str) -> (r: Option<&str>)
        ensures
            text_of(r) == self@.text_at2(outer@, inner@),
    {
        match self.get(outer) {
            Some(j) => j.text_at(inner),
            None => None,
        }
    }
}

/// The names and the trees of the members of an object.
pub open spec fn members_of(members: Seq<(String, Json)>) -> Seq<(Seq<char>, Tree)> {
    members.map_values(|m: (String, Json)| (m.0@, m.1@))
}

/// An unsigned number as a JSON value.
pub open spec fn number(n: int) -> Tree {
    if n <= i64::MAX {
        Tree::Int(n)
    } else {
        Tree::Number(decimal::decimal(n))
    }
}

impl Json {
    /// An unsigned number.
    pub fn unsigned(n: u64) -> (r: Json)
        ensures
            r@ == number(n as int),
    {
        if n <= i64::MAX as u64 {
            Json::Int(n as i64)
        } else {
            Json::Number(decimal::decimal_u64(n))
        }
    }

    /// A text value.
    pub fn text(s: &str) -> (r: Json)
        ensures
            r@ == Tree::Text(s@),
    {
        Json::Text(s.to_owned())
    }

    /// An object with the given members.
    pub fn object(members: Vec<(String, Json)>) -> (r: Json)
        ensures
            r@ == Tree::Object(members_of(members@)),
    {
        let r = Json::Object(members);
        assert(r@->Object_0 =~= members_of(members@));
        r
    }

    /// A member that holds a text.
    pub fn text_member(name: &str, value: &str) -> (r: (String, Json))
        ensures
            r.0@ == name@,
            r.1@ == Tree::Text(value@),
    {
        (name.to_owned(), Json::text(value))
    }

    /// A value equal to this one.
    pub fn copy(&self) -> (r: Json)
        ensures
            r@ == self@,
        decreases self,
    {
        match self {
            Json::Null => Json::Null,
            Json::Bool(b) => Json::Bool(*b),
            Json::Int(n) => Json::Int(*n),
            Json::Number(s) => Json::Number(s.clone()),
            Json::Text(s) => Json::Text(s.clone()),
            Json::Array(items) => {
                let mut r: Vec<Json> = Vec::new();
                let mut i: usize = 0;
                while i < items.len()
                    invariant
                        i <= items.len(),
                        *self == Json::Array(*items),
                        r@.len() == i,
                        forall|k: int| 0 <= k < i ==> (#[trigger] r@[k])@ == items@[k]@,
                    decreases items.len() - i,
                {
                    assert(decreases_to!(*self => self->Array_0));
                    assert(decreases_to!(self->Array_0 => self->Array_0@));
                    assert(decreases_to!(*self => items@));
                    assert(decreases_to!(*self => items@[i as int]));
                    r.push(items[i].copy());
                    i += 1;
                }
                let r = Json::Array(r);
                assert(r@->Array_0 =~= self@->Array_0);
                r
            },
            Json::Object(members) => {
                let mut r: Vec<(String, Json)> = Vec::new();
                let mut i: usize = 0;
                while i < members.len()
                    invariant
                        i <= members.len(),
                        *self == Json::Object(*members),
                        r@.len() == i,
                        forall|k: int|
                            0 <= k < i ==> (#[trigger] r@[k]).0@ == members@[k].0@ && r@[k].1@
                                == members@[k].1@,
                    decreases members.len() - i,
                {
                    assert(decreases_to!(*self => self->Object_0));
                    assert(decreases_to!(self->Object_0 => self->Object_0@));
                    assert(decreases_to!(*self => members@));
                    assert(decreases_to!(*self => members@[i as int].1));
                    r.push((members[i].0.clone(), members[i].1.copy()));
                    i += 1;
                }
                let r = Json::Object(r);
                assert(r@->Object_0 =~= self@->Object_0);
                r
            },
        }
    }
}

// ---------------------------------------------------------------------------
// Documents
// ---------------------------------------------------------------------------

/// A text that was found to be a JSON value and has not been read into one.
#[derive(Debug, PartialEq, Eq)]
pub struct JsonText {
    pub text: String,
}

impl View for JsonText {
    type V = Seq<char>;

    open spec fn view(&self) -> Seq<char> {
        self.text@
    }
}

/// The texts of some values that have not been read.
pub open spec fn unread(v: Seq<JsonText>) -> Seq<Seq<char>> {
    v.map_values(|t: JsonText| t@)
}

/// A part of a document: a value, or the text of one or of several that are
/// handed on as they are written. It has no members to ask for; whoever needs
/// what is inside reads the text first.
#[derive(Debug, PartialEq)]
pub enum Part {
    Value(Json),
    Unread(JsonText),
    Listed(Vec<JsonText>),
}

/// What a part stands for.
pub enum PartModel {
    Value(Tree),
    Unread(Seq<char>),
    Listed(Seq<Seq<char>>),
}

impl View for Part {
    type V = PartModel;

    open spec fn view(&self) -> PartModel {
        match self {
            Part::Value(j) => PartModel::Value(j@),
            Part::Unread(t) => PartModel::Unread(t@),
            Part::Listed(v) => PartModel::Listed(unread(v@)),
        }
    }
}

/// A document that is handed out: one part, or an object whose members are
/// parts.
#[derive(Debug, PartialEq)]
pub enum Doc {
    Whole(Part),
    Members(Vec<(String, Part)>),
}

/// What a document stands for.
pub enum DocModel {
    Whole(PartModel),
    Members(Seq<(Seq<char>, PartModel)>),
}

/// The names and the parts of the members of a document.
pub open spec fn parts_of(members: Seq<(String, Part)>) -> Seq<(Seq<char>, PartModel)> {
    members.map_values(|m: (String, Part)| (m.0@, m.1@))
}

impl View for Doc {
    type V = DocModel;

    open spec fn view(&self) -> DocModel {
        match self {
            Doc::Whole(p) => DocModel::Whole(p@),
            Doc::Members(members) => DocModel::Members(parts_of(members@)),
        }
    }
}

/// The document that a value makes.
pub open spec fn document(t: Tree) -> DocModel {
    DocModel::Whole(PartModel::Value(t))
}

impl Doc {
    /// The document that a value makes.
    pub fn value(j: Json) -> (r: Doc)
        ensures
            r@ == document(j@),
    {
        Doc::Whole(Part::Value(j))
    }
}

/// The member of an object is the first with the name that is asked for; an
/// object without the name, and a value that is no object, has none.
pub proof fn law_members(members: Seq<(Seq<char>, Tree)>, name: Seq<char>, i: int)
    ensures
        0 <= i < members.len() && members[i].0 == name && (forall|k: int|
            0 <= k < i ==> (#[trigger] members[k]).0 != name) ==> Tree::Object(members).get(name)
            == Some(members[i].1),
        (forall|k: int| 0 <= k < members.len() ==> (#[trigger] members[k]).0 != name)
            <==> Tree::Object(members).get(name) is None,
    decreases members.len(),
{
    if members.len() > 0 {
        let rest = members.drop_first();
        law_members(rest, name, i - 1);
        assert forall|k: int| 0 <= k < rest.len() implies #[trigger] rest[k] == members[k + 1] by {}
        if members[0].0 != name {
            if forall|k: int| 0 <= k < rest.len() ==> (#[trigger] rest[k]).0 != name {
                assert forall|k: int| 0 <= k < members.len() implies (#[trigger] members[k]).0
                    != name by {
                    if k > 0 {
                        assert(rest[k - 1] == members[k]);
                    }
                }
            } else {
                let k = choose|k: int| 0 <= k < rest.len() && (#[trigger] rest[k]).0 == name;
                assert(members[k + 1].0 == name);
            }
            if 0 < i < members.len() && forall|k: int| 0 <= k < i ==> (#[trigger] members[k]).0 != name {
                assert forall|k: int| 0 <= k < i - 1 implies (#[trigger] rest[k]).0 != name by {
                    assert(members[k + 1].0 != name);
                }
                assert(rest[i - 1] == members[i]);
            }
        }
    }
}

/// What a value is asked for, it gives exactly where it is of that kind.
pub proof fn law_values_are_what_they_hold(
    t: Tree,
    outer: Seq<char>,
    name: Seq<char>,
    s: Seq<char>,
    n: int,
    items: Seq<Tree>,
)
    ensures
        t.as_str() == Some(s) <==> t == Tree::Text(s),
        t.as_i64() == Some(n) <==> t == Tree::Int(n),
        t.as_array() == Some(items) <==> t == Tree::Array(items),
        t !is Object ==> t.get(name) is None,
        t.text_at(name) == Some(s) <==> t.get(name) == Some(Tree::Text(s)),
        t.text_at2(outer, name) == Some(s) <==> t.get(outer) is Some && t.get(outer)->0.get(name)
            == Some(Tree::Text(s)),
{
}

/// A value stands for the tree of the same shape.
pub proof fn law_views_of_values(j: Json)
    ensures
        j is Null <==> j@ is Null,
        j matches Json::Bool(b) ==> j@ == Tree::Bool(b),
        j matches Json::Int(n) ==> j@ == Tree::Int(n as int),
        j matches Json::Number(s) ==> j@ == Tree::Number(s@),
        j matches Json::Text(s) ==> j@ == Tree::Text(s@),
        j matches Json::Array(v) ==> j@ is Array && j@->Array_0.len() == v@.len() && forall|i: int|
            0 <= i < v@.len() ==> #[trigger] j@->Array_0[i] == v@[i]@,
        j matches Json::Object(v) ==> j@ is Object && j@->Object_0.len() == v@.len() && forall|
            i: int,
        |
            0 <= i < v@.len() ==> #[trigger] j@->Object_0[i] == (v@[i].0@, v@[i].1@),
{
}

/// A number is the same number, as an integer where one of 64 bits holds it and
/// in digits otherwise.
pub proof fn law_numbers(n: int)
    ensures
        n <= 9223372036854775807 ==> number(n) == Tree::Int(n),
        n > 9223372036854775807 ==> number(n) == Tree::Number(decimal::decimal(n)),
{
}

} // verus!
