//! JSON values, as far as this library reads them.

use vstd::prelude::*;
use crate::query::same_text;

verus! {

/// A JSON value. The members of an object keep their order; looking a name up
/// finds the first member of that name.
#[derive(Debug, PartialEq, Eq)]
pub enum Json {
    /// `null`.
    Null,
    /// `true` or `false`.
    Bool(bool),
    /// A number that is a signed 64-bit integer.
    Integer(i64),
    /// Any other number, as it is written.
    Number(String),
    /// A string.
    Text(String),
    /// An array.
    Array(Vec<Json>),
    /// An object: its members, each a name and a value.
    Object(Vec<(String, Json)>),
}

/// The index of the first of `members`, at or after `from`, that is named
/// `name`.
pub open spec fn member_index(members: Seq<(String, Json)>, name: Seq<char>, from: int) -> Option<
    int,
>
    decreases members.len() - from,
{
    if from < 0 || from >= members.len() {
        None
    } else if members[from].0@ == name {
        Some(from)
    } else {
        member_index(members, name, from + 1)
    }
}

impl Json {
    /// The members of an object; none for another value.
    pub open spec fn members(self) -> Seq<(String, Json)> {
        match self {
            Json::Object(members) => members@,
            _ => Seq::empty(),
        }
    }

    /// The member of an object that is named `name`.
    pub open spec fn member(self, name: Seq<char>) -> Option<Json> {
        match member_index(self.members(), name, 0) {
            Some(i) => Some(self.members()[i].1),
            None => None,
        }
    }

    /// The text of a string.
    pub open spec fn text(self) -> Option<Seq<char>> {
        match self {
            Json::Text(t) => Some(t@),
            _ => None,
        }
    }

    /// The text of a string; empty for another value.
    pub open spec fn text_or_empty(self) -> Seq<char> {
        match self {
            Json::Text(t) => t@,
            _ => Seq::empty(),
        }
    }

    /// The value of an integer.
    pub open spec fn integer(self) -> Option<int> {
        match self {
            Json::Integer(n) => Some(n as int),
            _ => None,
        }
    }

    /// The value of a boolean.
    pub open spec fn boolean(self) -> Option<bool> {
        match self {
            Json::Bool(b) => Some(b),
            _ => None,
        }
    }

    /// The items of an array.
    pub open spec fn items(self) -> Option<Seq<Json>> {
        match self {
            Json::Array(items) => Some(items@),
            _ => None,
        }
    }

    /// The member of an object that is named `name`.
    pub fn get<'a>(&'a self, name: &str) -> (r: Option<&'a Json>)
        ensures
            match r {
                Some(value) => self.member(name@) == Some(*value),
                None => self.member(name@) is None,
            },
    {
        match self {
            Json::Object(members) => {
                let mut i: usize = 0;
                while i < members.len()
                    invariant
                        i <= members.len(),
                        self.members() == members@,
                        member_index(members@, name@, 0) == member_index(
                            members@,
                            name@,
                            i as int,
                        ),
                    decreases members.len() - i,
                {
                    if same_text(members[i].0.as_str(), name) {
                        return Some(&members[i].1);
                    }
                    i += 1;
                }
                None
            },
            _ => None,
        }
    }

    /// The text of a string.
    pub fn as_str(&self) -> (r: Option<&str>)
        ensures
            match r {
                Some(t) => self.text() == Some(t@),
                None => self.text() is None,
            },
    {
        match self {
            Json::Text(t) => Some(t.as_str()),
            _ => None,
        }
    }

    /// The value of an integer.
    pub fn as_i64(&self) -> (r: Option<i64>)
        ensures
            match r {
                Some(n) => self.integer() == Some(n as int),
                None => self.integer() is None,
            },
    {
        match self {
            Json::Integer(n) => Some(*n),
            _ => None,
        }
    }

    /// The value of a boolean.
    pub fn as_bool(&self) -> (r: Option<bool>)
        ensures
            r == self.boolean(),
    {
        match self {
            Json::Bool(b) => Some(*b),
            _ => None,
        }
    }

    /// The items of an array.
    pub fn as_array(&self) -> (r: Option<&Vec<Json>>)
        ensures
            match r {
                Some(items) => self.items() == Some(items@),
                None => self.items() is None,
            },
    {
        match self {
            Json::Array(items) => Some(items),
            _ => None,
        }
    }

    /// Whether the value is an object.
    pub fn is_object(&self) -> (r: bool)
        ensures
            r == (self is Object),
    {
        match self {
            Json::Object(_) => true,
            _ => false,
        }
    }

    /// Whether the value is a string.
    pub fn is_string(&self) -> (r: bool)
        ensures
            r == (self is Text),
    {
        match self {
            Json::Text(_) => true,
            _ => false,
        }
    }

    /// The text of the string that the member `name` holds; empty where there
    /// is no such member or it holds no string.
    pub open spec fn member_text(self, name: Seq<char>) -> Seq<char> {
        match self.member(name) {
            Some(value) => value.text_or_empty(),
            None => Seq::empty(),
        }
    }

    /// The text of the string that the member `name` holds; empty where there
    /// is no such member or it holds no string.
    pub fn text_of(&self, name: &str) -> (r: &str)
        ensures
            r@ == self.member_text(name@),
    {
        proof {
            reveal_strlit("");
            assert(""@ =~= Seq::<char>::empty());
        }
        match self.get(name) {
            Some(value) => match value.as_str() {
                Some(t) => t,
                None => "",
            },
            None => "",
        }
    }
}

/// A JSON value as a mathematical value.
pub ghost enum JsonView {
    Null,
    Bool(bool),
    Integer(int),
    Number(Seq<char>),
    Text(Seq<char>),
    Array(Seq<JsonView>),
    Object(Seq<(Seq<char>, JsonView)>),
}

impl View for Json {
    type V = JsonView;

    open spec fn view(&self) -> JsonView
        decreases self,
    {
        match self {
            Json::Null => JsonView::Null,
            Json::Bool(b) => JsonView::Bool(*b),
            Json::Integer(n) => JsonView::Integer(*n as int),
            Json::Number(t) => JsonView::Number(t@),
            Json::Text(t) => JsonView::Text(t@),
            Json::Array(items) => JsonView::Array(
                Seq::new(
                    items@.len(),
                    |i: int|
                        if 0 <= i < items@.len() {
                            items@[i]@
                        } else {
                            JsonView::Null
                        },
                ),
            ),
            Json::Object(members) => JsonView::Object(
                Seq::new(
                    members@.len(),
                    |i: int|
                        (
                            members@[i].0@,
                            if 0 <= i < members@.len() {
                                members@[i].1@
                            } else {
                                JsonView::Null
                            },
                        ),
                ),
            ),
        }
    }
}

/// The members of an object as mathematical values.
pub open spec fn members_view(members: Seq<(String, Json)>) -> Seq<(Seq<char>, JsonView)> {
    Seq::new(members.len(), |i: int| (members[i].0@, members[i].1@))
}

impl Clone for Json {
    fn clone(&self) -> (r: Self)
        ensures
            r@ == self@,
        decreases self,
    {
        match self {
            Json::Null => Json::Null,
            Json::Bool(b) => Json::Bool(*b),
            Json::Integer(n) => Json::Integer(*n),
            Json::Number(t) => Json::Number(t.clone()),
            Json::Text(t) => Json::Text(t.clone()),
            Json::Array(items) => {
                let mut copy: Vec<Json> = Vec::new();
                let mut i: usize = 0;
                while i < items.len()
                    invariant
                        i <= items.len(),
                        *self == Json::Array(*items),
                        copy.len() == i,
                        forall|j: int| 0 <= j < i ==> copy@[j]@ == items@[j]@,
                    decreases items.len() - i,
                {
                    let item = &items[i];
                    assert(decreases_to!(*items => items@));
                    assert(decreases_to!(items@ => items@[i as int]));
                    assert(*item == items@[i as int]);
                    assert(self->Array_0 == *items);
                    assert(decreases_to!(*self => self->Array_0));
                    assert(decreases_to!(*self => items@[i as int]));
                    assert(decreases_to!(*self => *item));
                    copy.push(item.clone());
                    i += 1;
                }
                let r = Json::Array(copy);
                assert(r@->Array_0 =~= self@->Array_0);
                r
            },
            Json::Object(members) => {
                let mut copy: Vec<(String, Json)> = Vec::new();
                let mut i: usize = 0;
                while i < members.len()
                    invariant
                        i <= members.len(),
                        *self == Json::Object(*members),
                        copy.len() == i,
                        forall|j: int|
                            0 <= j < i ==> copy@[j].0@ == members@[j].0@ && copy@[j].1@
                                == members@[j].1@,
                    decreases members.len() - i,
                {
                    let value = &members[i].1;
                    assert(decreases_to!(*members => members@));
                    assert(decreases_to!(members@ => members@[i as int]));
                    assert(*value == members@[i as int].1);
                    assert(self->Object_0 == *members);
                    assert(decreases_to!(*self => self->Object_0));
                    assert(decreases_to!(members@[i as int] => members@[i as int].1));
                    assert(decreases_to!(*self => members@[i as int].1));
                    assert(decreases_to!(*self => *value));
                    copy.push((members[i].0.clone(), value.clone()));
                    i += 1;
                }
                let r = Json::Object(copy);
                assert(r@->Object_0 =~= self@->Object_0);
                r
            },
        }
    }
}

/// The index of the first of `members`, at or after `from`, that is named
/// `name`.
pub open spec fn view_index(
    members: Seq<(Seq<char>, JsonView)>,
    name: Seq<char>,
    from: int,
) -> Option<int>
    decreases members.len() - from,
{
    if from < 0 || from >= members.len() {
        None
    } else if members[from].0 == name {
        Some(from)
    } else {
        view_index(members, name, from + 1)
    }
}

/// The member of an object that is named `name`, on mathematical values.
pub open spec fn view_member(value: JsonView, name: Seq<char>) -> Option<JsonView> {
    match value {
        JsonView::Object(members) => match view_index(members, name, 0) {
            Some(i) => Some(members[i].1),
            None => None,
        },
        _ => None,
    }
}

/// Looking a name up among members finds the same place as looking it up
/// among their views.
pub proof fn lemma_member_index_view(members: Seq<(String, Json)>, name: Seq<char>, from: int)
    ensures
        member_index(members, name, from) == view_index(members_view(members), name, from),
    decreases members.len() - from,
{
    if 0 <= from < members.len() {
        lemma_member_index_view(members, name, from + 1);
    }
}

/// The view of a member is the member of the view.
pub proof fn lemma_member_view(j: Json, name: Seq<char>)
    ensures
        match j.member(name) {
            Some(value) => view_member(j@, name) == Some(value@),
            None => view_member(j@, name) is None,
        },
{
    lemma_member_index_view(j.members(), name, 0);
    match j {
        Json::Object(members) => {
            assert(j@->Object_0 =~= members_view(members@));
            assert(j@ == JsonView::Object(members_view(members@)));
            if member_index(members@, name, 0) is Some {
                let i = member_index(members@, name, 0).unwrap();
                lemma_member_index_bounds(members@, name, 0);
                assert(members_view(members@)[i].1 == members@[i].1@);
            }
        },
        Json::Null => {},
        Json::Bool(_) => {},
        Json::Integer(_) => {},
        Json::Number(_) => {},
        Json::Text(_) => {},
        Json::Array(_) => {
            assert(j@ is Array);
        },
    }
}

/// A place that `member_index` finds is one of the members' places.
pub proof fn lemma_member_index_bounds(members: Seq<(String, Json)>, name: Seq<char>, from: int)
    ensures
        member_index(members, name, from) matches Some(i) ==> from <= i < members.len()
            && members[i].0@ == name,
    decreases members.len() - from,
{
    if 0 <= from < members.len() {
        lemma_member_index_bounds(members, name, from + 1);
    }
}

/// `a` with `b` merged into it. Where both are objects, each member of `b`, in
/// its order, is merged into the member of `a` that has its name, or into
/// `null` and then added at the end where `a` has none. In every other case
/// the result is `b`.
pub open spec fn merged(a: JsonView, b: JsonView) -> JsonView
    decreases b, 0nat,
{
    match b {
        JsonView::Object(bm) => match a {
            JsonView::Object(am) => JsonView::Object(merged_members(am, bm, 0)),
            _ => b,
        },
        _ => b,
    }
}

/// The members `am` with the members of `bm` from place `from` on merged into
/// them.
pub open spec fn merged_members(
    am: Seq<(Seq<char>, JsonView)>,
    bm: Seq<(Seq<char>, JsonView)>,
    from: int,
) -> Seq<(Seq<char>, JsonView)>
    decreases bm, bm.len() - from,
{
    if from < 0 || from >= bm.len() {
        am
    } else {
        let next = match view_index(am, bm[from].0, 0) {
            Some(i) => am.update(i, (am[i].0, merged(am[i].1, bm[from].1))),
            None => am.push((bm[from].0, merged(JsonView::Null, bm[from].1))),
        };
        merged_members(next, bm, from + 1)
    }
}

/// The index of the first of `members` that is named `name`.
pub fn find_member(members: &Vec<(String, Json)>, name: &str) -> (r: Option<usize>)
    ensures
        match r {
            Some(i) => i < members.len() && view_index(members_view(members@), name@, 0) == Some(
                i as int,
            ),
            None => view_index(members_view(members@), name@, 0) is None,
        },
{
    let mut i: usize = 0;
    while i < members.len()
        invariant
            i <= members.len(),
            view_index(members_view(members@), name@, 0) == view_index(
                members_view(members@),
                name@,
                i as int,
            ),
        decreases members.len() - i,
    {
        if same_text(members[i].0.as_str(), name) {
            return Some(i);
        }
        i += 1;
    }
    None
}

/// Merges `b` into `a`. Where both are objects, each member of `b` is merged
/// into the member of `a` that has its name, or added where `a` has none;
/// else `a` becomes a copy of `b`.
pub fn merge(a: &mut Json, b: &Json)
    ensures
        final(a)@ == merged(old(a)@, b@),
    decreases b,
{
    match b {
        Json::Object(bm) => {
            let mut taken = Json::Null;
            std::mem::swap(a, &mut taken);
            assert(taken@ is Object ==> taken@->Object_0 =~= members_view(taken.members()));
            assert(b@->Object_0 =~= members_view(bm@));
            match taken {
                Json::Object(members) => {
                    let mut am = members;
                    let ghost start = members_view(am@);
                    let ghost source = members_view(bm@);
                    let mut i: usize = 0;
                    while i < bm.len()
                        invariant
                            i <= bm.len(),
                            *b == Json::Object(*bm),
                            source == members_view(bm@),
                            merged_members(start, source, 0) == merged_members(
                                members_view(am@),
                                source,
                                i as int,
                            ),
                        decreases bm.len() - i,
                    {
                        let name = &bm[i].0;
                        let value = &bm[i].1;
                        proof {
                            assert(b->Object_0 == *bm);
                            assert(decreases_to!(*b => b->Object_0));
                            assert(decreases_to!(*bm => bm@));
                            assert(decreases_to!(bm@ => bm@[i as int]));
                            assert(decreases_to!(bm@[i as int] => bm@[i as int].1));
                            assert(*value == bm@[i as int].1);
                            assert(decreases_to!(*b => *value));
                        }
                        let ghost before = members_view(am@);
                        match find_member(&am, name.as_str()) {
                            Some(k) => {
                                let (key, mut child) = am.remove(k);
                                merge(&mut child, value);
                                am.insert(k, (key, child));
                                assert(members_view(am@) =~= before.update(
                                    k as int,
                                    (before[k as int].0, merged(before[k as int].1, value@)),
                                ));
                            },
                            None => {
                                let mut child = Json::Null;
                                merge(&mut child, value);
                                am.push((name.clone(), child));
                                assert(members_view(am@) =~= before.push(
                                    (name@, merged(JsonView::Null, value@)),
                                ));
                            },
                        }
                        i += 1;
                    }
                    let merged_object = Json::Object(am);
                    assert(merged_object@->Object_0 =~= members_view(am@));
                    *a = merged_object;
                },
                _ => {
                    *a = b.clone();
                },
            }
        },
        _ => {
            *a = b.clone();
        },
    }
}

} // verus!
