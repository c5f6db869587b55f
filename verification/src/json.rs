//! JSON values as the rules of the library read and build them.

use vstd::prelude::*;
use crate::text::{first_where, lemma_first_where, lemma_first_where_is, opt, str_eq, views};

verus! {

/// A JSON value.
///
/// Integers stand for themselves. A number that is not an integer is carried as
/// a key that orders as the number does; the library never computes with it.
#[derive(Debug, PartialEq)]
pub enum Json {
    Null,
    Bool(bool),
    Int(i128),
    Real(i64),
    Str(String),
    Arr(Vec<Json>),
    Obj(Vec<(String, Json)>),
}

/// The mathematical value of a [`Json`].
#[verifier::ext_equal]
pub enum JsonV {
    Null,
    Bool(bool),
    Int(int),
    Real(int),
    Str(Seq<char>),
    Arr(Seq<JsonV>),
    Obj(Seq<(Seq<char>, JsonV)>),
}

/// The members of an object.
pub type Members = Seq<(Seq<char>, JsonV)>;

impl View for Json {
    type V = JsonV;

    open spec fn view(&self) -> JsonV
        decreases self,
    {
        match self {
            Json::Null => JsonV::Null,
            Json::Bool(b) => JsonV::Bool(*b),
            Json::Int(n) => JsonV::Int(*n as int),
            Json::Real(k) => JsonV::Real(*k as int),
            Json::Str(s) => JsonV::Str(s@),
            Json::Arr(v) => JsonV::Arr(
                Seq::new(
                    v@.len(),
                    |i: int|
                        if 0 <= i < v@.len() {
                            v@[i]@
                        } else {
                            JsonV::Null
                        },
                ),
            ),
            Json::Obj(v) => JsonV::Obj(
                Seq::new(
                    v@.len(),
                    |i: int|
                        (
                            v@[i].0@,
                            if 0 <= i < v@.len() {
                                v@[i].1@
                            } else {
                                JsonV::Null
                            },
                        ),
                ),
            ),
        }
    }
}

/// The values of a list of members.
pub open spec fn members(v: Seq<(String, Json)>) -> Members {
    Seq::new(v.len(), |i: int| (v[i].0@, v[i].1@))
}

/// The value of an object is the values of its members, in order.
pub broadcast proof fn lemma_obj_view(v: Vec<(String, Json)>)
    ensures
        #[trigger] Json::Obj(v)@ == JsonV::Obj(members(v@)),
{
    assert(Json::Obj(v)@->Obj_0 =~= members(v@));
}

/// The value of an array is the values of its items, in order.
pub broadcast proof fn lemma_arr_view(v: Vec<Json>)
    ensures
        #[trigger] Json::Arr(v)@ == JsonV::Arr(views(v@)),
{
    assert(Json::Arr(v)@->Arr_0 =~= views(v@));
}

/// Recognises the member of a given name.
pub open spec fn named(k: Seq<char>) -> spec_fn((Seq<char>, JsonV)) -> bool {
    |m: (Seq<char>, JsonV)| m.0 == k
}

/// The value of the member `k`, if there is one.
pub open spec fn lookup(m: Members, k: Seq<char>) -> Option<JsonV> {
    let i = first_where(m, named(k));
    if i < m.len() {
        Some(m[i].1)
    } else {
        None
    }
}

/// The members with `k` set to `v`: in its place if it is there, else at the end.
pub open spec fn with_member(m: Members, k: Seq<char>, v: JsonV) -> Members {
    let i = first_where(m, named(k));
    if i < m.len() {
        m.update(i, (k, v))
    } else {
        m.push((k, v))
    }
}

/// The members of `a`, with those of `b` set over them one after the other.
pub open spec fn merged(a: Members, b: Members) -> Members
    decreases b.len(),
{
    if b.len() == 0 {
        a
    } else {
        with_member(merged(a, b.drop_last()), b.last().0, b.last().1)
    }
}

/// `a` with the members of `b` set over its own, if both are objects; else `a`.
pub open spec fn merge_of(a: JsonV, b: JsonV) -> JsonV {
    match (a, b) {
        (JsonV::Obj(x), JsonV::Obj(y)) => JsonV::Obj(merged(x, y)),
        _ => a,
    }
}

impl JsonV {
    /// The value of a member; none of a value that is not an object.
    pub open spec fn field(self, k: Seq<char>) -> Option<JsonV> {
        match self {
            JsonV::Obj(m) => lookup(m, k),
            _ => None,
        }
    }

    /// The value of a member, or null.
    pub open spec fn at(self, k: Seq<char>) -> JsonV {
        match self.field(k) {
            Some(v) => v,
            None => JsonV::Null,
        }
    }

    /// The string in a string value.
    pub open spec fn string(self) -> Option<Seq<char>> {
        match self {
            JsonV::Str(s) => Some(s),
            _ => None,
        }
    }

    /// The string in a member, or the given one.
    pub open spec fn field_text(self, k: Seq<char>, default: Seq<char>) -> Seq<char> {
        match self.at(k).string() {
            Some(s) => s,
            None => default,
        }
    }

    /// The integer in a number that is one and fits 64 bits.
    pub open spec fn integer(self) -> Option<int> {
        match self {
            JsonV::Int(n) => if i64::MIN <= n <= i64::MAX {
                Some(n)
            } else {
                None
            },
            _ => None,
        }
    }

    /// The integer in a member, or zero.
    pub open spec fn field_int(self, k: Seq<char>) -> int {
        match self.at(k).integer() {
            Some(n) => n,
            None => 0,
        }
    }

    /// Whether the value is a number.
    pub open spec fn is_number(self) -> bool {
        self is Int || self is Real
    }

    /// The truth value of a member, or the given one.
    pub open spec fn field_bool(self, k: Seq<char>, default: bool) -> bool {
        match self.at(k) {
            JsonV::Bool(b) => b,
            _ => default,
        }
    }

    /// The items of an array; none of another value.
    pub open spec fn items(self) -> Seq<JsonV> {
        match self {
            JsonV::Arr(v) => v,
            _ => Seq::empty(),
        }
    }
}

impl Json {
    /// A value equal to this one.
    pub fn copy(&self) -> (r: Json)
        ensures
            r@ == self@,
        decreases self,
    {
        match self {
            Json::Null => Json::Null,
            Json::Bool(b) => Json::Bool(*b),
            Json::Int(n) => Json::Int(*n),
            Json::Real(k) => Json::Real(*k),
            Json::Str(s) => Json::Str(s.clone()),
            Json::Arr(v) => {
                let mut out: Vec<Json> = Vec::new();
                let mut i: usize = 0;
                while i < v.len()
                    invariant
                        i <= v@.len(),
                        out@.len() == i,
                        *self == Json::Arr(*v),
                        forall|j: int| 0 <= j < i ==> (#[trigger] out@[j])@ == v@[j]@,
                    decreases v@.len() - i,
                {
                    proof {
                        assert(decreases_to!(*self => self->Arr_0));
                        assert(decreases_to!(v@ => v@[i as int]));
                    }
                    let x = v[i].copy();
                    out.push(x);
                    i = i + 1;
                }
                let r = Json::Arr(out);
                assert(r@->Arr_0 =~= self@->Arr_0);
                r
            },
            Json::Obj(v) => {
                let mut out: Vec<(String, Json)> = Vec::new();
                let mut i: usize = 0;
                while i < v.len()
                    invariant
                        i <= v@.len(),
                        out@.len() == i,
                        *self == Json::Obj(*v),
                        forall|j: int|
                            0 <= j < i ==> (#[trigger] out@[j]).0@ == v@[j].0@ && out@[j].1@
                                == v@[j].1@,
                    decreases v@.len() - i,
                {
                    proof {
                        assert(decreases_to!(*self => self->Obj_0));
                        assert(decreases_to!(v@ => v@[i as int]));
                        assert(decreases_to!(v@[i as int] => v@[i as int].1));
                    }
                    let x = v[i].1.copy();
                    out.push((v[i].0.clone(), x));
                    i = i + 1;
                }
                let r = Json::Obj(out);
                proof {
                    lemma_obj_view(out);
                    lemma_obj_view(*v);
                    assert(members(out@) =~= members(v@));
                }
                r
            },
        }
    }

    /// The value of a member, if this is an object that has it.
    pub fn get(&self, k: &str) -> (r: Option<&Json>)
        ensures
            match r {
                Some(v) => self@.field(k@) == Some(v@),
                None => self@.field(k@) is None,
            },
    {
        broadcast use lemma_obj_view;

        match self {
            Json::Obj(v) => {
                let i = find_member(v, k);
                if i < v.len() {
                    Some(&v[i].1)
                } else {
                    None
                }
            },
            _ => None,
        }
    }

    /// The string in this value, if it is one.
    pub fn as_str(&self) -> (r: Option<&String>)
        ensures
            match r {
                Some(s) => self@.string() == Some(s@),
                None => self@.string() is None,
            },
    {
        match self {
            Json::Str(s) => Some(s),
            _ => None,
        }
    }

    /// The integer in this value, if it is one of 64 bits.
    pub fn as_i64(&self) -> (r: Option<i64>)
        ensures
            match r {
                Some(n) => self@.integer() == Some(n as int),
                None => self@.integer() is None,
            },
    {
        match self {
            Json::Int(n) => if *n >= i64::MIN as i128 && *n <= i64::MAX as i128 {
                Some(*n as i64)
            } else {
                None
            },
            _ => None,
        }
    }

    /// Whether this value is a number.
    pub fn number(&self) -> (r: bool)
        ensures
            r == self@.is_number(),
    {
        match self {
            Json::Int(_) => true,
            Json::Real(_) => true,
            _ => false,
        }
    }

    /// The string in a member, or the given one.
    pub fn text_at(&self, k: &str, default: &str) -> (r: String)
        ensures
            r@ == self@.field_text(k@, default@),
    {
        match self.get(k) {
            Some(v) => match v.as_str() {
                Some(s) => s.clone(),
                None => default.to_string(),
            },
            None => default.to_string(),
        }
    }

    /// The integer in a member, or zero.
    pub fn int_at(&self, k: &str) -> (r: i64)
        ensures
            r == self@.field_int(k@),
    {
        match self.get(k) {
            Some(v) => match v.as_i64() {
                Some(n) => n,
                None => 0,
            },
            None => 0,
        }
    }

    /// The truth value in a member, or the given one.
    pub fn bool_at(&self, k: &str, default: bool) -> (r: bool)
        ensures
            r == self@.field_bool(k@, default),
    {
        match self.get(k) {
            Some(Json::Bool(b)) => *b,
            _ => default,
        }
    }

    /// The items of the array in a member; none where there is no array.
    pub fn items_at(&self, k: &str) -> (r: Vec<Json>)
        ensures
            views(r@) == self@.at(k@).items(),
    {
        broadcast use lemma_arr_view;

        match self.get(k) {
            Some(Json::Arr(v)) => copy_all(v),
            _ => {
                let r: Vec<Json> = Vec::new();
                assert(views(r@) =~= Seq::<JsonV>::empty());
                r
            },
        }
    }
}

/// Copies an optional value.
pub fn copy_opt_json(o: &Option<Json>) -> (r: Option<Json>)
    ensures
        opt(r) == opt(*o),
{
    match o {
        Some(x) => Some(x.copy()),
        None => None,
    }
}

/// The value of a column that may be absent and whose text may not be JSON.
pub open spec fn opt_opt(o: Option<Option<Json>>) -> Option<Option<JsonV>> {
    match o {
        Some(x) => Some(opt(x)),
        None => None,
    }
}

/// Copies the value of a column that may be absent.
pub fn copy_opt_opt(o: &Option<Option<Json>>) -> (r: Option<Option<Json>>)
    ensures
        opt_opt(r) == opt_opt(*o),
{
    match o {
        Some(x) => Some(copy_opt_json(x)),
        None => None,
    }
}

/// Copies every value of a list.
pub fn copy_all(v: &Vec<Json>) -> (r: Vec<Json>)
    ensures
        views(r@) == views(v@),
{
    let mut r: Vec<Json> = Vec::new();
    let mut i: usize = 0;
    while i < v.len()
        invariant
            i <= v@.len(),
            r@.len() == i,
            forall|j: int| 0 <= j < i ==> (#[trigger] r@[j])@ == v@[j]@,
        decreases v@.len() - i,
    {
        r.push(v[i].copy());
        i = i + 1;
    }
    assert(views(r@) =~= views(v@));
    r
}

/// Copies every member of an object.
pub fn copy_members(v: &Vec<(String, Json)>) -> (r: Vec<(String, Json)>)
    ensures
        members(r@) == members(v@),
{
    let mut r: Vec<(String, Json)> = Vec::new();
    let mut i: usize = 0;
    while i < v.len()
        invariant
            i <= v@.len(),
            r@.len() == i,
            forall|j: int| 0 <= j < i ==> (#[trigger] r@[j]).0@ == v@[j].0@ && r@[j].1@ == v@[j].1@,
        decreases v@.len() - i,
    {
        r.push((v[i].0.clone(), v[i].1.copy()));
        i = i + 1;
    }
    assert(members(r@) =~= members(v@));
    r
}

/// The index of the member `k`, or the number of members if there is none.
fn find_member(v: &Vec<(String, Json)>, k: &str) -> (r: usize)
    ensures
        r == first_where(members(v@), named(k@)),
        r <= v@.len(),
{
    let mut i: usize = 0;
    while i < v.len()
        invariant
            i <= v@.len(),
            forall|j: int| 0 <= j < i ==> (#[trigger] v@[j]).0@ != k@,
        decreases v@.len() - i,
    {
        if str_eq(v[i].0.as_str(), k) {
            proof {
                lemma_first_where_is(members(v@), named(k@), i as int);
            }
            return i;
        }
        i = i + 1;
    }
    proof {
        lemma_first_where_is(members(v@), named(k@), v@.len() as int);
    }
    i
}

/// Sets a member: in its place if it is there, else at the end.
pub fn set_member(v: &mut Vec<(String, Json)>, k: String, x: Json)
    ensures
        members(final(v)@) == with_member(members(old(v)@), k@, x@),
{
    let ghost before = members(v@);
    let ghost key = k@;
    let ghost val = x@;
    let i = find_member(v, k.as_str());
    if i < v.len() {
        v.set(i, (k, x));
        assert(members(v@) =~= before.update(i as int, (key, val)));
    } else {
        v.push((k, x));
        assert(members(v@) =~= before.push((key, val)));
    }
}

/// Adds a member at the end.
pub fn push_member(v: &mut Vec<(String, Json)>, k: &str, x: Json)
    ensures
        members(final(v)@) == members(old(v)@).push((k@, x@)),
{
    let ghost before = members(v@);
    let ghost val = x@;
    v.push((k.to_string(), x));
    assert(members(v@) =~= before.push((k@, val)));
}

/// An empty list of members.
pub fn no_members() -> (r: Vec<(String, Json)>)
    ensures
        members(r@) == Seq::<(Seq<char>, JsonV)>::empty(),
{
    let r: Vec<(String, Json)> = Vec::new();
    assert(members(r@) =~= Seq::<(Seq<char>, JsonV)>::empty());
    r
}

/// The object with the given members.
pub fn object(v: Vec<(String, Json)>) -> (r: Json)
    ensures
        r@ == JsonV::Obj(members(v@)),
{
    broadcast use lemma_obj_view;

    Json::Obj(v)
}

/// The string value with the given characters.
pub fn text_value(s: &str) -> (r: Json)
    ensures
        r@ == JsonV::Str(s@),
{
    Json::Str(s.to_string())
}

/// The value of an optional string: itself, or null.
pub open spec fn opt_text_of(s: Option<Seq<char>>) -> JsonV {
    match s {
        Some(x) => JsonV::Str(x),
        None => JsonV::Null,
    }
}

/// The value of an optional string: itself, or null.
pub fn opt_text(s: &Option<String>) -> (r: Json)
    ensures
        r@ == opt_text_of(opt(*s)),
{
    match s {
        Some(x) => Json::Str(x.clone()),
        None => Json::Null,
    }
}

/// Sets the members of `b` over those of `a`, if both are objects.
pub fn merge(a: &mut Json, b: Json)
    ensures
        final(a)@ == merge_of(old(a)@, b@),
{
    broadcast use lemma_obj_view;

    if let (Json::Obj(am), Json::Obj(bm)) = (a, b) {
        let ghost first = members(am@);
        let mut i: usize = 0;
        assert(members(bm@).take(0) =~= Seq::<(Seq<char>, JsonV)>::empty());
        while i < bm.len()
            invariant
                i <= bm@.len(),
                members(am@) == merged(first, members(bm@).take(i as int)),
            decreases bm@.len() - i,
        {
            proof {
                let t = members(bm@).take(i + 1);
                assert(t.drop_last() =~= members(bm@).take(i as int));
                assert(t.last() == (bm@[i as int].0@, bm@[i as int].1@));
            }
            let x = bm[i].1.copy();
            set_member(am, bm[i].0.clone(), x);
            i = i + 1;
        }
        assert(members(bm@).take(bm@.len() as int) =~= members(bm@));
    }
}

/// The value that the last member of the name `k` gives.
pub open spec fn last_value(m: Members, k: Seq<char>) -> Option<JsonV>
    decreases m.len(),
{
    if m.len() == 0 {
        None
    } else if m.last().0 == k {
        Some(m.last().1)
    } else {
        last_value(m.drop_last(), k)
    }
}

/// A member that `b` names has the value that `b` gives it last; every other
/// one keeps the value that it has in `a`.
pub proof fn law_merged_lookup(a: Members, b: Members, k: Seq<char>)
    ensures
        lookup(merged(a, b), k) == (match last_value(b, k) {
            Some(v) => Some(v),
            None => lookup(a, k),
        }),
    decreases b.len(),
{
    if b.len() > 0 {
        law_merged_lookup(a, b.drop_last(), k);
        lemma_with_member_lookup(merged(a, b.drop_last()), b.last().0, b.last().1, k);
    }
}

/// Setting a member changes that member alone.
pub proof fn lemma_with_member_lookup(m: Members, k: Seq<char>, v: JsonV, q: Seq<char>)
    ensures
        lookup(with_member(m, k, v), q) == (if q == k {
            Some(v)
        } else {
            lookup(m, q)
        }),
{
    lemma_first_where(m, named(k));
    lemma_first_where(m, named(q));
    let i = first_where(m, named(k));
    let n = with_member(m, k, v);
    if q == k {
        lemma_first_where_is(n, named(k), i);
    } else {
        let j = first_where(m, named(q));
        if j < m.len() {
            assert(named(q)(n[j]));
            lemma_first_where_is(n, named(q), j);
        } else {
            assert forall|x: int| 0 <= x < n.len() implies !named(q)(#[trigger] n[x]) by {
                if x < m.len() && x != i {
                    assert(n[x] == m[x]);
                }
            }
            lemma_first_where_is(n, named(q), n.len() as int);
        }
    }
}

} // verus!
