//! JSON values as plain data.
//!
//! Numbers keep the three shapes a parsed document can give them. A number with
//! a fraction is carried as the text of its double and never computed with.

use vstd::prelude::*;
use vstd::string::*;

use crate::text;
use crate::text::str_eq;

verus! {

/// A double, as a decimal text that reads as it. It is carried and never computed with.
pub type Real = String;

/// A JSON value. The members of an object keep the order in which they were added.
pub enum Json {
    Null,
    Bool(bool),
    PosInt(u64),
    NegInt(i64),
    Float(Real),
    Str(String),
    Array(Vec<Json>),
    Object(Vec<(String, Json)>),
}

/// The mathematical counterpart of [`Json`].
pub enum JsonView {
    Null,
    Bool(bool),
    PosInt(u64),
    NegInt(i64),
    Float(Seq<char>),
    Str(Seq<char>),
    Array(Seq<JsonView>),
    Object(Seq<(Seq<char>, JsonView)>),
}

/// The members of an object as mathematical values.
pub type Members = Seq<(Seq<char>, JsonView)>;

/// An object without members.
#[verifier::inline]
pub open spec fn no_members() -> Members {
    Seq::<(Seq<char>, JsonView)>::empty()
}

/// The mathematical value of a JSON value.
pub open spec fn json_view(j: Json) -> JsonView
    decreases j,
{
    match j {
        Json::Null => JsonView::Null,
        Json::Bool(b) => JsonView::Bool(b),
        Json::PosInt(n) => JsonView::PosInt(n),
        Json::NegInt(n) => JsonView::NegInt(n),
        Json::Float(n) => JsonView::Float(n@),
        Json::Str(s) => JsonView::Str(s@),
        Json::Array(v) => JsonView::Array(items_view(v@)),
        Json::Object(v) => JsonView::Object(members_view(v@)),
    }
}

/// The mathematical values of a sequence of JSON values.
pub open spec fn items_view(s: Seq<Json>) -> Seq<JsonView>
    decreases s,
{
    if s.len() == 0 {
        Seq::empty()
    } else {
        items_view(s.drop_last()).push(json_view(s[s.len() - 1]))
    }
}

/// The mathematical values of the members of an object.
pub open spec fn members_view(s: Seq<(String, Json)>) -> Members
    decreases s,
{
    if s.len() == 0 {
        Seq::empty()
    } else {
        members_view(s.drop_last()).push(
            (s[s.len() - 1].0@, json_view(s[s.len() - 1].1)),
        )
    }
}

impl View for Json {
    type V = JsonView;

    open spec fn view(&self) -> JsonView {
        json_view(*self)
    }
}

/// The member of an object with the given name, at or after position `i`.
pub open spec fn member_from(
    s: Members,
    name: Seq<char>,
    i: int,
) -> Option<JsonView>
    decreases s.len() - i,
{
    if i < 0 || i >= s.len() {
        None
    } else if s[i].0 == name {
        Some(s[i].1)
    } else {
        member_from(s, name, i + 1)
    }
}

/// The member of an object with the given name.
pub open spec fn member(s: Members, name: Seq<char>) -> Option<JsonView> {
    member_from(s, name, 0)
}

impl JsonView {
    /// The member of an object with the given name; nothing for any other value.
    pub open spec fn field(self, name: Seq<char>) -> Option<JsonView> {
        match self {
            JsonView::Object(s) => member(s, name),
            _ => None,
        }
    }

    /// The text of a string member; nothing if the member is missing or no string.
    pub open spec fn str_field(self, name: Seq<char>) -> Option<Seq<char>> {
        match self.field(name) {
            Some(JsonView::Str(s)) => Some(s),
            _ => None,
        }
    }
}

pub broadcast proof fn lemma_items_view(s: Seq<Json>)
    ensures
        #[trigger] items_view(s).len() == s.len(),
        forall|i: int| #![trigger items_view(s)[i]]
            0 <= i < s.len() ==> items_view(s)[i] == json_view(s[i]),
    decreases s.len(),
{
    if s.len() > 0 {
        lemma_items_view(s.drop_last());
    }
}

pub broadcast proof fn lemma_members_view(s: Seq<(String, Json)>)
    ensures
        #[trigger] members_view(s).len() == s.len(),
        forall|i: int| #![trigger members_view(s)[i]]
            0 <= i < s.len() ==> members_view(s)[i] == (s[i].0@, json_view(s[i].1)),
    decreases s.len(),
{
    if s.len() > 0 {
        lemma_members_view(s.drop_last());
    }
}

/// The member of an object with the given name.
pub fn get_member<'a>(members: &'a Vec<(String, Json)>, name: &str) -> (r: Option<&'a Json>)
    ensures
        match r {
            Some(v) => member(members_view(members@), name@) == Some(v@),
            None => member(members_view(members@), name@) is None,
        },
{
    broadcast use lemma_members_view;

    let mut i: usize = 0;
    while i < members.len()
        invariant
            i <= members.len(),
            member(members_view(members@), name@) == member_from(
                members_view(members@),
                name@,
                i as int,
            ),
            members_view(members@).len() == members@.len(),
            forall|k: int| #![trigger members_view(members@)[k]]
                0 <= k < members@.len() ==> members_view(members@)[k] == (
                    members@[k].0@,
                    json_view(members@[k].1),
                ),
        decreases members.len() - i,
    {
        if str_eq(members[i].0.as_str(), name) {
            return Some(&members[i].1);
        }
        i += 1;
    }
    None
}

/// The members of an object after one of them is set: an old value is replaced in its place,
/// a new member comes last.
pub open spec fn with_member(
    s: Members,
    name: Seq<char>,
    value: JsonView,
) -> Members {
    match member_pos_from(s, name, 0) {
        Some(i) => s.update(i, (name, value)),
        None => s.push((name, value)),
    }
}

/// The first position at or after `i` of a member with the given name.
pub open spec fn member_pos_from(
    s: Members,
    name: Seq<char>,
    i: int,
) -> Option<int>
    decreases s.len() - i,
{
    if i < 0 || i >= s.len() {
        None
    } else if s[i].0 == name {
        Some(i)
    } else {
        member_pos_from(s, name, i + 1)
    }
}

proof fn lemma_member_pos(s: Members, name: Seq<char>, i: int)
    requires
        0 <= i <= s.len(),
    ensures
        match member_pos_from(s, name, i) {
            Some(k) => {
                &&& i <= k < s.len()
                &&& s[k].0 == name
                &&& member_from(s, name, i) == Some(s[k].1)
                &&& forall|j: int| i <= j < k ==> (#[trigger] s[j]).0 != name
            },
            None => {
                &&& member_from(s, name, i) is None
                &&& forall|j: int| i <= j < s.len() ==> (#[trigger] s[j]).0 != name
            },
        },
    decreases s.len() - i,
{
    if i < s.len() && s[i].0 != name {
        lemma_member_pos(s, name, i + 1);
    }
}

proof fn lemma_member_is(s: Members, name: Seq<char>, i: int, k: int)
    requires
        0 <= i <= k < s.len(),
        s[k].0 == name,
        forall|j: int| i <= j < k ==> (#[trigger] s[j]).0 != name,
    ensures
        member_from(s, name, i) == Some(s[k].1),
    decreases k - i,
{
    if i < k {
        lemma_member_is(s, name, i + 1, k);
    }
}

/// Setting a member makes it readable under its name and leaves the other members alone.
pub proof fn law_with_member(
    s: Members,
    name: Seq<char>,
    value: JsonView,
    other: Seq<char>,
)
    ensures
        member(with_member(s, name, value), other) == (if other == name {
            Some(value)
        } else {
            member(s, other)
        }),
{
    let t = with_member(s, name, value);
    lemma_member_pos(s, name, 0);
    lemma_member_pos(s, other, 0);
    lemma_member_pos(t, other, 0);
    match member_pos_from(s, name, 0) {
        Some(k) => {
            if other == name {
                assert forall|j: int| 0 <= j < k implies (#[trigger] t[j]).0 != other by {
                    assert(s[j].0 != name);
                }
                lemma_member_is(t, other, 0, k);
            } else if member_pos_from(s, other, 0) is Some {
                let m = member_pos_from(s, other, 0)->0;
                assert(m != k);
                assert forall|j: int| 0 <= j < m implies (#[trigger] t[j]).0 != other by {
                    assert(s[j].0 != other);
                }
                lemma_member_is(t, other, 0, m);
            } else {
                assert forall|j: int| 0 <= j < t.len() implies (#[trigger] t[j]).0 != other by {
                    assert(s[j].0 != other);
                }
            }
        },
        None => {
            if member_pos_from(s, other, 0) is Some {
                let m = member_pos_from(s, other, 0)->0;
                assert forall|j: int| 0 <= j < m implies (#[trigger] t[j]).0 != other by {
                    assert(s[j].0 != other);
                }
                lemma_member_is(t, other, 0, m);
            } else if other == name {
                assert forall|j: int| 0 <= j < s.len() implies (#[trigger] t[j]).0 != other by {
                    assert(s[j].0 != name);
                }
                lemma_member_is(t, other, 0, s.len() as int);
            } else {
                assert forall|j: int| 0 <= j < t.len() implies (#[trigger] t[j]).0 != other by {
                    if j < s.len() {
                        assert(s[j].0 != other);
                    }
                }
            }
        },
    }
}

/// Sets a member of an object.
pub fn put_member(members: &mut Vec<(String, Json)>, name: &str, value: Json)
    ensures
        members_view(final(members)@) == with_member(members_view(old(members)@), name@, value@),
{
    broadcast use lemma_members_view;

    let ghost before = members@;
    let mut i: usize = 0;
    while i < members.len()
        invariant
            i <= members.len(),
            members@ == before,
            before == old(members)@,
            member_pos_from(members_view(before), name@, 0) == member_pos_from(
                members_view(before),
                name@,
                i as int,
            ),
            members_view(before).len() == before.len(),
            forall|k: int| #![trigger members_view(before)[k]]
                0 <= k < before.len() ==> members_view(before)[k] == (
                    before[k].0@,
                    json_view(before[k].1),
                ),
        decreases members.len() - i,
    {
        if str_eq(members[i].0.as_str(), name) {
            members[i] = (name.to_owned(), value);
            proof {
                lemma_members_view(members@);
            }
            assert(members_view(members@) =~= members_view(before).update(
                i as int,
                (name@, value@),
            ));
            return ;
        }
        i += 1;
    }
    members.push((name.to_owned(), value));
    assert(members@.drop_last() =~= before);
}

impl Json {
    /// A string value.
    pub fn str(s: &str) -> (r: Json)
        ensures
            r@ == JsonView::Str(s@),
    {
        Json::Str(s.to_owned())
    }

    /// The member with the given name, for an object that has one.
    pub fn get<'a>(&'a self, name: &str) -> (r: Option<&'a Json>)
        ensures
            match r {
                Some(v) => self@.field(name@) == Some(v@),
                None => self@.field(name@) is None,
            },
    {
        match self {
            Json::Object(members) => get_member(members, name),
            _ => None,
        }
    }

    /// The text of a string value.
    pub fn as_str<'a>(&'a self) -> (r: Option<&'a str>)
        ensures
            match r {
                Some(s) => self@ == JsonView::Str(s@),
                None => !(self@ is Str),
            },
    {
        match self {
            Json::Str(s) => Some(s.as_str()),
            _ => None,
        }
    }

    /// The text of a string member.
    pub fn get_str<'a>(&'a self, name: &str) -> (r: Option<&'a str>)
        ensures
            match r {
                Some(s) => self@.str_field(name@) == Some(s@),
                None => self@.str_field(name@) is None,
            },
    {
        match self.get(name) {
            Some(v) => v.as_str(),
            None => None,
        }
    }
}

/// The value of a whole number that fits an `i64`; nothing for any other value.
pub open spec fn int_value(j: JsonView) -> Option<int> {
    match j {
        JsonView::PosInt(n) => if n <= i64::MAX {
            Some(n as int)
        } else {
            None
        },
        JsonView::NegInt(n) => Some(n as int),
        _ => None,
    }
}

/// A whole number.
pub open spec fn int_json(n: int) -> JsonView {
    if n >= 0 {
        JsonView::PosInt(n as u64)
    } else {
        JsonView::NegInt(n as i64)
    }
}

impl Json {
    /// A whole number.
    pub fn from_i64(n: i64) -> (r: Json)
        ensures
            r@ == int_json(n as int),
    {
        if n >= 0 {
            Json::PosInt(n as u64)
        } else {
            Json::NegInt(n)
        }
    }

    /// The value of a whole number that fits an `i64`.
    pub fn as_i64(&self) -> (r: Option<i64>)
        ensures
            match r {
                Some(n) => int_value(self@) == Some(n as int),
                None => int_value(self@) is None,
            },
    {
        match self {
            Json::PosInt(n) => if *n <= 9_223_372_036_854_775_807 {
                Some(*n as i64)
            } else {
                None
            },
            Json::NegInt(n) => Some(*n),
            _ => None,
        }
    }

    /// The value of a whole number that is not negative.
    pub fn as_u64(&self) -> (r: Option<u64>)
        ensures
            match r {
                Some(n) => self@ == JsonView::PosInt(n),
                None => !(self@ is PosInt),
            },
    {
        match self {
            Json::PosInt(n) => Some(*n),
            _ => None,
        }
    }

    /// The value of a truth value.
    pub fn as_bool(&self) -> (r: Option<bool>)
        ensures
            match r {
                Some(b) => self@ == JsonView::Bool(b),
                None => !(self@ is Bool),
            },
    {
        match self {
            Json::Bool(b) => Some(*b),
            _ => None,
        }
    }

    /// A string, or null where there is none.
    pub fn opt_str(s: &Option<String>) -> (r: Json)
        ensures
            r@ == opt_str_json(s.deep_view()),
    {
        match s {
            Some(v) => Json::Str(v.clone()),
            None => Json::Null,
        }
    }

    /// An array of strings.
    pub fn strings(v: &Vec<String>) -> (r: Json)
        ensures
            r@ == strings_json(v.deep_view()),
    {
        let mut out: Vec<Json> = Vec::new();
        let mut i: usize = 0;
        while i < v.len()
            invariant
                i <= v.len(),
                items_view(out@) == v.deep_view().take(i as int).map_values(
                    |s: Seq<char>| JsonView::Str(s),
                ),
            decreases v.len() - i,
        {
            let ghost before = out@;
            let item: Json = Json::Str(v[i].clone());
            assert(json_view(item) == JsonView::Str(v@[i as int]@));
            out.push(item);
            i += 1;
            proof {
                assert(out@.drop_last() =~= before);
                assert(items_view(out@) == items_view(before).push(JsonView::Str(v@[i - 1]@)));
                assert(v.deep_view()[i - 1] == v@[i - 1]@);
                assert(items_view(out@) =~= v.deep_view().take(i as int).map_values(
                    |s: Seq<char>| JsonView::Str(s),
                ));
            }
        }
        assert(v.deep_view().take(i as int) =~= v.deep_view());
        Json::Array(out)
    }
}

/// A string, or null where there is none.
pub open spec fn opt_str_json(s: Option<Seq<char>>) -> JsonView {
    match s {
        Some(v) => JsonView::Str(v),
        None => JsonView::Null,
    }
}

/// An array of strings.
pub open spec fn strings_json(s: Seq<Seq<char>>) -> JsonView {
    JsonView::Array(s.map_values(|v: Seq<char>| JsonView::Str(v)))
}

/// An object under construction: members in the order in which they were added.
pub struct ObjectBuilder {
    pub members: Vec<(String, Json)>,
}

impl View for ObjectBuilder {
    type V = Members;

    open spec fn view(&self) -> Members {
        members_view(self.members@)
    }
}

impl ObjectBuilder {
    /// An object without members.
    pub fn new() -> (r: Self)
        ensures
            r@ == no_members(),
    {
        ObjectBuilder { members: Vec::new() }
    }

    /// The object with one more member.
    pub fn field(self, name: &str, value: Json) -> (r: Self)
        ensures
            r@ == self@.push((name@, value@)),
    {
        let mut members = self.members;
        members.push((name.to_owned(), value));
        assert(members@.drop_last() =~= self.members@);
        ObjectBuilder { members }
    }

    /// The object with one more string member.
    pub fn text(self, name: &str, value: &str) -> (r: Self)
        ensures
            r@ == self@.push((name@, JsonView::Str(value@))),
    {
        self.field(name, Json::str(value))
    }

    /// The finished object.
    pub fn done(self) -> (r: Json)
        ensures
            r@ == JsonView::Object(self@),
    {
        Json::Object(self.members)
    }
}

/// A copy of a JSON value.
pub fn copy_json(j: &Json) -> (r: Json)
    ensures
        r@ == j@,
    decreases j,
{
    match j {
        Json::Null => Json::Null,
        Json::Bool(b) => Json::Bool(*b),
        Json::PosInt(n) => Json::PosInt(*n),
        Json::NegInt(n) => Json::NegInt(*n),
        Json::Float(n) => Json::Float(n.clone()),
        Json::Str(s) => Json::Str(s.clone()),
        Json::Array(v) => Json::Array(copy_items(v)),
        Json::Object(v) => Json::Object(copy_members(v)),
    }
}

/// A copy of a sequence of JSON values.
pub fn copy_items(v: &Vec<Json>) -> (r: Vec<Json>)
    ensures
        items_view(r@) == items_view(v@),
    decreases v,
{
    let mut out: Vec<Json> = Vec::new();
    let mut i: usize = 0;
    while i < v.len()
        invariant
            i <= v.len(),
            items_view(out@) == items_view(v@.take(i as int)),
        decreases v.len() - i,
    {
        assert(decreases_to!(v => v[i as int]));
        let item: Json = copy_json(&v[i]);
        let ghost before = out@;
        out.push(item);
        i += 1;
        assert(v@.take(i as int).drop_last() =~= v@.take(i - 1));
        assert(out@.drop_last() =~= before);
    }
    assert(v@.take(i as int) =~= v@);
    out
}

/// A copy of the members of an object.
pub fn copy_members(v: &Vec<(String, Json)>) -> (r: Vec<(String, Json)>)
    ensures
        members_view(r@) == members_view(v@),
    decreases v,
{
    let mut out: Vec<(String, Json)> = Vec::new();
    let mut i: usize = 0;
    while i < v.len()
        invariant
            i <= v.len(),
            members_view(out@) == members_view(v@.take(i as int)),
        decreases v.len() - i,
    {
        assert(decreases_to!(v => v[i as int]));
        assert(decreases_to!(v[i as int] => v[i as int].1));
        let name: String = v[i].0.clone();
        let item: Json = copy_json(&v[i].1);
        let ghost before = out@;
        out.push((name, item));
        i += 1;
        assert(v@.take(i as int).drop_last() =~= v@.take(i - 1));
        assert(out@.drop_last() =~= before);
    }
    assert(v@.take(i as int) =~= v@);
    out
}

/// A lower-case hexadecimal digit.
pub open spec fn lower_hex(n: nat) -> char {
    if n < 10 {
        (48 + n) as char
    } else {
        (87 + n) as char
    }
}

/// What `serde_json::Value` prints as.
pub uninterp spec fn serde_text(j: JsonView) -> Seq<char>;

/// A JSON value as text: a word or a whole number as it is read, and anything else as `serde_json`
/// prints it.
pub open spec fn json_text(j: JsonView) -> Seq<char> {
    match j {
        JsonView::Null => "null"@,
        JsonView::Bool(b) => if b {
            "true"@
        } else {
            "false"@
        },
        JsonView::PosInt(n) => text::decimal(n as nat),
        JsonView::NegInt(n) => if n < 0 {
            "-"@ + text::decimal((-n) as nat)
        } else {
            text::decimal(n as nat)
        },
        _ => serde_text(j),
    }
}

/// Calls `serde_json::Value::to_string` on the value that a [`Json`] stands for. It depends on the
/// value alone; of words and whole numbers it is the text that they are read from, and of others the
/// contract does not say what it is.
#[verifier::external_body]
fn print(j: &Json) -> (r: String)
    ensures
        r@ == serde_text(j@),
        r@ == json_text(j@),
{
    to_value(j).to_string()
}

/// Converts to a `serde_json::Value`, variant by variant; a double is read from its text. Nothing is
/// stated of the result: [`print`] says what it prints as.
#[verifier::external_body]
fn to_value(j: &Json) -> serde_json::Value {
    match j {
        Json::Null => serde_json::Value::Null,
        Json::Bool(b) => serde_json::Value::Bool(*b),
        Json::PosInt(n) => serde_json::Value::from(*n),
        Json::NegInt(n) => serde_json::Value::from(*n),
        Json::Float(t) => t.parse().map_or(serde_json::Value::Null, serde_json::Value::Number),
        Json::Str(s) => serde_json::Value::String(s.clone()),
        Json::Array(v) => serde_json::Value::Array(v.iter().map(to_value).collect()),
        Json::Object(m) => serde_json::Value::Object(
            m.iter().map(|x| (x.0.clone(), to_value(&x.1))).collect(),
        ),
    }
}

/// A JSON value as text, without spaces.
pub fn to_text(j: &Json) -> (r: String)
    ensures
        r@ == json_text(j@),
{
    print(j)
}

/// A lower-case hexadecimal digit.
pub fn lower_hex_char(n: u32) -> (r: char)
    requires
        n < 16,
    ensures
        r == lower_hex(n as nat),
{
    if n < 10 {
        ((48 + n) as u8) as char
    } else {
        ((87 + n) as u8) as char
    }
}

/// A value that has a JSON form.
pub trait ToJson {
    /// The JSON form of the value.
    spec fn json(&self) -> JsonView;

    /// The JSON form of the value.
    fn to_json(&self) -> (r: Json)
        ensures
            r@ == self.json(),
    ;
}

/// The JSON array of values.
pub open spec fn array_of<T: ToJson>(s: Seq<T>) -> JsonView {
    JsonView::Array(Seq::new(s.len(), |i: int| s[i].json()))
}

/// The JSON array of values.
pub fn to_array<T: ToJson>(v: &Vec<T>) -> (r: Json)
    ensures
        r@ == array_of(v@),
{
    let mut out: Vec<Json> = Vec::new();
    let mut i: usize = 0;
    while i < v.len()
        invariant
            i <= v.len(),
            out@.len() == i,
            forall|k: int| 0 <= k < i ==> (#[trigger] out@[k])@ == v@[k].json(),
        decreases v.len() - i,
    {
        out.push(v[i].to_json());
        i += 1;
    }
    proof {
        lemma_items_view(out@);
        assert(items_view(out@) =~= Seq::new(v@.len(), |i: int| v@[i].json()));
    }
    Json::Array(out)
}

/// A number as the decimal text of a double.
pub open spec fn real_of(j: JsonView) -> Option<Seq<char>> {
    match j {
        JsonView::Float(t) => Some(t),
        JsonView::PosInt(_) | JsonView::NegInt(_) => Some(json_text(j) + ".0"@),
        _ => None,
    }
}

impl Json {
    /// A number as the decimal text of a double.
    pub fn as_real(&self) -> (r: Option<Real>)
        ensures
            r.deep_view() == real_of(self@),
    {
        match self {
            Json::Float(t) => Some(t.clone()),
            Json::PosInt(_) | Json::NegInt(_) => Some(text::concat(to_text(self).as_str(), ".0")),
            _ => None,
        }
    }
}

/// An empty JSON object.
pub fn empty_object() -> (r: Json)
    ensures
        r@ == JsonView::Object(no_members()),
{
    Json::Object(Vec::new())
}

/// An empty JSON array.
pub fn empty_array() -> (r: Json)
    ensures
        r@ == JsonView::Array(Seq::empty()),
{
    Json::Array(Vec::new())
}

/// An error of `serde_json`.
#[verifier::external_type_specification]
#[verifier::external_body]
pub struct ExSerdeError(serde_json::Error);

/// A JSON value of `serde_json`.
#[verifier::external_type_specification]
#[verifier::external_body]
pub struct ExSerdeValue(serde_json::Value);

/// What `serde_json::from_slice` reads from bytes as a JSON value, if they are one.
pub uninterp spec fn parsed(text: Seq<u8>) -> Option<JsonView>;

/// Calls `serde_json::from_slice` for a `serde_json::Value`, whose result depends on the bytes
/// alone, and converts the value. The contract does not say what the value of given bytes is.
#[verifier::external_body]
fn from_slice(text: &[u8]) -> (r: Result<Json, serde_json::Error>)
    ensures
        match r {
            Ok(j) => parsed(text@) == Some(j@),
            Err(_) => parsed(text@) is None,
        },
{
    serde_json::from_slice::<serde_json::Value>(text).map(from_value)
}

/// Converts a `serde_json::Value`, variant by variant. A number is a natural number, a negative
/// whole number, or a double with its text. Nothing is stated of the result: [`from_slice`] says
/// what it is.
#[verifier::external_body]
fn from_value(value: serde_json::Value) -> Json {
    match value {
        serde_json::Value::Null => Json::Null,
        serde_json::Value::Bool(b) => Json::Bool(b),
        serde_json::Value::Number(n) => match (n.as_u64(), n.as_i64()) {
            (Some(u), _) => Json::PosInt(u),
            (None, Some(i)) => Json::NegInt(i),
            (None, None) => Json::Float(n.to_string()),
        },
        serde_json::Value::String(s) => Json::Str(s),
        serde_json::Value::Array(a) => Json::Array(a.into_iter().map(from_value).collect()),
        serde_json::Value::Object(m) => Json::Object(
            m.into_iter().map(|x| (x.0, from_value(x.1))).collect(),
        ),
    }
}

/// The value of an optional JSON value.
pub open spec fn opt_view(j: Option<Json>) -> Option<JsonView> {
    match j {
        Some(v) => Some(v@),
        None => None,
    }
}

/// The JSON value that bytes are, if they are one.
pub fn parse(text: &[u8]) -> (r: Option<Json>)
    ensures
        opt_view(r) == parsed(text@),
{
    match from_slice(text) {
        Ok(j) => Some(j),
        Err(_) => None,
    }
}

} // verus!
