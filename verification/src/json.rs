//! The JSON values that schemas are written in and that are validated.
//!
//! [`Json`] is the executable value; [`JsonValue`] is its mathematical model,
//! in which every contract of the library is stated.

use vstd::prelude::*;

verus! {

broadcast use {vstd::seq::group_seq_axioms, vstd::std_specs::vec::group_vec_axioms};

/// A JSON number, held by what the library reads of it.
///
/// `order` places the number among all numbers: of two numbers the smaller has
/// the smaller `order`. It is the key by which the total order of double
/// precision numbers compares them, so that zero has the order 0. `integer` is
/// the number itself where it is a whole number.
#[derive(Clone, Copy, Debug, PartialEq, Eq)]
pub struct Number {
    pub order: i64,
    pub integer: Option<i128>,
}

/// A JSON value. The members of an object keep the order of the document.
#[derive(Debug, PartialEq, Eq)]
pub enum Json {
    Null,
    Bool(bool),
    Number(Number),
    String(String),
    Array(Vec<Json>),
    Object(Vec<Member>),
}

/// One member of a JSON object.
#[derive(Debug, PartialEq, Eq)]
pub struct Member {
    pub key: String,
    pub value: Json,
}

/// The model of a [`Json`] value.
pub enum JsonValue {
    Null,
    Bool(bool),
    Number(Number),
    String(Seq<char>),
    Array(Seq<JsonValue>),
    Object(Seq<MemberValue>),
}

/// The model of a [`Member`].
pub struct MemberValue {
    pub key: Seq<char>,
    pub value: JsonValue,
}

/// The model of a value: the same kind, with the models of its parts.
pub open spec fn model(j: Json) -> JsonValue
    decreases j,
{
    match j {
        Json::Null => JsonValue::Null,
        Json::Bool(b) => JsonValue::Bool(b),
        Json::Number(n) => JsonValue::Number(n),
        Json::String(s) => JsonValue::String(s@),
        Json::Array(items) => JsonValue::Array(
            Seq::new(
                items.len() as nat,
                |i: int|
                    if 0 <= i < items.len() {
                        model(items[i])
                    } else {
                        JsonValue::Null
                    },
            ),
        ),
        Json::Object(members) => JsonValue::Object(
            Seq::new(
                members.len() as nat,
                |i: int|
                    if 0 <= i < members.len() {
                        MemberValue { key: members[i].key@, value: model(members[i].value) }
                    } else {
                        MemberValue { key: Seq::empty(), value: JsonValue::Null }
                    },
            ),
        ),
    }
}

impl View for Json {
    type V = JsonValue;

    open spec fn view(&self) -> JsonValue {
        model(*self)
    }
}

impl View for Member {
    type V = MemberValue;

    open spec fn view(&self) -> MemberValue {
        MemberValue { key: self.key@, value: self.value@ }
    }
}

impl JsonValue {
    /// The value is an object.
    pub open spec fn is_object(self) -> bool {
        self is Object
    }

    /// The value is an array.
    pub open spec fn is_array(self) -> bool {
        self is Array
    }

    /// The value is `true` or `false`.
    pub open spec fn is_bool(self) -> bool {
        self is Bool
    }

    /// The value can hold a schema: it is an object, an array or a boolean.
    pub open spec fn is_container(self) -> bool {
        self is Object || self is Array || self is Bool
    }

    /// The members of an object; none for any other value.
    pub open spec fn members(self) -> Seq<MemberValue> {
        match self {
            JsonValue::Object(m) => m,
            _ => Seq::empty(),
        }
    }

    /// The elements of an array; none for any other value.
    pub open spec fn elements(self) -> Seq<JsonValue> {
        match self {
            JsonValue::Array(a) => a,
            _ => Seq::empty(),
        }
    }

    /// The value of the last member named `key`.
    pub open spec fn get(self, key: Seq<char>) -> Option<JsonValue> {
        lookup(self.members(), key)
    }

    /// The object holds a member named `key`.
    pub open spec fn has(self, key: Seq<char>) -> bool {
        self.get(key) is Some
    }
}

/// A size of a value that no schema below it reaches: every element and every
/// member weighs less than the array or object that holds it, and a boolean
/// weighs more than the object that stands for it as a schema.
pub open spec fn weight(j: JsonValue) -> nat
    decreases j, 1nat, 0nat,
{
    match j {
        JsonValue::Bool(_) => 3,
        JsonValue::Array(a) => 1 + elements_weight(j, a.len()),
        JsonValue::Object(m) => 1 + members_weight(j, m.len()),
        _ => 1,
    }
}

/// The weight of the first `n` elements of the array `j`.
pub open spec fn elements_weight(j: JsonValue, n: nat) -> nat
    decreases j, 0nat, n,
{
    if n == 0 || n > j.elements().len() {
        0
    } else {
        elements_weight(j, (n - 1) as nat) + weight(j.elements()[n - 1])
    }
}

/// The weight of the values of the first `n` members of the object `j`.
pub open spec fn members_weight(j: JsonValue, n: nat) -> nat
    decreases j, 0nat, n,
{
    if n == 0 || n > j.members().len() {
        0
    } else {
        members_weight(j, (n - 1) as nat) + weight(j.members()[n - 1].value)
    }
}

/// A count as far as it can be held: the count itself, or the largest
/// `usize` where it is larger.
pub open spec fn capped(n: nat) -> nat {
    if n <= usize::MAX {
        n
    } else {
        usize::MAX as nat
    }
}

/// The sum of two counts as far as it can be held.
pub fn capped_sum(a: usize, b: usize) -> (r: usize)
    ensures
        r == capped((a + b) as nat),
{
    if a > usize::MAX - b {
        usize::MAX
    } else {
        a + b
    }
}

/// An element weighs less than its array.
pub proof fn lemma_element_weight(j: JsonValue, i: int)
    requires
        0 <= i < j.elements().len(),
    ensures
        weight(j.elements()[i]) < weight(j),
{
    lemma_elements_weight(j, j.elements().len(), i);
}

proof fn lemma_elements_weight(j: JsonValue, n: nat, i: int)
    requires
        0 <= i < n <= j.elements().len(),
    ensures
        weight(j.elements()[i]) <= elements_weight(j, n),
    decreases n,
{
    if i < n - 1 {
        lemma_elements_weight(j, (n - 1) as nat, i);
    }
}

/// The value of a member weighs less than its object.
pub proof fn lemma_member_weight(j: JsonValue, i: int)
    requires
        0 <= i < j.members().len(),
    ensures
        weight(j.members()[i].value) < weight(j),
{
    lemma_members_weight(j, j.members().len(), i);
}

proof fn lemma_members_weight(j: JsonValue, n: nat, i: int)
    requires
        0 <= i < n <= j.members().len(),
    ensures
        weight(j.members()[i].value) <= members_weight(j, n),
    decreases n,
{
    if i < n - 1 {
        lemma_members_weight(j, (n - 1) as nat, i);
    }
}

/// The place of the last of `members` named `key`, or -1 where none is. Of
/// two members with one name the later counts, as in a map that is filled in
/// the order of the document.
pub open spec fn last_index(members: Seq<MemberValue>, key: Seq<char>) -> int
    decreases members.len(),
{
    if members.len() == 0 {
        -1
    } else if members.last().key == key {
        members.len() - 1
    } else {
        last_index(members.drop_last(), key)
    }
}

/// The value of the last of `members` named `key`.
pub open spec fn lookup(members: Seq<MemberValue>, key: Seq<char>) -> Option<JsonValue> {
    let i = last_index(members, key);
    if 0 <= i < members.len() {
        Some(members[i].value)
    } else {
        None
    }
}

/// `last_index` is the place of a member with the name, and no member behind
/// it has the name.
pub proof fn lemma_last_index(members: Seq<MemberValue>, key: Seq<char>)
    ensures
        -1 <= last_index(members, key) < members.len(),
        last_index(members, key) >= 0 ==> members[last_index(members, key)].key == key,
        forall|j: int| last_index(members, key) < j < members.len() ==> members[j].key != key,
    decreases members.len(),
{
    if members.len() > 0 && members.last().key != key {
        let rest = members.drop_last();
        lemma_last_index(rest, key);
        assert forall|j: int| last_index(members, key) < j < members.len() implies members[j].key
            != key by {
            if j < rest.len() {
                assert(rest[j] == members[j]);
            }
        }
        if last_index(rest, key) >= 0 {
            assert(rest[last_index(rest, key)] == members[last_index(rest, key)]);
        }
    }
}

/// Whether the member at `i` of the object `a` is matched in the object `b`:
/// `b` has a member of that name, and what counts under the name in `a` is
/// the same value as what counts under it in `b`.
pub open spec fn member_agrees(a: JsonValue, b: JsonValue, i: int) -> bool
    decreases a, 0nat, 0nat,
{
    if 0 <= i < a.members().len() {
        let key = a.members()[i].key;
        let p = last_index(a.members(), key);
        let q = last_index(b.members(), key);
        0 <= p < a.members().len() && 0 <= q < b.members().len() && json_equal(
            a.members()[p].value,
            b.members()[q].value,
        )
    } else {
        false
    }
}

/// Whether the first `n` elements of the array `a` are the same values as
/// the elements of the array `b` at their places.
pub open spec fn elements_agree(a: JsonValue, b: JsonValue, n: nat) -> bool
    decreases a, 1nat, n,
{
    if n == 0 {
        true
    } else if n > a.elements().len() || n > b.elements().len() {
        false
    } else {
        elements_agree(a, b, (n - 1) as nat) && json_equal(a.elements()[n - 1], b.elements()[n - 1])
    }
}

/// Whether each of the first `n` members of the object `a` is matched in the
/// object `b`.
pub open spec fn members_agree(a: JsonValue, b: JsonValue, n: nat) -> bool
    decreases a, 1nat, n,
{
    if n == 0 {
        true
    } else {
        members_agree(a, b, (n - 1) as nat) && member_agrees(a, b, n - 1)
    }
}

/// Whether the object `a` has a member for the name of each member of the
/// object `b`.
pub open spec fn names_known(a: JsonValue, b: JsonValue) -> bool {
    forall|j: int|
        0 <= j < b.members().len() ==> last_index(a.members(), (#[trigger] b.members()[j]).key)
            >= 0
}

/// Whether two values are the same JSON value: of the same kind, with the
/// same content. Arrays are the same where they are as long and their
/// elements are the same, place by place. Objects are the same where they
/// have the same names and the same value under each name, in whatever order
/// their members stand.
pub open spec fn json_equal(a: JsonValue, b: JsonValue) -> bool
    decreases a, 2nat, 0nat,
{
    match (a, b) {
        (JsonValue::Null, JsonValue::Null) => true,
        (JsonValue::Bool(x), JsonValue::Bool(y)) => x == y,
        (JsonValue::Number(x), JsonValue::Number(y)) => x == y,
        (JsonValue::String(x), JsonValue::String(y)) => x == y,
        (JsonValue::Array(x), JsonValue::Array(y)) => x.len() == y.len() && elements_agree(
            a,
            b,
            x.len(),
        ),
        (JsonValue::Object(x), JsonValue::Object(_)) => members_agree(a, b, x.len())
            && names_known(a, b),
        _ => false,
    }
}

/// A name that a member bears is found at that member or behind it.
pub proof fn lemma_last_index_of_a_member(members: Seq<MemberValue>, i: int)
    requires
        0 <= i < members.len(),
    ensures
        i <= last_index(members, members[i].key) < members.len(),
    decreases members.len(),
{
    if members.last().key != members[i].key {
        let rest = members.drop_last();
        assert(rest[i] == members[i]);
        lemma_last_index_of_a_member(rest, i);
    }
}

proof fn lemma_elements_agree_with_themselves(a: JsonValue, n: nat)
    requires
        n <= a.elements().len(),
    ensures
        elements_agree(a, a, n),
    decreases a, 0nat, n,
{
    if n > 0 {
        lemma_elements_agree_with_themselves(a, (n - 1) as nat);
        law_same_as_itself(a.elements()[n - 1]);
    }
}

proof fn lemma_members_agree_with_themselves(a: JsonValue, n: nat)
    requires
        n <= a.members().len(),
    ensures
        members_agree(a, a, n),
    decreases a, 0nat, n,
{
    if n > 0 {
        lemma_members_agree_with_themselves(a, (n - 1) as nat);
        lemma_last_index_of_a_member(a.members(), n - 1);
        let p = last_index(a.members(), a.members()[n - 1].key);
        law_same_as_itself(a.members()[p].value);
        assert(member_agrees(a, a, n - 1));
    }
}

/// Every value is the same JSON value as itself.
pub proof fn law_same_as_itself(a: JsonValue)
    ensures
        json_equal(a, a),
    decreases a, 1nat, 0nat,
{
    match a {
        JsonValue::Array(x) => {
            lemma_elements_agree_with_themselves(a, x.len());
        },
        JsonValue::Object(x) => {
            lemma_members_agree_with_themselves(a, x.len());
            assert forall|j: int| 0 <= j < a.members().len() implies last_index(
                a.members(),
                (#[trigger] a.members()[j]).key,
            ) >= 0 by {
                lemma_last_index_of_a_member(a.members(), j);
            }
        },
        _ => {},
    }
}

/// Where the first `n` members are not all matched, more of them are not
/// either.
pub proof fn lemma_members_disagree(a: JsonValue, b: JsonValue, n: nat, m: nat)
    requires
        n <= m,
        !members_agree(a, b, n),
    ensures
        !members_agree(a, b, m),
    decreases m,
{
    if n < m {
        lemma_members_disagree(a, b, n, (m - 1) as nat);
    }
}

/// Where the first `n` elements are not all the same, more of them are not
/// either.
pub proof fn lemma_elements_disagree(a: JsonValue, b: JsonValue, n: nat, m: nat)
    requires
        n <= m,
        !elements_agree(a, b, n),
    ensures
        !elements_agree(a, b, m),
    decreases m,
{
    if n < m {
        lemma_elements_disagree(a, b, n, (m - 1) as nat);
    }
}

impl Number {
    /// The number where it is a whole number from 0 to `u64::MAX`.
    pub open spec fn count_spec(self) -> Option<u64> {
        match self.integer {
            Some(n) => if 0 <= n <= u64::MAX {
                Some(n as u64)
            } else {
                None
            },
            None => None,
        }
    }

    /// The number where it is a whole number from 0 to `u64::MAX`.
    pub fn count(&self) -> (r: Option<u64>)
        ensures
            r == self.count_spec(),
    {
        match self.integer {
            Some(n) => if 0 <= n && n <= 18446744073709551615 {
                Some(n as u64)
            } else {
                None
            },
            None => None,
        }
    }

    /// Whether two numbers are the same number.
    pub fn same(&self, other: &Number) -> (r: bool)
        ensures
            r == (*self == *other),
    {
        let integers = match (self.integer, other.integer) {
            (Some(a), Some(b)) => a == b,
            (None, None) => true,
            _ => false,
        };
        self.order == other.order && integers
    }
}

impl Json {
    /// The weight of the value, as far as it can be held.
    pub fn weight(&self) -> (r: usize)
        ensures
            r == capped(weight(self@)),
        decreases self,
    {
        match self {
            Json::Bool(_) => 3,
            Json::Array(items) => {
                let ghost all = self@.elements();
                let mut total: usize = 0;
                let mut i: usize = 0;
                while i < items.len()
                    invariant
                        i <= items.len(),
                        *self == Json::Array(*items),
                        all == self@.elements(),
                        all.len() == items.len(),
                        total == capped(elements_weight(self@, i as nat)),
                    decreases items.len() - i,
                {
                    assert(all[i as int] == items[i as int]@);
                    let part = items[i].weight();
                    total = capped_sum(total, part);
                    i = i + 1;
                }
                capped_sum(total, 1)
            },
            Json::Object(members) => {
                let ghost all = self@.members();
                let mut total: usize = 0;
                let mut i: usize = 0;
                while i < members.len()
                    invariant
                        i <= members.len(),
                        *self == Json::Object(*members),
                        all == self@.members(),
                        all.len() == members.len(),
                        total == capped(members_weight(self@, i as nat)),
                    decreases members.len() - i,
                {
                    assert(all[i as int] == members[i as int]@);
                    let part = members[i].value.weight();
                    total = capped_sum(total, part);
                    i = i + 1;
                }
                capped_sum(total, 1)
            },
            _ => 1,
        }
    }

    /// The empty object, which as a schema accepts every value.
    pub fn empty_object() -> (r: Json)
        ensures
            r@ == JsonValue::Object(Seq::empty()),
    {
        let r = Json::Object(Vec::new());
        assert(r@.members() =~= Seq::empty());
        r
    }

    /// Whether the value is `null`.
    pub fn is_null(&self) -> (r: bool)
        ensures
            r == (self@ is Null),
    {
        match self {
            Json::Null => true,
            _ => false,
        }
    }

    /// Whether the value is an object.
    pub fn is_object(&self) -> (r: bool)
        ensures
            r == self@.is_object(),
    {
        match self {
            Json::Object(_) => true,
            _ => false,
        }
    }

    /// Whether the value is an array.
    pub fn is_array(&self) -> (r: bool)
        ensures
            r == self@.is_array(),
    {
        match self {
            Json::Array(_) => true,
            _ => false,
        }
    }

    /// Whether the value is `true` or `false`.
    pub fn is_bool(&self) -> (r: bool)
        ensures
            r == self@.is_bool(),
    {
        match self {
            Json::Bool(_) => true,
            _ => false,
        }
    }

    /// Whether the value is a string.
    pub fn is_str(&self) -> (r: bool)
        ensures
            r == (self@ is String),
    {
        match self {
            Json::String(_) => true,
            _ => false,
        }
    }

    /// The value is an object, an array or a boolean.
    pub fn is_container(&self) -> (r: bool)
        ensures
            r == self@.is_container(),
    {
        self.is_object() || self.is_array() || self.is_bool()
    }

    /// The boolean, where the value is one.
    pub fn as_bool(&self) -> (r: Option<bool>)
        ensures
            r == (match self@ {
                JsonValue::Bool(b) => Some(b),
                _ => None,
            }),
    {
        match self {
            Json::Bool(b) => Some(*b),
            _ => None,
        }
    }

    /// The text, where the value is a string.
    pub fn as_str(&self) -> (r: Option<&str>)
        ensures
            self@ is String <==> r is Some,
            r matches Some(s) ==> self@ == JsonValue::String(s@),
    {
        match self {
            Json::String(s) => Some(s.as_str()),
            _ => None,
        }
    }

    /// The number, where the value is one.
    pub fn as_number(&self) -> (r: Option<Number>)
        ensures
            r == (match self@ {
                JsonValue::Number(n) => Some(n),
                _ => None,
            }),
    {
        match self {
            Json::Number(n) => Some(*n),
            _ => None,
        }
    }

    /// The number where the value is a whole number from 0 to `u64::MAX`.
    pub fn as_u64(&self) -> (r: Option<u64>)
        ensures
            r == (match self@ {
                JsonValue::Number(n) => n.count_spec(),
                _ => None,
            }),
    {
        match self {
            Json::Number(n) => n.count(),
            _ => None,
        }
    }

    /// The elements, where the value is an array.
    pub fn as_array(&self) -> (r: Option<&Vec<Json>>)
        ensures
            self@ is Array <==> r is Some,
            r matches Some(items) ==> {
                &&& *self == Json::Array(*items)
                &&& self@.elements().len() == items.len()
                &&& forall|i: int| 0 <= i < items.len() ==> self@.elements()[i] == items[i]@
            },
    {
        match self {
            Json::Array(items) => Some(items),
            _ => None,
        }
    }

    /// The members, where the value is an object.
    pub fn as_object(&self) -> (r: Option<&Vec<Member>>)
        ensures
            self@ is Object <==> r is Some,
            r matches Some(members) ==> {
                &&& *self == Json::Object(*members)
                &&& self@.members().len() == members.len()
                &&& forall|i: int| 0 <= i < members.len() ==> self@.members()[i] == members[i]@
            },
    {
        match self {
            Json::Object(members) => Some(members),
            _ => None,
        }
    }

    /// The place of the last member named `key`, where `self` is an object
    /// that has one.
    pub fn index_of(&self, key: &str) -> (r: Option<usize>)
        ensures
            r is Some <==> last_index(self@.members(), key@) >= 0,
            r matches Some(i) ==> i == last_index(self@.members(), key@) && i
                < self@.members().len(),
    {
        match self {
            Json::Object(members) => {
                let ghost all = self@.members();
                let mut i: usize = members.len();
                assert(all.take(i as int) == all);
                while i > 0
                    invariant
                        i <= members.len(),
                        *self == Json::Object(*members),
                        all == self@.members(),
                        last_index(all, key@) == last_index(all.take(i as int), key@),
                    decreases i,
                {
                    i = i - 1;
                    proof {
                        let upto = all.take(i + 1);
                        assert(upto.drop_last() == all.take(i as int));
                        assert(upto.last() == members[i as int]@);
                    }
                    if crate::text::str_eq(members[i].key.as_str(), key) {
                        return Some(i);
                    }
                }
                None
            },
            _ => None,
        }
    }

    /// The value of the last member named `key`, where `self` is an object
    /// that has one.
    pub fn get(&self, key: &str) -> (r: Option<&Json>)
        ensures
            r is Some <==> self@.has(key@),
            r matches Some(v) ==> self@.get(key@) == Some(v@),
    {
        match self {
            Json::Object(members) => {
                match self.index_of(key) {
                    Some(i) => {
                        assert(self@.members()[i as int] == members[i as int]@);
                        Some(&members[i].value)
                    },
                    None => None,
                }
            },
            _ => None,
        }
    }

    /// Whether two values are the same JSON value: the same kind and the same
    /// content, whatever the order in which the members of an object stand.
    #[verifier::loop_isolation(false)]
    pub fn same(&self, other: &Json) -> (r: bool)
        ensures
            r == json_equal(self@, other@),
        decreases self,
    {
        match (self, other) {
            (Json::Null, Json::Null) => true,
            (Json::Bool(a), Json::Bool(b)) => *a == *b,
            (Json::Number(a), Json::Number(b)) => a.same(b),
            (Json::String(a), Json::String(b)) => crate::text::str_eq(a.as_str(), b.as_str()),
            (Json::Array(a), Json::Array(b)) => {
                if a.len() != b.len() {
                    assert(self@.elements().len() != other@.elements().len());
                    return false;
                }
                let ghost x = self@.elements();
                let ghost y = other@.elements();
                let mut i: usize = 0;
                while i < a.len()
                    invariant
                        i <= a.len(),
                        a.len() == b.len(),
                        *self == Json::Array(*a),
                        self matches Json::Array(v) && v == a,
                        *other == Json::Array(*b),
                        x == self@.elements(),
                        y == other@.elements(),
                        x.len() == a.len(),
                        y.len() == b.len(),
                        elements_agree(self@, other@, i as nat),
                    decreases a.len() - i,
                {
                    assert(x[i as int] == a[i as int]@);
                    assert(y[i as int] == b[i as int]@);
                    if !a[i].same(&b[i]) {
                        proof {
                            lemma_elements_disagree(self@, other@, (i + 1) as nat, x.len());
                        }
                        return false;
                    }
                    i = i + 1;
                }
                true
            },
            (Json::Object(a), Json::Object(b)) => {
                let ghost x = self@.members();
                let ghost y = other@.members();
                let mut i: usize = 0;
                while i < a.len()
                    invariant
                        i <= a.len(),
                        *self == Json::Object(*a),
                        self matches Json::Object(v) && v == a,
                        *other == Json::Object(*b),
                        x == self@.members(),
                        y == other@.members(),
                        x.len() == a.len(),
                        y.len() == b.len(),
                        members_agree(self@, other@, i as nat),
                    decreases a.len() - i,
                {
                    assert(x[i as int] == a[i as int]@);
                    let key = a[i].key.as_str();
                    let p = match self.index_of(key) {
                        Some(p) => p,
                        None => {
                            proof {
                                assert(last_index(x, x[i as int].key) < 0);
                                assert(!member_agrees(self@, other@, i as int));
                                lemma_members_disagree(self@, other@, (i + 1) as nat, x.len());
                            }
                            return false;
                        },
                    };
                    let q = match other.index_of(key) {
                        Some(q) => q,
                        None => {
                            proof {
                                assert(last_index(y, x[i as int].key) < 0);
                                assert(!member_agrees(self@, other@, i as int));
                                lemma_members_disagree(self@, other@, (i + 1) as nat, x.len());
                            }
                            return false;
                        },
                    };
                    assert(x[p as int] == a[p as int]@);
                    assert(y[q as int] == b[q as int]@);
                    assert(p == last_index(x, x[i as int].key));
                    assert(q == last_index(y, x[i as int].key));
                    if !a[p].value.same(&b[q].value) {
                        proof {
                            assert(!json_equal(x[p as int].value, y[q as int].value));
                            assert(!member_agrees(self@, other@, i as int));
                            lemma_members_disagree(self@, other@, (i + 1) as nat, x.len());
                        }
                        return false;
                    }
                    assert(json_equal(x[p as int].value, y[q as int].value));
                    assert(member_agrees(self@, other@, i as int));
                    i = i + 1;
                }
                let mut j: usize = 0;
                while j < b.len()
                    invariant
                        j <= b.len(),
                        *other == Json::Object(*b),
                        x == self@.members(),
                        y == other@.members(),
                        y.len() == b.len(),
                        self@ is Object,
                        members_agree(self@, other@, x.len()),
                        forall|k: int| 0 <= k < j ==> last_index(x, (#[trigger] y[k]).key) >= 0,
                    decreases b.len() - j,
                {
                    assert(y[j as int] == b[j as int]@);
                    if self.index_of(b[j].key.as_str()).is_none() {
                        assert(!(last_index(x, y[j as int].key) >= 0));
                        assert(!names_known(self@, other@));
                        return false;
                    }
                    j = j + 1;
                }
                true
            },
            _ => false,
        }
    }
}

impl Clone for Member {
    /// A copy with the same model.
    fn clone(&self) -> (r: Member)
        ensures
            r@ == self@,
    {
        Member { key: self.key.clone(), value: self.value.clone() }
    }
}

impl Clone for Json {
    /// A copy with the same model.
    fn clone(&self) -> (r: Json)
        ensures
            r@ == self@,
        decreases self,
    {
        match self {
            Json::Null => Json::Null,
            Json::Bool(b) => Json::Bool(*b),
            Json::Number(n) => Json::Number(*n),
            Json::String(s) => Json::String(s.clone()),
            Json::Array(items) => {
                let mut out: Vec<Json> = Vec::new();
                let mut i: usize = 0;
                while i < items.len()
                    invariant
                        i <= items.len(),
                        out.len() == i,
                        *self == Json::Array(*items),
                        self matches Json::Array(v) && v == items,
                        forall|j: int| 0 <= j < i ==> out[j]@ == items[j]@,
                    decreases items.len() - i,
                {
                    out.push(items[i].clone());
                    i = i + 1;
                }
                let r = Json::Array(out);
                assert(r@.elements() =~= self@.elements());
                r
            },
            Json::Object(members) => {
                let mut out: Vec<Member> = Vec::new();
                let mut i: usize = 0;
                while i < members.len()
                    invariant
                        i <= members.len(),
                        out.len() == i,
                        *self == Json::Object(*members),
                        self matches Json::Object(v) && v == members,
                        forall|j: int| 0 <= j < i ==> out[j]@ == members[j]@,
                    decreases members.len() - i,
                {
                    out.push(Member { key: members[i].key.clone(), value: members[i].value.clone() });
                    i = i + 1;
                }
                let r = Json::Object(out);
                assert(r@.members() =~= self@.members());
                r
            },
        }
    }
}

} // verus!
