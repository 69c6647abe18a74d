//! JSON values as the library reads and builds them.
//!
//! A number is kept as its JSON text (so that no value is ever turned into a
//! float); an object is its list of members in order, a lookup finding the
//! first member with the key.
use vstd::prelude::*;

use crate::text::{push_char, push_str, str_eq, to_owned};

verus! {

/// A JSON value.
#[derive(Debug)]
pub enum Json {
    Null,
    Bool(bool),
    /// The number's JSON text, e.g. `42`, `-1`, `0.5`, `1e3`.
    Number(String),
    Str(String),
    Array(Vec<Json>),
    Object(Vec<(String, Json)>),
    /// JSON text known to be valid, kept as written (it is only ever passed on).
    Raw(String),
}

/// The mathematical value of a `Json`.
pub enum JsonV {
    Null,
    Bool(bool),
    Number(Seq<char>),
    Str(Seq<char>),
    Array(Seq<JsonV>),
    Object(Seq<(Seq<char>, JsonV)>),
    Raw(Seq<char>),
}

pub open spec fn json_view(j: Json) -> JsonV
    decreases j,
{
    match j {
        Json::Null => JsonV::Null,
        Json::Bool(b) => JsonV::Bool(b),
        Json::Number(n) => JsonV::Number(n@),
        Json::Str(s) => JsonV::Str(s@),
        Json::Array(v) => JsonV::Array(
            Seq::new(
                v@.len(),
                |i: int|
                    if 0 <= i < v@.len() {
                        json_view(v@[i])
                    } else {
                        JsonV::Null
                    },
            ),
        ),
        Json::Object(v) => JsonV::Object(
            Seq::new(
                v@.len(),
                |i: int|
                    if 0 <= i < v@.len() {
                        (v@[i].0@, json_view(v@[i].1))
                    } else {
                        (Seq::empty(), JsonV::Null)
                    },
            ),
        ),
        Json::Raw(t) => JsonV::Raw(t@),
    }
}

/// The members of an object, each taken by its view.
pub open spec fn pairs_view(v: Seq<(String, Json)>) -> Seq<(Seq<char>, JsonV)> {
    Seq::new(v.len(), |i: int| (v[i].0@, json_view(v[i].1)))
}

/// The elements of an array, each taken by its view.
pub open spec fn items_view(v: Seq<Json>) -> Seq<JsonV> {
    Seq::new(v.len(), |i: int| json_view(v[i]))
}

impl View for Json {
    type V = JsonV;

    open spec fn view(&self) -> JsonV {
        json_view(*self)
    }
}


// ──────── reading values ────────

/// The value of the first member named `k`.
pub open spec fn pairs_get(ps: Seq<(Seq<char>, JsonV)>, k: Seq<char>) -> Option<JsonV>
    decreases ps.len(),
{
    if ps.len() == 0 {
        None
    } else if ps[0].0 == k {
        Some(ps[0].1)
    } else {
        pairs_get(ps.drop_first(), k)
    }
}

/// Strict order of keys: lexicographic by code point, the order of `str`.
pub open spec fn key_lt(a: Seq<char>, b: Seq<char>) -> bool
    decreases a.len(),
{
    if b.len() == 0 {
        false
    } else if a.len() == 0 {
        true
    } else if a[0] != b[0] {
        a[0] < b[0]
    } else {
        key_lt(a.drop_first(), b.drop_first())
    }
}

/// The members after setting `k` to `v`: the member named `k` gets the new
/// value; otherwise the member goes before the first member with a greater
/// key, so that members in key order stay in key order.
pub open spec fn pairs_set(ps: Seq<(Seq<char>, JsonV)>, k: Seq<char>, v: JsonV) -> Seq<
    (Seq<char>, JsonV),
>
    decreases ps.len(),
{
    if ps.len() == 0 {
        seq![(k, v)]
    } else if ps[0].0 == k {
        ps.update(0, (k, v))
    } else if key_lt(k, ps[0].0) {
        seq![(k, v)] + ps
    } else {
        seq![ps[0]] + pairs_set(ps.drop_first(), k, v)
    }
}

/// Members in strictly increasing key order (so no key occurs twice).
pub open spec fn keys_sorted(ps: Seq<(Seq<char>, JsonV)>) -> bool {
    forall|i: int, j: int| 0 <= i < j < ps.len() ==> key_lt(#[trigger] ps[i].0, #[trigger] ps[j].0)
}

/// Whether every character is an ASCII digit (and there is at least one).
pub open spec fn all_digits(t: Seq<char>) -> bool {
    t.len() > 0 && forall|i: int| 0 <= i < t.len() ==> '0' <= #[trigger] t[i] && t[i] <= '9'
}

/// The value of a string of decimal digits.
pub open spec fn digits_value(t: Seq<char>) -> nat
    decreases t.len(),
{
    if t.len() == 0 {
        0
    } else {
        digits_value(t.drop_last()) * 10 + ((t.last() as u32) - 48) as nat
    }
}

impl JsonV {
    /// The member `k` of an object.
    pub open spec fn get(self, k: Seq<char>) -> Option<JsonV> {
        match self {
            JsonV::Object(ps) => pairs_get(ps, k),
            _ => None,
        }
    }

    /// Element `i` of an array.
    pub open spec fn at(self, i: int) -> Option<JsonV> {
        match self {
            JsonV::Array(items) => if 0 <= i < items.len() {
                Some(items[i])
            } else {
                None
            },
            _ => None,
        }
    }

    pub open spec fn as_str(self) -> Option<Seq<char>> {
        match self {
            JsonV::Str(s) => Some(s),
            _ => None,
        }
    }

    pub open spec fn as_bool(self) -> Option<bool> {
        match self {
            JsonV::Bool(b) => Some(b),
            _ => None,
        }
    }

    pub open spec fn as_array(self) -> Option<Seq<JsonV>> {
        match self {
            JsonV::Array(items) => Some(items),
            _ => None,
        }
    }

    /// A number that is a non-negative integer fitting in `u64`.
    pub open spec fn as_u64(self) -> Option<u64> {
        match self {
            JsonV::Number(t) => if all_digits(t) && digits_value(t) <= u64::MAX {
                Some(digits_value(t) as u64)
            } else {
                None
            },
            _ => None,
        }
    }

    /// A number that is an integer fitting in `i64`.
    pub open spec fn as_i64(self) -> Option<i64> {
        match self {
            JsonV::Number(t) => if all_digits(t) && digits_value(t) <= i64::MAX {
                Some(digits_value(t) as i64)
            } else if t.len() > 1 && t[0] == '-' && all_digits(t.drop_first()) && digits_value(
                t.drop_first(),
            ) <= 0x8000_0000_0000_0000 {
                Some((0 - digits_value(t.drop_first())) as i64)
            } else {
                None
            },
            _ => None,
        }
    }

    /// The step `/0` of a JSON pointer: element 0 of an array, member `"0"` of
    /// an object.
    pub open spec fn first(self) -> Option<JsonV> {
        match self {
            JsonV::Array(items) => if items.len() > 0 {
                Some(items[0])
            } else {
                None
            },
            JsonV::Object(ps) => pairs_get(ps, seq!['0']),
            _ => None,
        }
    }

    /// The string member `k`, if it is a string.
    pub open spec fn get_str(self, k: Seq<char>) -> Option<Seq<char>> {
        opt_str(self.get(k))
    }

    /// The string member `k`, or `d` where it is missing or not a string.
    pub open spec fn str_or(self, k: Seq<char>, d: Seq<char>) -> Seq<char> {
        match self.get_str(k) {
            Some(s) => s,
            None => d,
        }
    }

    /// Whether the value is a string.
    pub open spec fn is_str(self) -> bool {
        self is Str
    }

    /// The value after `self[k] = v`: an object gets the member set, `null`
    /// becomes an object with that one member.
    pub open spec fn set(self, k: Seq<char>, v: JsonV) -> JsonV {
        match self {
            JsonV::Object(ps) => JsonV::Object(pairs_set(ps, k, v)),
            _ => JsonV::Object(seq![(k, v)]),
        }
    }
}

/// Member `k` of an optional value.
pub open spec fn opt_get(o: Option<JsonV>, k: Seq<char>) -> Option<JsonV> {
    match o {
        Some(v) => v.get(k),
        None => None,
    }
}

/// A string of an optional value.
pub open spec fn opt_str(o: Option<JsonV>) -> Option<Seq<char>> {
    match o {
        Some(v) => v.as_str(),
        None => None,
    }
}

/// An unsigned integer of an optional value.
pub open spec fn opt_u64(o: Option<JsonV>) -> Option<u64> {
    match o {
        Some(v) => v.as_u64(),
        None => None,
    }
}

/// A boolean of an optional value.
pub open spec fn opt_bool(o: Option<JsonV>) -> Option<bool> {
    match o {
        Some(v) => v.as_bool(),
        None => None,
    }
}

/// A member that may be missing, as it stands in a built object: missing
/// members become `null`.
pub open spec fn or_null(o: Option<JsonV>) -> JsonV {
    match o {
        Some(v) => v,
        None => JsonV::Null,
    }
}

/// Decimal text of a signed integer.
pub open spec fn i64_text(n: i64) -> Seq<char> {
    if n < 0 {
        seq!['-'] + crate::text::decimal((0 - n) as nat)
    } else {
        crate::text::decimal(n as nat)
    }
}

/// The decimal text of a signed integer.
pub fn i64_to_text(n: i64) -> (r: String)
    ensures
        r@ == i64_text(n),
{
    if n < 0 {
        let m: u64 = (0i128 - (n as i128)) as u64;
        let mut t = to_owned("-");
        push_str(&mut t, crate::text::u64_to_text(m).as_str());
        proof {
            reveal_strlit("-");
            assert(t@ =~= seq!['-'] + crate::text::decimal((0 - n) as nat));
        }
        t
    } else {
        crate::text::u64_to_text(n as u64)
    }
}

/// An empty object.
pub open spec fn empty_obj() -> JsonV {
    JsonV::Object(Seq::empty())
}

/// The view of an optional string slice.
pub open spec fn str_ref_view(o: Option<&str>) -> Option<Seq<char>> {
    match o {
        Some(s) => Some(s@),
        None => None,
    }
}

/// An optional value as a sequence of zero or one values.
pub open spec fn opt_seq(o: Option<JsonV>) -> Seq<JsonV> {
    match o {
        Some(v) => seq![v],
        None => Seq::empty(),
    }
}

/// The views of optional values.
pub open spec fn opt_json_view(o: Option<Json>) -> Option<JsonV> {
    match o {
        Some(j) => Some(j@),
        None => None,
    }
}

/// `set` where there is a value to set.
pub open spec fn set_opt(v: JsonV, k: Seq<char>, o: Option<JsonV>) -> JsonV {
    match o {
        Some(x) => v.set(k, x),
        None => v,
    }
}

/// The value of a reference, if any.
pub open spec fn ref_view(o: Option<&Json>) -> Option<JsonV> {
    match o {
        Some(j) => Some(j@),
        None => None,
    }
}

proof fn lemma_pairs_get_found(ps: Seq<(Seq<char>, JsonV)>, k: Seq<char>, i: int)
    requires
        0 <= i < ps.len(),
        ps[i].0 == k,
        forall|j: int| 0 <= j < i ==> ps[j].0 != k,
    ensures
        pairs_get(ps, k) == Some(ps[i].1),
    decreases i,
{
    if i > 0 {
        let t = ps.drop_first();
        assert forall|j: int| 0 <= j < i - 1 implies t[j].0 != k by {
            assert(t[j] == ps[j + 1]);
        }
        lemma_pairs_get_found(t, k, i - 1);
    }
}

proof fn lemma_pairs_absent(ps: Seq<(Seq<char>, JsonV)>, k: Seq<char>)
    requires
        forall|j: int| 0 <= j < ps.len() ==> ps[j].0 != k,
    ensures
        pairs_get(ps, k) is None,
    decreases ps.len(),
{
    if ps.len() > 0 {
        let t = ps.drop_first();
        assert forall|j: int| 0 <= j < t.len() implies t[j].0 != k by {
            assert(t[j] == ps[j + 1]);
        }
        lemma_pairs_absent(t, k);
    }
}

/// No key is below itself.
proof fn lemma_key_lt_irrefl(a: Seq<char>)
    ensures
        !key_lt(a, a),
    decreases a.len(),
{
    if a.len() > 0 {
        lemma_key_lt_irrefl(a.drop_first());
    }
}

/// Of two keys, at most one is below the other.
proof fn lemma_key_lt_asym(a: Seq<char>, b: Seq<char>)
    ensures
        key_lt(a, b) ==> !key_lt(b, a),
    decreases a.len(),
{
    if a.len() > 0 && b.len() > 0 && a[0] == b[0] {
        lemma_key_lt_asym(a.drop_first(), b.drop_first());
    }
}

/// Of two different keys, one is below the other.
proof fn lemma_key_lt_total(a: Seq<char>, b: Seq<char>)
    ensures
        a != b ==> key_lt(a, b) || key_lt(b, a),
    decreases a.len(),
{
    if a.len() > 0 && b.len() > 0 && a[0] == b[0] {
        lemma_key_lt_total(a.drop_first(), b.drop_first());
        if a.drop_first() == b.drop_first() {
            assert(a =~= seq![a[0]] + a.drop_first());
            assert(b =~= seq![b[0]] + b.drop_first());
        }
    } else if a.len() == 0 && b.len() == 0 {
        assert(a =~= b);
    }
}

/// The key order is transitive.
proof fn lemma_key_lt_trans(a: Seq<char>, b: Seq<char>, c: Seq<char>)
    requires
        key_lt(a, b),
        key_lt(b, c),
    ensures
        key_lt(a, c),
    decreases a.len(),
{
    if a.len() > 0 && a[0] == b[0] && b[0] == c[0] {
        lemma_key_lt_trans(a.drop_first(), b.drop_first(), c.drop_first());
    }
}

/// Where `set` puts the member: after the members below `k`.
proof fn lemma_pairs_set_split(ps: Seq<(Seq<char>, JsonV)>, k: Seq<char>, v: JsonV, i: int)
    requires
        0 <= i <= ps.len(),
        forall|j: int| 0 <= j < i ==> key_lt(#[trigger] ps[j].0, k),
        i < ps.len() ==> !key_lt(ps[i].0, k),
    ensures
        pairs_set(ps, k, v) == (if i < ps.len() && ps[i].0 == k {
            ps.update(i, (k, v))
        } else {
            ps.take(i) + seq![(k, v)] + ps.skip(i)
        }),
    decreases i,
{
    if i == 0 {
        if ps.len() == 0 {
            assert(ps.take(0) + seq![(k, v)] + ps.skip(0) =~= seq![(k, v)]);
        } else if ps[0].0 != k {
            lemma_key_lt_total(k, ps[0].0);
            assert(ps.take(0) + seq![(k, v)] + ps.skip(0) =~= seq![(k, v)] + ps);
        }
    } else {
        let t = ps.drop_first();
        lemma_key_lt_irrefl(k);
        lemma_key_lt_asym(ps[0].0, k);
        assert(key_lt(ps[0].0, k));
        assert forall|j: int| 0 <= j < i - 1 implies key_lt(#[trigger] t[j].0, k) by {
            assert(t[j] == ps[j + 1]);
        }
        lemma_pairs_set_split(t, k, v, i - 1);
        if i < ps.len() && ps[i].0 == k {
            assert(seq![ps[0]] + t.update(i - 1, (k, v)) =~= ps.update(i, (k, v)));
        } else {
            assert(seq![ps[0]] + (t.take(i - 1) + seq![(k, v)] + t.skip(i - 1)) =~= ps.take(i)
                + seq![(k, v)] + ps.skip(i));
        }
    }
}

/// A key below `k` and below every key of `ps` is below every key after the set.
proof fn lemma_pairs_set_lower_bound(ps: Seq<(Seq<char>, JsonV)>, k: Seq<char>, v: JsonV, lo: Seq<char>)
    requires
        key_lt(lo, k),
        forall|j: int| 0 <= j < ps.len() ==> key_lt(lo, #[trigger] ps[j].0),
    ensures
        forall|a: int| 0 <= a < pairs_set(ps, k, v).len() ==> key_lt(lo, #[trigger] pairs_set(ps, k, v)[a].0),
    decreases ps.len(),
{
    let r = pairs_set(ps, k, v);
    if ps.len() > 0 && ps[0].0 != k && !key_lt(k, ps[0].0) {
        let t = ps.drop_first();
        assert forall|j: int| 0 <= j < t.len() implies key_lt(lo, #[trigger] t[j].0) by {
            assert(t[j] == ps[j + 1]);
        }
        lemma_pairs_set_lower_bound(t, k, v, lo);
        assert forall|a: int| 0 <= a < r.len() implies key_lt(lo, #[trigger] r[a].0) by {
            if a > 0 {
                assert(r[a] == pairs_set(t, k, v)[a - 1]);
            }
        }
    } else if ps.len() > 0 && ps[0].0 != k {
        assert forall|a: int| 0 <= a < r.len() implies key_lt(lo, #[trigger] r[a].0) by {
            if a > 0 {
                assert(r[a] == ps[a - 1]);
            }
        }
    }
}

/// Setting a member keeps members that were in key order in key order.
pub proof fn law_set_keeps_keys_sorted(ps: Seq<(Seq<char>, JsonV)>, k: Seq<char>, v: JsonV)
    requires
        keys_sorted(ps),
    ensures
        keys_sorted(pairs_set(ps, k, v)),
    decreases ps.len(),
{
    let r = pairs_set(ps, k, v);
    if ps.len() == 0 {
    } else if ps[0].0 == k {
        assert forall|a: int, b: int| 0 <= a < b < r.len() implies key_lt(
            #[trigger] r[a].0,
            #[trigger] r[b].0,
        ) by {
            assert(r[a].0 == ps[a].0 && r[b].0 == ps[b].0);
        }
    } else if key_lt(k, ps[0].0) {
        assert forall|a: int, b: int| 0 <= a < b < r.len() implies key_lt(
            #[trigger] r[a].0,
            #[trigger] r[b].0,
        ) by {
            assert(r[b] == ps[b - 1]);
            if a == 0 {
                if b - 1 > 0 {
                    assert(key_lt(ps[0].0, ps[b - 1].0));
                    lemma_key_lt_trans(k, ps[0].0, ps[b - 1].0);
                }
            } else {
                assert(r[a] == ps[a - 1]);
            }
        }
    } else {
        let t = ps.drop_first();
        assert forall|a: int, b: int| 0 <= a < b < t.len() implies key_lt(
            #[trigger] t[a].0,
            #[trigger] t[b].0,
        ) by {
            assert(t[a] == ps[a + 1] && t[b] == ps[b + 1]);
        }
        law_set_keeps_keys_sorted(t, k, v);
        lemma_key_lt_total(k, ps[0].0);
        assert forall|j: int| 0 <= j < t.len() implies key_lt(ps[0].0, #[trigger] t[j].0) by {
            assert(t[j] == ps[j + 1]);
        }
        lemma_pairs_set_lower_bound(t, k, v, ps[0].0);
        let rt = pairs_set(t, k, v);
        assert forall|a: int, b: int| 0 <= a < b < r.len() implies key_lt(
            #[trigger] r[a].0,
            #[trigger] r[b].0,
        ) by {
            assert(r[b] == rt[b - 1]);
            if a > 0 {
                assert(r[a] == rt[a - 1]);
            }
        }
    }
}

/// Reading back a member just set gives the value set.
pub proof fn law_set_then_get(o: JsonV, k: Seq<char>, v: JsonV)
    ensures
        o.set(k, v).get(k) == Some(v),
{
    match o {
        JsonV::Object(ps) => {
            lemma_pairs_set_get(ps, k, v);
        },
        _ => {},
    }
}

/// Setting an optional member (where present) leaves the other members of
/// an object readable as before, and the value an object.
pub proof fn lemma_set_opt_keeps(v: JsonV, k: Seq<char>, o: Option<JsonV>, k2: Seq<char>)
    requires
        k2 != k,
        v is Object,
    ensures
        set_opt(v, k, o).get(k2) == v.get(k2),
        set_opt(v, k, o) is Object,
{
    match o {
        Some(x) => law_set_keeps_others(v, k, x, k2),
        None => {},
    }
}

/// Setting a member leaves the other members readable as before.
pub proof fn law_set_keeps_others(o: JsonV, k: Seq<char>, v: JsonV, k2: Seq<char>)
    requires
        k2 != k,
        o is Object,
    ensures
        o.set(k, v).get(k2) == o.get(k2),
{
    match o {
        JsonV::Object(ps) => {
            lemma_pairs_set_other(ps, k, v, k2);
        },
        _ => {},
    }
}

proof fn lemma_pairs_set_get(ps: Seq<(Seq<char>, JsonV)>, k: Seq<char>, v: JsonV)
    ensures
        pairs_get(pairs_set(ps, k, v), k) == Some(v),
    decreases ps.len(),
{
    if ps.len() > 0 && ps[0].0 != k && !key_lt(k, ps[0].0) {
        lemma_pairs_set_get(ps.drop_first(), k, v);
        let r = pairs_set(ps, k, v);
        assert(r.drop_first() =~= pairs_set(ps.drop_first(), k, v));
    }
}

proof fn lemma_pairs_set_other(ps: Seq<(Seq<char>, JsonV)>, k: Seq<char>, v: JsonV, k2: Seq<char>)
    requires
        k2 != k,
    ensures
        pairs_get(pairs_set(ps, k, v), k2) == pairs_get(ps, k2),
    decreases ps.len(),
{
    reveal_with_fuel(pairs_get, 2);
    let r = pairs_set(ps, k, v);
    if ps.len() == 0 {
        assert(r.drop_first() =~= Seq::<(Seq<char>, JsonV)>::empty());
    } else if ps[0].0 == k {
        assert(r.drop_first() =~= ps.drop_first());
    } else if key_lt(k, ps[0].0) {
        assert(r.drop_first() =~= ps);
    } else {
        lemma_pairs_set_other(ps.drop_first(), k, v, k2);
        assert(r.drop_first() =~= pairs_set(ps.drop_first(), k, v));
    }
}

impl Json {
    proof fn lemma_object_view(v: Vec<(String, Json)>)
        ensures
            json_view(Json::Object(v)) == JsonV::Object(pairs_view(v@)),
    {
        match json_view(Json::Object(v)) {
            JsonV::Object(a) => {
                assert(a =~= pairs_view(v@));
            },
            _ => {},
        }
    }

    /// An array's view holds its elements' views.
    pub(crate) proof fn lemma_array_elements(v: Vec<Json>)
        ensures
            json_view(Json::Array(v)) == JsonV::Array(v@.map_values(|j: Json| j@)),
    {
        Self::lemma_array_view(v);
        assert(items_view(v@) =~= v@.map_values(|j: Json| j@));
    }

    proof fn lemma_array_view(v: Vec<Json>)
        ensures
            json_view(Json::Array(v)) == JsonV::Array(items_view(v@)),
    {
        match json_view(Json::Array(v)) {
            JsonV::Array(a) => {
                assert(a =~= items_view(v@));
            },
            _ => {},
        }
    }

    /// The member `key` of an object (`None` for other values).
    pub fn get(&self, key: &str) -> (r: Option<&Json>)
        ensures
            ref_view(r) == self@.get(key@),
    {
        match self {
            Json::Object(ps) => {
                proof {
                    Self::lemma_object_view(*ps);
                }
                match find_key(ps, key) {
                    Some(i) => {
                        proof {
                            lemma_pairs_get_found(pairs_view(ps@), key@, i as int);
                        }
                        Some(&ps[i].1)
                    },
                    None => {
                        proof {
                            lemma_pairs_absent(pairs_view(ps@), key@);
                        }
                        None
                    },
                }
            },
            _ => None,
        }
    }

    /// Element `i` of an array (`None` for other values or out of range).
    pub fn at(&self, i: usize) -> (r: Option<&Json>)
        ensures
            ref_view(r) == self@.at(i as int),
    {
        match self {
            Json::Array(items) => {
                proof {
                    Self::lemma_array_view(*items);
                }
                if i < items.len() {
                    Some(&items[i])
                } else {
                    None
                }
            },
            _ => None,
        }
    }

    /// The string of a string value.
    pub fn as_str(&self) -> (r: Option<&str>)
        ensures
            match r {
                Some(s) => self@.as_str() == Some(s@),
                None => self@.as_str() is None,
            },
    {
        match self {
            Json::Str(s) => Some(s.as_str()),
            _ => None,
        }
    }

    /// The boolean of a boolean value.
    pub fn as_bool(&self) -> (r: Option<bool>)
        ensures
            r == self@.as_bool(),
    {
        match self {
            Json::Bool(b) => Some(*b),
            _ => None,
        }
    }

    /// The elements of an array.
    pub fn as_array(&self) -> (r: Option<&Vec<Json>>)
        ensures
            match r {
                Some(v) => self@.as_array() == Some(v@.map_values(|j: Json| j@)),
                None => self@.as_array() is None,
            },
    {
        match self {
            Json::Array(items) => {
                proof {
                    Self::lemma_array_view(*items);
                    assert(items_view(items@) =~= items@.map_values(
                        |j: Json| j@,
                    ));
                }
                Some(items)
            },
            _ => None,
        }
    }

    /// Whether the value is a string.
    pub fn is_string(&self) -> (r: bool)
        ensures
            r == self@.is_str(),
    {
        match self {
            Json::Str(_) => true,
            _ => false,
        }
    }

    /// Whether the value is `null`.
    pub fn is_null(&self) -> (r: bool)
        ensures
            r == (self@ is Null),
    {
        match self {
            Json::Null => true,
            _ => false,
        }
    }

    /// A number that is a non-negative integer fitting in `u64`.
    pub fn as_u64(&self) -> (r: Option<u64>)
        ensures
            r == self@.as_u64(),
    {
        match self {
            Json::Number(t) => parse_digits(t.as_str()),
            _ => None,
        }
    }

    /// A number that is an integer fitting in `i64`.
    pub fn as_i64(&self) -> (r: Option<i64>)
        ensures
            r == self@.as_i64(),
    {
        match self {
            Json::Number(t) => {
                let s = t.as_str();
                match parse_digits(s) {
                    Some(n) => {
                        if n <= 0x7fff_ffff_ffff_ffff {
                            return Some(n as i64);
                        }
                        None
                    },
                    None => {
                        let len = s.unicode_len();
                        if len > 1 && s.get_char(0) == '-' {
                            let rest = s.substring_char(1, len);
                            assert(rest@ =~= s@.drop_first());
                            match parse_digits(rest) {
                                Some(n) => {
                                    if n <= 0x8000_0000_0000_0000 {
                                        if n == 0x8000_0000_0000_0000 {
                                            return Some(i64::MIN);
                                        }
                                        return Some(0 - (n as i64));
                                    }
                                    None
                                },
                                None => None,
                            }
                        } else {
                            None
                        }
                    },
                }
            },
            _ => None,
        }
    }

    /// The step `/0` of a JSON pointer.
    pub fn first(&self) -> (r: Option<&Json>)
        ensures
            ref_view(r) == self@.first(),
    {
        match self {
            Json::Array(items) => {
                proof {
                    Self::lemma_array_view(*items);
                }
                if items.len() > 0 {
                    Some(&items[0])
                } else {
                    None
                }
            },
            Json::Object(_) => {
                proof {
                    reveal_strlit("0");
                    assert("0"@ =~= seq!['0']);
                }
                self.get("0")
            },
            _ => None,
        }
    }

    /// `set` where there is a value to set.
    pub fn set_opt(&mut self, key: &str, value: Option<Json>)
        requires
            old(self)@ is Object,
        ensures
            final(self)@ == set_opt(old(self)@, key@, opt_json_view(value)),
            final(self)@ is Object,
    {
        match value {
            Some(v) => self.set(key, v),
            None => {},
        }
    }

    /// The string member `key`, if it is a string.
    pub fn get_str(&self, key: &str) -> (r: Option<&str>)
        ensures
            str_ref_view(r) == self@.get_str(key@),
    {
        match self.get(key) {
            Some(v) => v.as_str(),
            None => None,
        }
    }

    /// The string member `key`, or `d`.
    pub fn str_or<'a>(&'a self, key: &str, d: &'a str) -> (r: &'a str)
        ensures
            r@ == self@.str_or(key@, d@),
    {
        match self.get_str(key) {
            Some(s) => s,
            None => d,
        }
    }

    /// A copy of the member `key`, `null` where it is missing.
    pub fn member_or_null(&self, key: &str) -> (r: Json)
        ensures
            r@ == or_null(self@.get(key@)),
    {
        match self.get(key) {
            Some(v) => v.copy(),
            None => Json::Null,
        }
    }

    /// `null`
    pub fn null() -> (r: Json)
        ensures
            r@ == JsonV::Null,
    {
        Json::Null
    }

    /// An empty object.
    pub fn object() -> (r: Json)
        ensures
            r@ == JsonV::Object(Seq::empty()),
    {
        let v: Vec<(String, Json)> = Vec::new();
        proof {
            Self::lemma_object_view(v);
            assert(pairs_view(v@) =~= Seq::<
                (Seq<char>, JsonV),
            >::empty());
        }
        Json::Object(v)
    }

    /// An array of the given elements.
    pub fn array(items: Vec<Json>) -> (r: Json)
        ensures
            r@ == JsonV::Array(items@.map_values(|j: Json| j@)),
    {
        proof {
            Self::lemma_array_view(items);
            assert(items_view(items@) =~= items@.map_values(
                |j: Json| j@,
            ));
        }
        Json::Array(items)
    }

    /// A string value.
    pub fn string(s: &str) -> (r: Json)
        ensures
            r@ == JsonV::Str(s@),
    {
        Json::Str(to_owned(s))
    }

    /// A string value owning `s`.
    pub fn from_string(s: String) -> (r: Json)
        ensures
            r@ == JsonV::Str(s@),
    {
        Json::Str(s)
    }

    /// A boolean value.
    pub fn boolean(b: bool) -> (r: Json)
        ensures
            r@ == JsonV::Bool(b),
    {
        Json::Bool(b)
    }

    /// The number `n`.
    pub fn number(n: u64) -> (r: Json)
        ensures
            r@ == JsonV::Number(crate::text::decimal(n as nat)),
            r@.as_u64() == Some(n),
    {
        let t = crate::text::u64_to_text(n);
        proof {
            lemma_decimal_digits(n as nat);
        }
        Json::Number(t)
    }

    /// The number `n`, negative numbers with a leading `-`.
    pub fn number_i64(n: i64) -> (r: Json)
        ensures
            r@ == JsonV::Number(i64_text(n)),
    {
        Json::Number(i64_to_text(n))
    }

    /// `self[key] = value`: an object gets the member set (replacing the first
    /// member of that name, or appended); `null` becomes `{key: value}`.
    pub fn set(&mut self, key: &str, value: Json)
        requires
            old(self)@ is Object || old(self)@ is Null,
        ensures
            final(self)@ == old(self)@.set(key@, value@),
    {
        let ghost vv = value@;
        match self {
            Json::Object(ps) => {
                let ghost pv = pairs_view(ps@);
                proof {
                    Self::lemma_object_view(*ps);
                }
                let mut i: usize = 0;
                while i < ps.len() && key_less(ps[i].0.as_str(), key)
                    invariant
                        i <= ps@.len(),
                        pv == pairs_view(ps@),
                        forall|j: int| 0 <= j < i ==> key_lt(#[trigger] pv[j].0, key@),
                    decreases ps@.len() - i,
                {
                    i = i + 1;
                }
                proof {
                    lemma_pairs_set_split(pv, key@, vv, i as int);
                }
                if i < ps.len() && str_eq(ps[i].0.as_str(), key) {
                    ps.set(i, (to_owned(key), value));
                    proof {
                        Self::lemma_object_view(*ps);
                        assert(pairs_view(ps@) =~= pv.update(i as int, (key@, vv)));
                    }
                } else {
                    ps.insert(i, (to_owned(key), value));
                    proof {
                        Self::lemma_object_view(*ps);
                        assert(pairs_view(ps@) =~= pv.take(i as int) + seq![(key@, vv)] + pv.skip(
                            i as int,
                        ));
                    }
                }
            },
            _ => {
                let mut ps: Vec<(String, Json)> = Vec::new();
                ps.push((to_owned(key), value));
                proof {
                    Self::lemma_object_view(ps);
                    assert(pairs_view(ps@) =~= seq![(key@, vv)]);
                }
                *self = Json::Object(ps);
            },
        }
    }

    /// The compact JSON text of the value.
    pub fn to_text(&self) -> (r: String)
        ensures
            r@ == json_text(self@),
    {
        let mut out = crate::text::empty_string();
        write_json(self, &mut out);
        assert(out@ =~= json_text(self@));
        out
    }

    /// A deep copy.
    pub fn copy(&self) -> (r: Json)
        ensures
            r@ == self@,
        decreases self,
    {
        match self {
            Json::Null => Json::Null,
            Json::Bool(b) => Json::Bool(*b),
            Json::Number(t) => Json::Number(t.clone()),
            Json::Str(s) => Json::Str(s.clone()),
            Json::Raw(t) => Json::Raw(t.clone()),
            Json::Array(items) => {
                let mut out: Vec<Json> = Vec::new();
                let mut i: usize = 0;
                while i < items.len()
                    invariant
                        i <= items@.len(),
                        out@.len() == i,
                        *self == Json::Array(*items),
                        forall|j: int| 0 <= j < i ==> (#[trigger] out@[j])@ == items@[j]@,
                    decreases items@.len() - i,
                {
                    proof {
                        assert(decreases_to!(items@ => items@[i as int]));
                        assert(decreases_to!(*items => items@));
                        assert((*self)->Array_0 == *items);
                        assert(decreases_to!(*self => (*self)->Array_0));
                    }
                    let c = items[i].copy();
                    out.push(c);
                    i = i + 1;
                }
                proof {
                    Self::lemma_array_view(*items);
                    Self::lemma_array_view(out);
                    assert(items_view(out@) =~= items_view(items@));
                }
                Json::Array(out)
            },
            Json::Object(ps) => {
                let mut out: Vec<(String, Json)> = Vec::new();
                let mut i: usize = 0;
                while i < ps.len()
                    invariant
                        i <= ps@.len(),
                        out@.len() == i,
                        *self == Json::Object(*ps),
                        forall|j: int|
                            0 <= j < i ==> (#[trigger] out@[j]).0@ == ps@[j].0@ && out@[j].1@
                                == ps@[j].1@,
                    decreases ps@.len() - i,
                {
                    proof {
                        assert(decreases_to!(ps@ => ps@[i as int]));
                        assert(decreases_to!(*ps => ps@));
                        assert((*self)->Object_0 == *ps);
                        assert(decreases_to!(*self => (*self)->Object_0));
                        assert(decreases_to!(ps@[i as int] => ps@[i as int].1));
                    }
                    let c = ps[i].1.copy();
                    out.push((ps[i].0.clone(), c));
                    i = i + 1;
                }
                proof {
                    Self::lemma_object_view(*ps);
                    Self::lemma_object_view(out);
                    assert(pairs_view(out@)
                        =~= pairs_view(ps@));
                }
                Json::Object(out)
            },
        }
    }
}

/// `a < b` in the key order.
fn key_less(a: &str, b: &str) -> (r: bool)
    ensures
        r == key_lt(a@, b@),
{
    let la = a.unicode_len();
    let lb = b.unicode_len();
    let mut i: usize = 0;
    assert(a@.skip(0) =~= a@ && b@.skip(0) =~= b@);
    assert(a@.take(0) =~= b@.take(0));
    while i < la && i < lb
        invariant
            la == a@.len(),
            lb == b@.len(),
            i <= la,
            i <= lb,
            a@.take(i as int) == b@.take(i as int),
            key_lt(a@, b@) == key_lt(a@.skip(i as int), b@.skip(i as int)),
        decreases la - i,
    {
        let ca = a.get_char(i);
        let cb = b.get_char(i);
        assert(a@.skip(i as int)[0] == ca && b@.skip(i as int)[0] == cb);
        if ca != cb {
            return ca < cb;
        }
        assert(a@.skip(i as int).drop_first() =~= a@.skip(i as int + 1));
        assert(b@.skip(i as int).drop_first() =~= b@.skip(i as int + 1));
        assert(a@.take(i as int + 1) =~= a@.take(i as int).push(ca));
        assert(b@.take(i as int + 1) =~= b@.take(i as int).push(cb));
        i = i + 1;
    }
    i < lb
}

/// The index of the first member named `key`.
fn find_key(ps: &Vec<(String, Json)>, key: &str) -> (r: Option<usize>)
    ensures
        match r {
            Some(i) => i < ps@.len() && pairs_view(ps@)[i as int].0 == key@ && forall|j: int|
                0 <= j < i ==> pairs_view(ps@)[j].0 != key@,
            None => forall|j: int| 0 <= j < ps@.len() ==> pairs_view(ps@)[j].0 != key@,
        },
{
    let ghost pv = pairs_view(ps@);
    let mut i: usize = 0;
    while i < ps.len()
        invariant
            i <= ps@.len(),
            pv == pairs_view(ps@),
            forall|j: int| 0 <= j < i ==> pv[j].0 != key@,
        decreases ps@.len() - i,
    {
        if str_eq(ps[i].0.as_str(), key) {
            return Some(i);
        }
        i = i + 1;
    }
    None
}


// ──────── JSON text ────────

/// A lower-case hexadecimal digit.
pub open spec fn hex_digit(d: nat) -> char {
    if d < 10 {
        crate::text::digit_char(d)
    } else if d == 10 {
        'a'
    } else if d == 11 {
        'b'
    } else if d == 12 {
        'c'
    } else if d == 13 {
        'd'
    } else if d == 14 {
        'e'
    } else {
        'f'
    }
}

/// One character inside a JSON string: `"` and `\` and the control
/// characters are escaped, with the short forms where JSON has them.
pub open spec fn escape_char(c: char) -> Seq<char> {
    if c == '"' {
        seq!['\\', '"']
    } else if c == '\\' {
        seq!['\\', '\\']
    } else if c == '\n' {
        seq!['\\', 'n']
    } else if c == '\r' {
        seq!['\\', 'r']
    } else if c == '\t' {
        seq!['\\', 't']
    } else if c == '\u{8}' {
        seq!['\\', 'b']
    } else if c == '\u{c}' {
        seq!['\\', 'f']
    } else if (c as u32) < 32 {
        seq!['\\', 'u', '0', '0', hex_digit(((c as u32) / 16) as nat), hex_digit(((c as u32) % 16) as nat)]
    } else {
        seq![c]
    }
}

/// The characters of a string, escaped.
pub open spec fn escape_text(s: Seq<char>) -> Seq<char>
    decreases s.len(),
{
    if s.len() == 0 {
        Seq::empty()
    } else {
        escape_text(s.drop_last()) + escape_char(s.last())
    }
}

/// A JSON string literal.
pub open spec fn quoted(s: Seq<char>) -> Seq<char> {
    seq!['"'] + escape_text(s) + seq!['"']
}

/// Compact JSON text of a value: no white space, members in stored order,
/// numbers and raw text as kept.
pub open spec fn json_text(v: JsonV) -> Seq<char>
    decreases v,
{
    match v {
        JsonV::Null => seq!['n', 'u', 'l', 'l'],
        JsonV::Bool(b) => if b {
            seq!['t', 'r', 'u', 'e']
        } else {
            seq!['f', 'a', 'l', 's', 'e']
        },
        JsonV::Number(t) => t,
        JsonV::Str(s) => quoted(s),
        JsonV::Raw(t) => t,
        JsonV::Array(items) => seq!['['] + items_text(items) + seq![']'],
        JsonV::Object(ps) => seq!['{'] + members_text(ps) + seq!['}'],
    }
}

/// The elements' texts, separated by commas.
pub open spec fn items_text(items: Seq<JsonV>) -> Seq<char>
    decreases items,
{
    if items.len() == 0 {
        Seq::empty()
    } else if items.len() == 1 {
        json_text(items[0])
    } else {
        items_text(items.subrange(0, items.len() - 1)) + seq![','] + json_text(
            items[items.len() - 1],
        )
    }
}

/// The members' texts (`"key":value`), separated by commas.
pub open spec fn members_text(ps: Seq<(Seq<char>, JsonV)>) -> Seq<char>
    decreases ps,
{
    if ps.len() == 0 {
        Seq::empty()
    } else if ps.len() == 1 {
        quoted(ps[0].0) + seq![':'] + json_text(ps[0].1)
    } else {
        members_text(ps.subrange(0, ps.len() - 1)) + seq![','] + quoted(ps[ps.len() - 1].0) + seq![
            ':',
        ] + json_text(ps[ps.len() - 1].1)
    }
}

/// Appends `s` escaped.
fn write_escaped(s: &str, out: &mut String)
    ensures
        final(out)@ == old(out)@ + escape_text(s@),
{
    let ghost start = out@;
    assert(s@.take(0) =~= Seq::<char>::empty());
    for c in it: s.chars()
        invariant
            it.seq() == s@,
            out@ == start + escape_text(s@.take(it.index() as int)),
    {
        let ghost i = it.index();
        assert(c == s@[i as int]);
        assert(s@.take(i as int + 1).drop_last() =~= s@.take(i as int));
        if c == '"' {
            push_char(out, '\\');
            push_char(out, '"');
        } else if c == '\\' {
            push_char(out, '\\');
            push_char(out, '\\');
        } else if c == '\n' {
            push_char(out, '\\');
            push_char(out, 'n');
        } else if c == '\r' {
            push_char(out, '\\');
            push_char(out, 'r');
        } else if c == '\t' {
            push_char(out, '\\');
            push_char(out, 't');
        } else if c == '\u{8}' {
            push_char(out, '\\');
            push_char(out, 'b');
        } else if c == '\u{c}' {
            push_char(out, '\\');
            push_char(out, 'f');
        } else if (c as u32) < 32 {
            let code: u32 = c as u32;
            push_char(out, '\\');
            push_char(out, 'u');
            push_char(out, '0');
            push_char(out, '0');
            push_char(out, hex_char(code / 16));
            push_char(out, hex_char(code % 16));
        } else {
            push_char(out, c);
        }
        assert(out@ =~= start + escape_text(s@.take(i as int + 1)));
    }
    assert(s@.take(s@.len() as int) =~= s@);
}

/// The hexadecimal digit of `d`.
fn hex_char(d: u32) -> (c: char)
    requires
        d < 16,
    ensures
        c == hex_digit(d as nat),
{
    if d == 0 {
        '0'
    } else if d == 1 {
        '1'
    } else if d == 2 {
        '2'
    } else if d == 3 {
        '3'
    } else if d == 4 {
        '4'
    } else if d == 5 {
        '5'
    } else if d == 6 {
        '6'
    } else if d == 7 {
        '7'
    } else if d == 8 {
        '8'
    } else if d == 9 {
        '9'
    } else if d == 10 {
        'a'
    } else if d == 11 {
        'b'
    } else if d == 12 {
        'c'
    } else if d == 13 {
        'd'
    } else if d == 14 {
        'e'
    } else {
        'f'
    }
}

/// Appends the compact JSON text of `j`.
fn write_json(j: &Json, out: &mut String)
    ensures
        final(out)@ == old(out)@ + json_text(j@),
    decreases j,
{
    match j {
        Json::Null => {
            proof {
                reveal_strlit("null");
            }
            push_str(out, "null");
        },
        Json::Bool(b) => {
            proof {
                reveal_strlit("true");
                reveal_strlit("false");
            }
            if *b {
                push_str(out, "true");
            } else {
                push_str(out, "false");
            }
        },
        Json::Number(t) => push_str(out, t.as_str()),
        Json::Raw(t) => push_str(out, t.as_str()),
        Json::Str(s) => {
            push_char(out, '"');
            write_escaped(s.as_str(), out);
            push_char(out, '"');
        },
        Json::Array(items) => {
            proof {
                Json::lemma_array_view(*items);
            }
            let ghost start = out@;
            let ghost iv = items_view(items@);
            push_char(out, '[');
            let mut i: usize = 0;
            assert(iv.subrange(0, 0) =~= Seq::<JsonV>::empty());
            while i < items.len()
                invariant
                    i <= items@.len(),
                    *j == Json::Array(*items),
                    iv == items_view(items@),
                    out@ == start + seq!['['] + items_text(iv.subrange(0, i as int)),
                decreases items@.len() - i,
            {
                proof {
                    assert(decreases_to!(items@ => items@[i as int]));
                    assert(decreases_to!(*items => items@));
                    assert((*j)->Array_0 == *items);
                    assert(decreases_to!(*j => (*j)->Array_0));
                }
                if i > 0 {
                    push_char(out, ',');
                }
                write_json(&items[i], out);
                assert(iv.subrange(0, i as int + 1).subrange(0, i as int) =~= iv.subrange(0, i as int));
                i = i + 1;
            }
            push_char(out, ']');
            assert(iv.subrange(0, items@.len() as int) =~= iv);
        },
        Json::Object(ps) => {
            proof {
                Json::lemma_object_view(*ps);
            }
            let ghost start = out@;
            let ghost pv = pairs_view(ps@);
            push_char(out, '{');
            let mut i: usize = 0;
            assert(pv.subrange(0, 0) =~= Seq::<(Seq<char>, JsonV)>::empty());
            while i < ps.len()
                invariant
                    i <= ps@.len(),
                    *j == Json::Object(*ps),
                    pv == pairs_view(ps@),
                    out@ == start + seq!['{'] + members_text(pv.subrange(0, i as int)),
                decreases ps@.len() - i,
            {
                proof {
                    assert(decreases_to!(ps@ => ps@[i as int]));
                    assert(decreases_to!(*ps => ps@));
                    assert((*j)->Object_0 == *ps);
                    assert(decreases_to!(*j => (*j)->Object_0));
                    assert(decreases_to!(ps@[i as int] => ps@[i as int].1));
                }
                if i > 0 {
                    push_char(out, ',');
                }
                push_char(out, '"');
                write_escaped(ps[i].0.as_str(), out);
                push_char(out, '"');
                push_char(out, ':');
                write_json(&ps[i].1, out);
                assert(pv.subrange(0, i as int + 1).subrange(0, i as int) =~= pv.subrange(0, i as int));
                i = i + 1;
            }
            push_char(out, '}');
            assert(pv.subrange(0, ps@.len() as int) =~= pv);
        },
    }
}

/// Whether `serde_json` reads `text` as one JSON value (surrounding white
/// space allowed).
pub uninterp spec fn parses_as_json(text: Seq<char>) -> bool;

/// The compact text that `serde_json` writes (`Value::to_string`) for the
/// value it reads from `text`.
pub uninterp spec fn json_compact(text: Seq<char>) -> Seq<char>;

/// `serde_json::from_str::<serde_json::Value>(text)`, and where it succeeds
/// the value written back with `to_string`. Stated only through the names
/// `parses_as_json` and `json_compact`: `serde_json`'s grammar and writer are
/// not restated here.
#[verifier::external_body]
fn reserialize_json(text: &str) -> (r: Option<String>)
    ensures
        r is Some <==> parses_as_json(text@),
        r matches Some(t) ==> t@ == json_compact(text@),
{
    match serde_json::from_str::<serde_json::Value>(text) {
        Ok(v) => Some(v.to_string()),
        Err(_) => None,
    }
}

/// The value of a JSON text where it parses, an empty object where it does
/// not. The parsed value is kept as the compact text `serde_json` writes for
/// it (`Raw`): the library only passes it on.
pub open spec fn parsed_or_empty(text: Seq<char>) -> JsonV {
    if parses_as_json(text) {
        JsonV::Raw(json_compact(text))
    } else {
        empty_obj()
    }
}

/// The text parsed as JSON where it is valid JSON, else an empty object; the
/// value kept as the compact text of what was parsed.
pub fn parse_or_empty(text: &str) -> (r: Json)
    ensures
        r@ == parsed_or_empty(text@),
{
    match reserialize_json(text) {
        Some(t) => Json::Raw(t),
        None => Json::object(),
    }
}

/// The JSON number of `n` reads back as `n`.
pub proof fn lemma_num_as_u64(n: u64)
    ensures
        JsonV::Number(crate::text::decimal(n as nat)).as_u64() == Some(n),
{
    lemma_decimal_digits(n as nat);
}

/// Decimal text has only digits and reads back as its number.
proof fn lemma_decimal_digits(n: nat)
    ensures
        all_digits(crate::text::decimal(n)),
        digits_value(crate::text::decimal(n)) == n,
    decreases n,
{
    let t = crate::text::decimal(n);
    let d: nat = n % 10;
    assert(((crate::text::digit_char(d) as u32) - 48) as nat == d) by {
        if d == 0 {} else if d == 1 {} else if d == 2 {} else if d == 3 {} else if d == 4 {
        } else if d == 5 {} else if d == 6 {} else if d == 7 {} else if d == 8 {} else {}
    }
    reveal_with_fuel(digits_value, 2);
    if n < 10 {
        assert(t.drop_last() =~= Seq::<char>::empty());
    } else {
        assert(n == (n / 10) * 10 + n % 10) by (nonlinear_arith);
        lemma_decimal_digits(n / 10);
        assert(t.drop_last() =~= crate::text::decimal(n / 10));
    }
}

/// Parses a string of decimal digits into a `u64`.
pub(crate) fn parse_digits(s: &str) -> (r: Option<u64>)
    ensures
        r == (if all_digits(s@) && digits_value(s@) <= u64::MAX {
            Some(digits_value(s@) as u64)
        } else {
            None
        }),
{
    let n = s.unicode_len();
    if n == 0 {
        return None;
    }
    let mut i: usize = 0;
    let mut acc: u64 = 0;
    assert(s@.take(0) =~= Seq::<char>::empty());
    while i < n
        invariant
            n == s@.len(),
            i <= n,
            forall|j: int| 0 <= j < i ==> '0' <= #[trigger] s@[j] && s@[j] <= '9',
            acc == digits_value(s@.take(i as int)),
        decreases n - i,
    {
        let c = s.get_char(i);
        if !('0' <= c && c <= '9') {
            return None;
        }
        let d: u64 = (c as u32 - 48) as u64;
        assert(s@.take(i as int + 1).drop_last() =~= s@.take(i as int));
        if acc > (u64::MAX - d) / 10 {
            proof {
                lemma_digits_value_prefix_mono(s@, i as int + 1);
            }
            return None;
        }
        acc = acc * 10 + d;
        i = i + 1;
    }
    assert(s@.take(n as int) =~= s@);
    Some(acc)
}

/// A longer prefix of digits never has a smaller value.
proof fn lemma_digits_value_prefix_mono(s: Seq<char>, k: int)
    requires
        0 <= k <= s.len(),
        forall|j: int| 0 <= j < k ==> '0' <= #[trigger] s[j] && s[j] <= '9',
    ensures
        all_digits(s) ==> digits_value(s.take(k)) <= digits_value(s),
    decreases s.len() - k,
{
    if k < s.len() && all_digits(s) {
        lemma_digits_value_prefix_mono(s, k + 1);
        assert(s.take(k + 1).drop_last() =~= s.take(k));
    } else if k == s.len() {
        assert(s.take(k) =~= s);
    }
}

} // verus!
