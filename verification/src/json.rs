//! JSON values as plain data, and the text they are read from and written to.
use crate::proto::opt_view;
use crate::text::same;
use vstd::prelude::*;

verus! {

/// A JSON value. A number with a fraction or an exponent is kept as its text.
#[derive(Debug)]
pub enum Json {
    Null,
    Bool(bool),
    Pos(u64),
    Neg(i64),
    Float(String),
    Text(String),
    List(Vec<Json>),
    Object(Vec<(String, Json)>),
}

/// What a [`Json`] says. An object is a map: the order of its members means nothing.
#[verifier::ext_equal]
pub enum JsonView {
    Null,
    Bool(bool),
    Pos(u64),
    Neg(i64),
    Float(Seq<char>),
    Text(Seq<char>),
    List(Seq<JsonView>),
    Object(Map<Seq<char>, JsonView>),
}

/// The last index below `n` at which a key stands.
pub open spec fn last_with(pairs: Seq<(String, Json)>, key: Seq<char>, n: int) -> int
    decreases n,
{
    if n <= 0 {
        -1
    } else if n <= pairs.len() && pairs[n - 1].0@ == key {
        n - 1
    } else {
        last_with(pairs, key, n - 1)
    }
}

impl View for Json {
    type V = JsonView;

    open spec fn view(&self) -> JsonView {
        json_view(*self)
    }
}

/// What a value says. Of two members with one key the later counts.
pub open spec fn json_view(j: Json) -> JsonView
    decreases j,
{
    match j {
        Json::Null => JsonView::Null,
        Json::Bool(b) => JsonView::Bool(b),
        Json::Pos(n) => JsonView::Pos(n),
        Json::Neg(n) => JsonView::Neg(n),
        Json::Float(s) => JsonView::Float(s@),
        Json::Text(s) => JsonView::Text(s@),
        Json::List(v) => JsonView::List(
            Seq::new(
                v@.len(),
                |i: int|
                    if 0 <= i < v@.len() {
                        json_view(v@[i])
                    } else {
                        arbitrary()
                    },
            ),
        ),
        Json::Object(v) => JsonView::Object(
            Map::new(
                |k: Seq<char>| last_with(v@, k, v@.len() as int) >= 0,
                |k: Seq<char>|
                    {
                        let i = last_with(v@, k, v@.len() as int);
                        if 0 <= i < v@.len() {
                            json_view(v@[i].1)
                        } else {
                            arbitrary()
                        }
                    },
            ),
        ),
    }
}

/// The members of an object.
pub open spec fn members(pairs: Seq<(String, Json)>) -> Map<Seq<char>, JsonView> {
    Map::new(
        |k: Seq<char>| last_with(pairs, k, pairs.len() as int) >= 0,
        |k: Seq<char>| pairs[last_with(pairs, k, pairs.len() as int)].1@,
    )
}

/// The values of a list.
pub open spec fn items(v: Seq<Json>) -> Seq<JsonView> {
    v.map_values(|j: Json| j@)
}

pub(crate) proof fn lemma_last_with(pairs: Seq<(String, Json)>, key: Seq<char>, n: int)
    requires
        0 <= n <= pairs.len(),
    ensures
        -1 <= last_with(pairs, key, n) < n,
        last_with(pairs, key, n) >= 0 ==> pairs[last_with(pairs, key, n)].0@ == key,
        forall|i: int|
            last_with(pairs, key, n) < i < n ==> (#[trigger] pairs[i]).0@ != key,
    decreases n,
{
    if n > 0 && pairs[n - 1].0@ != key {
        lemma_last_with(pairs, key, n - 1);
    }
}

proof fn lemma_last_with_prefix(
    a: Seq<(String, Json)>,
    b: Seq<(String, Json)>,
    key: Seq<char>,
    n: int,
)
    requires
        0 <= n <= a.len(),
        n <= b.len(),
        forall|i: int| 0 <= i < n ==> (#[trigger] a[i]).0@ == b[i].0@,
    ensures
        last_with(a, key, n) == last_with(b, key, n),
    decreases n,
{
    if n > 0 {
        assert(a[n - 1].0@ == b[n - 1].0@);
        lemma_last_with_prefix(a, b, key, n - 1);
    }
}

/// What an object or a list says, told by its parts.
pub proof fn lemma_json_view(j: Json)
    ensures
        j matches Json::Object(v) ==> j@ == JsonView::Object(members(v@)),
        j matches Json::List(v) ==> j@ == JsonView::List(items(v@)),
{
    match j {
        Json::Object(v) => {
            assert forall|k: Seq<char>| last_with(v@, k, v@.len() as int) < v@.len() by {
                lemma_last_with(v@, k, v@.len() as int);
            }
            assert(j@->Object_0 =~= members(v@));
        },
        Json::List(v) => {
            assert(j@->List_0 =~= items(v@));
        },
        _ => {},
    }
}

/// A member put behind the others replaces one with its key.
pub proof fn lemma_members_push(pairs: Seq<(String, Json)>, key: String, value: Json)
    ensures
        members(pairs.push((key, value))) == members(pairs).insert(key@, value@),
{
    let after = pairs.push((key, value));
    let n = pairs.len() as int;
    assert forall|k: Seq<char>|
        last_with(after, k, n + 1) == (if k == key@ {
            n
        } else {
            last_with(pairs, k, n)
        }) && last_with(pairs, k, n) < n by {
        lemma_last_with(pairs, k, n);
        lemma_last_with_prefix(pairs, after, k, n);
    }
    assert(members(after) =~= members(pairs).insert(key@, value@));
}

/// Members that stand behind others are laid over them.
pub proof fn lemma_members_append(a: Seq<(String, Json)>, b: Seq<(String, Json)>)
    ensures
        members(a + b) == members(a).union_prefer_right(members(b)),
    decreases b.len(),
{
    if b.len() == 0 {
        assert(a + b =~= a);
        assert(members(b).dom() =~= Set::empty());
        assert(members(a + b) =~= members(a).union_prefer_right(members(b)));
    } else {
        let t = b.drop_last();
        let (k, v) = b.last();
        lemma_members_append(a, t);
        assert(a + b =~= (a + t).push((k, v)));
        assert(b =~= t.push((k, v)));
        lemma_members_push(a + t, k, v);
        lemma_members_push(t, k, v);
        assert(members(a + b) =~= members(a).union_prefer_right(members(b)));
    }
}

/// The member of an object under a key.
pub open spec fn member(v: JsonView, key: Seq<char>) -> Option<JsonView> {
    match v {
        JsonView::Object(m) => if m.dom().contains(key) {
            Some(m[key])
        } else {
            None
        },
        _ => None,
    }
}

/// The text of a text value.
pub open spec fn text_value(v: Option<JsonView>) -> Option<Seq<char>> {
    match v {
        Some(JsonView::Text(s)) => Some(s),
        _ => None,
    }
}

/// The number of a value that is an integer in the range of `i64`.
pub open spec fn int_value(v: Option<JsonView>) -> Option<i64> {
    match v {
        Some(JsonView::Pos(n)) => if n <= i64::MAX {
            Some(n as i64)
        } else {
            None
        },
        Some(JsonView::Neg(n)) => Some(n),
        _ => None,
    }
}

/// The truth value of a truth value.
pub open spec fn bool_value(v: Option<JsonView>) -> Option<bool> {
    match v {
        Some(JsonView::Bool(b)) => Some(b),
        _ => None,
    }
}

/// A value, or another where there is none.
pub open spec fn or_else<T>(v: Option<T>, otherwise: T) -> T {
    match v {
        Some(x) => x,
        None => otherwise,
    }
}

/// The text member under a key, or another text where there is none.
pub open spec fn member_text(v: JsonView, key: Seq<char>, otherwise: Seq<char>) -> Seq<char> {
    or_else(text_value(member(v, key)), otherwise)
}

/// The integer member under a key, or another integer where there is none.
pub open spec fn member_int(v: JsonView, key: Seq<char>, otherwise: i64) -> i64 {
    or_else(int_value(member(v, key)), otherwise)
}

/// The truth value member under a key, or false where there is none.
pub open spec fn member_bool(v: JsonView, key: Seq<char>) -> bool {
    or_else(bool_value(member(v, key)), false)
}

/// An optional value's view.
pub open spec fn view_of(v: Option<&Json>) -> Option<JsonView> {
    match v {
        Some(j) => Some(j@),
        None => None,
    }
}

impl Clone for Json {
    fn clone(&self) -> (r: Self)
        ensures
            r@ == self@,
        decreases self,
    {
        match self {
            Json::Null => Json::Null,
            Json::Bool(b) => Json::Bool(*b),
            Json::Pos(n) => Json::Pos(*n),
            Json::Neg(n) => Json::Neg(*n),
            Json::Float(s) => Json::Float(s.clone()),
            Json::Text(s) => Json::Text(s.clone()),
            Json::List(v) => {
                let mut out: Vec<Json> = Vec::new();
                let mut i: usize = 0;
                while i < v.len()
                    invariant
                        i <= v@.len(),
                        *self == Json::List(*v),
                        out@.len() == i,
                        forall|j: int| 0 <= j < i ==> (#[trigger] out@[j])@ == v@[j]@,
                    decreases v@.len() - i,
                {
                    assert(decreases_to!(*self => self->List_0));
                    assert(decreases_to!(*v => v@));
                    assert(decreases_to!(v@ => v@[i as int]));
                    out.push(v[i].clone());
                    i = i + 1;
                }
                let r = Json::List(out);
                proof {
                    lemma_json_view(r);
                    lemma_json_view(*self);
                    assert(items(out@) =~= items(v@));
                }
                r
            },
            Json::Object(v) => {
                let mut out: Vec<(String, Json)> = Vec::new();
                let mut i: usize = 0;
                while i < v.len()
                    invariant
                        i <= v@.len(),
                        *self == Json::Object(*v),
                        out@.len() == i,
                        forall|j: int|
                            0 <= j < i ==> (#[trigger] out@[j]).0@ == v@[j].0@ && out@[j].1@
                                == v@[j].1@,
                    decreases v@.len() - i,
                {
                    assert(decreases_to!(*self => self->Object_0));
                    assert(decreases_to!(*v => v@));
                    assert(decreases_to!(v@ => v@[i as int]));
                    assert(decreases_to!(v@[i as int] => v@[i as int].1));
                    out.push((v[i].0.clone(), v[i].1.clone()));
                    i = i + 1;
                }
                let r = Json::Object(out);
                proof {
                    lemma_json_view(r);
                    lemma_json_view(*self);
                    lemma_members_same(out@, v@);
                }
                r
            },
        }
    }
}

/// Objects with the same pairs have the same members.
pub proof fn lemma_members_same(a: Seq<(String, Json)>, b: Seq<(String, Json)>)
    requires
        a.len() == b.len(),
        forall|j: int|
            0 <= j < a.len() ==> (#[trigger] a[j]).0@ == b[j].0@ && a[j].1@ == b[j].1@,
    ensures
        members(a) == members(b),
{
    let n = a.len() as int;
    assert forall|k: Seq<char>|
        #![trigger last_with(a, k, n)]
        last_with(a, k, n) == last_with(b, k, n) && -1 <= last_with(a, k, n) < n by {
        lemma_last_with(a, k, n);
        lemma_last_with_prefix(a, b, k, n);
    }
    assert(members(a) =~= members(b));
}

impl Json {
    /// The member of an object under a key.
    pub fn get(&self, key: &str) -> (r: Option<&Json>)
        ensures
            view_of(r) == member(self@, key@),
    {
        proof {
            lemma_json_view(*self);
        }
        match self {
            Json::Object(v) => {
                let mut i: usize = v.len();
                while i > 0
                    invariant
                        i <= v@.len(),
                        self@ == JsonView::Object(members(v@)),
                        last_with(v@, key@, v@.len() as int) == last_with(v@, key@, i as int),
                    decreases i,
                {
                    if same(v[i - 1].0.as_str(), key) {
                        assert(last_with(v@, key@, i as int) == i - 1);
                        return Some(&v[i - 1].1);
                    }
                    i = i - 1;
                }
                None
            },
            _ => None,
        }
    }

    /// Whether this is null.
    pub fn is_null(&self) -> (r: bool)
        ensures
            r == (self@ is Null),
    {
        matches!(self, Json::Null)
    }

    /// The text member under a key, or another text where there is none.
    pub fn text_at(&self, key: &str, otherwise: &str) -> (r: String)
        ensures
            r@ == member_text(self@, key@, otherwise@),
    {
        match self.get(key) {
            Some(Json::Text(s)) => s.clone(),
            _ => otherwise.to_owned(),
        }
    }

    /// The integer member under a key, or another integer where there is none.
    pub fn int_at(&self, key: &str, otherwise: i64) -> (r: i64)
        ensures
            r == member_int(self@, key@, otherwise),
    {
        match self.get(key) {
            Some(Json::Pos(n)) => if *n <= i64::MAX as u64 {
                *n as i64
            } else {
                otherwise
            },
            Some(Json::Neg(n)) => *n,
            _ => otherwise,
        }
    }

    /// The truth value member under a key, or false where there is none.
    pub fn bool_at(&self, key: &str) -> (r: bool)
        ensures
            r == member_bool(self@, key@),
    {
        match self.get(key) {
            Some(Json::Bool(b)) => *b,
            _ => false,
        }
    }
}

/// Puts a member behind the others.
pub fn put(pairs: &mut Vec<(String, Json)>, key: &str, value: Json)
    ensures
        members(final(pairs)@) == members(old(pairs)@).insert(key@, value@),
{
    let k = key.to_owned();
    proof {
        lemma_members_push(pairs@, k, value);
    }
    pairs.push((k, value));
}

/// An object without members.
pub fn no_members() -> (r: Vec<(String, Json)>)
    ensures
        r@.len() == 0,
        members(r@) == Map::<Seq<char>, JsonView>::empty(),
{
    let r: Vec<(String, Json)> = Vec::new();
    assert(members(r@) =~= Map::<Seq<char>, JsonView>::empty());
    r
}

/// An object of the given members.
pub fn object(pairs: Vec<(String, Json)>) -> (r: Json)
    ensures
        r@ == JsonView::Object(members(pairs@)),
{
    let r = Json::Object(pairs);
    proof {
        lemma_json_view(r);
    }
    r
}

/// A list of the given values.
pub fn list(values: Vec<Json>) -> (r: Json)
    ensures
        r@ == JsonView::List(items(values@)),
{
    let r = Json::List(values);
    proof {
        lemma_json_view(r);
    }
    r
}

/// A text value.
pub fn json_str(s: &str) -> (r: Json)
    ensures
        r@ == JsonView::Text(s@),
{
    Json::Text(s.to_owned())
}

/// An integer, as a value.
pub open spec fn int_json(n: i64) -> JsonView {
    if n >= 0 {
        JsonView::Pos(n as u64)
    } else {
        JsonView::Neg(n)
    }
}

/// An integer, as a value.
pub fn json_int(n: i64) -> (r: Json)
    ensures
        r@ == int_json(n),
{
    if n >= 0 {
        Json::Pos(n as u64)
    } else {
        Json::Neg(n)
    }
}

/// An optional text, as a value.
pub open spec fn opt_text_json(s: Option<Seq<char>>) -> JsonView {
    match s {
        Some(t) => JsonView::Text(t),
        None => JsonView::Null,
    }
}

/// An optional text, as a value.
pub fn json_opt_str(s: &Option<String>) -> (r: Json)
    ensures
        r@ == opt_text_json(opt_view(*s)),
{
    match s {
        Some(t) => json_str(t.as_str()),
        None => Json::Null,
    }
}

/// An optional integer, as a value.
pub open spec fn opt_int_json(n: Option<i64>) -> JsonView {
    match n {
        Some(i) => int_json(i),
        None => JsonView::Null,
    }
}

/// An optional integer, as a value.
pub fn json_opt_int(n: Option<i64>) -> (r: Json)
    ensures
        r@ == opt_int_json(n),
{
    match n {
        Some(i) => json_int(i),
        None => Json::Null,
    }
}

/// The last index at which a key stands, if any.
pub(crate) fn last_index(pairs: &Vec<(String, Json)>, key: &str) -> (r: Option<usize>)
    ensures
        (match r {
            Some(i) => i < pairs@.len() && i == last_with(pairs@, key@, pairs@.len() as int),
            None => last_with(pairs@, key@, pairs@.len() as int) == -1,
        }),
{
    let mut i: usize = pairs.len();
    while i > 0
        invariant
            i <= pairs@.len(),
            last_with(pairs@, key@, pairs@.len() as int) == last_with(pairs@, key@, i as int),
        decreases i,
    {
        if same(pairs[i - 1].0.as_str(), key) {
            return Some(i - 1);
        }
        i = i - 1;
    }
    None
}

proof fn lemma_has_member(pairs: Seq<(String, Json)>, i: int)
    requires
        0 <= i < pairs.len(),
    ensures
        members(pairs).dom().contains(pairs[i].0@),
{
    lemma_last_with(pairs, pairs[i].0@, pairs.len() as int);
}

/// Whether the text of a fraction is that of a zero.
pub open spec fn is_zero(s: Seq<char>) -> bool {
    s == "0.0"@ || s == "-0.0"@
}

/// Whether two values say the same: they are equal, where the two zeros among the fractions
/// count as one.
pub open spec fn alike(a: JsonView, b: JsonView) -> bool
    decreases a,
{
    match (a, b) {
        (JsonView::Float(x), JsonView::Float(y)) => x == y || (is_zero(x) && is_zero(y)),
        (JsonView::List(x), JsonView::List(y)) => {
            &&& x.len() == y.len()
            &&& forall|i: int| 0 <= i < x.len() ==> alike(#[trigger] x[i], y[i])
        },
        (JsonView::Object(x), JsonView::Object(y)) => {
            &&& x.dom() == y.dom()
            &&& forall|k: Seq<char>| x.dom().contains(k) ==> alike(#[trigger] x[k], y[k])
        },
        _ => a == b,
    }
}

/// Whether a list holds a value.
pub open spec fn holds(list: Seq<JsonView>, v: JsonView) -> bool {
    exists|i: int| 0 <= i < list.len() && alike(#[trigger] list[i], v)
}

/// A value says the same as itself, and as what says the same as a value of which it does.
pub proof fn lemma_alike(a: JsonView, b: JsonView, c: JsonView)
    ensures
        alike(a, a),
        alike(a, b) == alike(b, a),
        alike(a, b) && alike(b, c) ==> alike(a, c),
    decreases a,
{
    match a {
        JsonView::List(x) => {
            assert forall|i: int| 0 <= i < x.len() implies alike(#[trigger] x[i], x[i]) by {
                lemma_alike(x[i], x[i], x[i]);
            }
            if let JsonView::List(y) = b {
                if x.len() == y.len() {
                    assert forall|i: int| 0 <= i < x.len() implies alike(#[trigger] x[i], y[i])
                        == alike(y[i], x[i]) by {
                        lemma_alike(x[i], y[i], y[i]);
                    }
                    if alike(b, a) {
                        assert forall|i: int| 0 <= i < x.len() implies alike(
                            #[trigger] x[i],
                            y[i],
                        ) by {
                            assert(alike(y[i], x[i]));
                        }
                    }
                    if alike(a, b) {
                        assert forall|i: int| 0 <= i < y.len() implies alike(
                            #[trigger] y[i],
                            x[i],
                        ) by {
                            assert(alike(x[i], y[i]));
                        }
                        if let JsonView::List(z) = c {
                            if alike(b, c) {
                                assert forall|i: int| 0 <= i < x.len() implies alike(
                                    #[trigger] x[i],
                                    z[i],
                                ) by {
                                    assert(alike(x[i], y[i]));
                                    assert(alike(y[i], z[i]));
                                    lemma_alike(x[i], y[i], z[i]);
                                }
                            }
                        }
                    }
                }
            }
        },
        JsonView::Object(x) => {
            assert forall|k: Seq<char>| x.dom().contains(k) implies alike(
                #[trigger] x[k],
                x[k],
            ) by {
                lemma_alike(x[k], x[k], x[k]);
            }
            if let JsonView::Object(y) = b {
                if x.dom() == y.dom() {
                    if alike(b, a) {
                        assert forall|k: Seq<char>| x.dom().contains(k) implies alike(
                            #[trigger] x[k],
                            y[k],
                        ) by {
                            assert(alike(y[k], x[k]));
                            lemma_alike(x[k], y[k], y[k]);
                        }
                    }
                    if alike(a, b) {
                        assert forall|k: Seq<char>| y.dom().contains(k) implies alike(
                            #[trigger] y[k],
                            x[k],
                        ) by {
                            assert(alike(x[k], y[k]));
                            lemma_alike(x[k], y[k], y[k]);
                        }
                        if let JsonView::Object(z) = c {
                            if alike(b, c) {
                                assert forall|k: Seq<char>| x.dom().contains(k) implies alike(
                                    #[trigger] x[k],
                                    z[k],
                                ) by {
                                    assert(alike(x[k], y[k]));
                                    assert(alike(y[k], z[k]));
                                    lemma_alike(x[k], y[k], z[k]);
                                }
                            }
                        }
                    }
                }
            }
        },
        _ => {},
    }
}

fn zero(s: &str) -> (r: bool)
    ensures
        r == is_zero(s@),
{
    same(s, "0.0") || same(s, "-0.0")
}

/// Whether two values say the same.
pub fn json_same(a: &Json, b: &Json) -> (r: bool)
    ensures
        r == alike(a@, b@),
    decreases a,
{
    proof {
        lemma_json_view(*a);
        lemma_json_view(*b);
    }
    match (a, b) {
        (Json::Null, Json::Null) => true,
        (Json::Bool(x), Json::Bool(y)) => *x == *y,
        (Json::Pos(x), Json::Pos(y)) => *x == *y,
        (Json::Neg(x), Json::Neg(y)) => *x == *y,
        (Json::Float(x), Json::Float(y)) => same(x.as_str(), y.as_str()) || (zero(x.as_str())
            && zero(y.as_str())),
        (Json::Text(x), Json::Text(y)) => same(x.as_str(), y.as_str()),
        (Json::List(x), Json::List(y)) => {
            if x.len() != y.len() {
                assert(items(x@).len() != items(y@).len());
                return false;
            }
            let mut i: usize = 0;
            while i < x.len()
                invariant
                    i <= x@.len(),
                    x@.len() == y@.len(),
                    *a == Json::List(*x),
                    a@ == JsonView::List(items(x@)),
                    b@ == JsonView::List(items(y@)),
                    forall|j: int| 0 <= j < i ==> alike((#[trigger] x@[j])@, y@[j]@),
                decreases x@.len() - i,
            {
                assert(decreases_to!(*a => a->List_0));
                assert(decreases_to!(*x => x@));
                assert(decreases_to!(x@ => x@[i as int]));
                if !json_same(&x[i], &y[i]) {
                    assert(!alike(items(x@)[i as int], items(y@)[i as int]));
                    return false;
                }
                i = i + 1;
            }
            assert forall|j: int| 0 <= j < items(x@).len() implies alike(
                #[trigger] items(x@)[j],
                items(y@)[j],
            ) by {
                assert(alike(x@[j]@, y@[j]@));
            }
            true
        },
        (Json::Object(x), Json::Object(y)) => {
            let ghost n = x@.len() as int;
            let mut i: usize = 0;
            while i < x.len()
                invariant
                    i <= x@.len(),
                    n == x@.len(),
                    *a == Json::Object(*x),
                    a@ == JsonView::Object(members(x@)),
                    b@ == JsonView::Object(members(y@)),
                    forall|j: int|
                        0 <= j < i ==> members(y@).dom().contains((#[trigger] x@[j]).0@)
                            && alike(members(x@)[x@[j].0@], members(y@)[x@[j].0@]),
                decreases x@.len() - i,
            {
                let key = x[i].0.as_str();
                proof {
                    lemma_has_member(x@, i as int);
                }
                let at = match last_index(x, key) {
                    Some(j) => j,
                    None => i,
                };
                assert(members(x@)[key@] == x@[at as int].1@);
                assert(decreases_to!(*a => a->Object_0));
                assert(decreases_to!(*x => x@));
                assert(decreases_to!(x@ => x@[at as int]));
                assert(decreases_to!(x@[at as int] => x@[at as int].1));
                match last_index(y, key) {
                    Some(j) => {
                        assert(members(y@)[key@] == y@[j as int].1@);
                        if !json_same(&x[at].1, &y[j].1) {
                            assert(!alike(members(x@)[key@], members(y@)[key@]));
                            return false;
                        }
                    },
                    None => {
                        assert(!members(y@).dom().contains(key@));
                        return false;
                    },
                }
                i = i + 1;
            }
            let mut k: usize = 0;
            while k < y.len()
                invariant
                    k <= y@.len(),
                    a@ == JsonView::Object(members(x@)),
                    b@ == JsonView::Object(members(y@)),
                    forall|j: int|
                        0 <= j < k ==> members(x@).dom().contains((#[trigger] y@[j]).0@),
                decreases y@.len() - k,
            {
                proof {
                    lemma_has_member(y@, k as int);
                }
                match last_index(x, y[k].0.as_str()) {
                    Some(_) => {},
                    None => {
                        assert(!members(x@).dom().contains(y@[k as int].0@));
                        return false;
                    },
                }
                k = k + 1;
            }
            proof {
                assert forall|key: Seq<char>| members(x@).dom().contains(key) == members(
                    y@,
                ).dom().contains(key) by {
                    lemma_last_with(x@, key, x@.len() as int);
                    lemma_last_with(y@, key, y@.len() as int);
                    let p = last_with(x@, key, x@.len() as int);
                    let q = last_with(y@, key, y@.len() as int);
                    if p >= 0 {
                        assert(x@[p].0@ == key);
                    }
                    if q >= 0 {
                        assert(y@[q].0@ == key);
                    }
                }
                assert forall|key: Seq<char>| #[trigger] members(x@).dom().contains(
                    key,
                ) implies alike(members(x@)[key], members(y@)[key]) by {
                    lemma_last_with(x@, key, x@.len() as int);
                    let p = last_with(x@, key, x@.len() as int);
                    assert(x@[p].0@ == key);
                }
                assert(members(x@).dom() =~= members(y@).dom());
                assert(alike(JsonView::Object(members(x@)), JsonView::Object(members(y@))));
            }
            true
        },
        _ => false,
    }
}

/// `serde_json::Value`, a parsed JSON document.
#[verifier::external_type_specification]
#[verifier::external_body]
pub struct ExValue(serde_json::Value);

/// What a parsed document says.
pub uninterp spec fn value_contents(v: serde_json::Value) -> JsonView;

/// What `serde_json` reads from a text: a document, or the words of its error.
pub uninterp spec fn json_read(text: Seq<char>) -> Result<JsonView, Seq<char>>;

/// The document that `serde_json` holds for a value.
pub uninterp spec fn value_for(v: JsonView) -> serde_json::Value;

/// The compact text that `serde_json` writes for a document.
pub uninterp spec fn value_text(v: serde_json::Value) -> Seq<char>;

/// Calls `serde_json::from_str`. What it reads depends on the text alone.
#[verifier::external_body]
fn read_value(text: &str) -> (r: Result<serde_json::Value, String>)
    ensures
        (match r {
            Ok(v) => json_read(text@) == Ok::<JsonView, Seq<char>>(value_contents(v)),
            Err(e) => json_read(text@) == Err::<JsonView, Seq<char>>(e@),
        }),
{
    serde_json::from_str::<serde_json::Value>(text).map_err(|e| e.to_string())
}

/// Takes a `serde_json::Value` apart, one variant for one. An integer that fits `u64` is
/// `Pos`, another integer `Neg`; any other number is kept as `serde_json` writes it.
#[verifier::external_body]
fn open_value(v: serde_json::Value) -> (r: Json)
    ensures
        r@ == value_contents(v),
{
    match v {
        serde_json::Value::Null => Json::Null,
        serde_json::Value::Bool(b) => Json::Bool(b),
        serde_json::Value::Number(n) => match (n.as_u64(), n.as_i64()) {
            (Some(p), _) => Json::Pos(p),
            (None, Some(m)) => Json::Neg(m),
            (None, None) => Json::Float(n.to_string()),
        },
        serde_json::Value::String(s) => Json::Text(s),
        serde_json::Value::Array(a) => Json::List(a.into_iter().map(open_value).collect()),
        serde_json::Value::Object(o) => Json::Object(
            o.into_iter().map(|(k, x)| (k, open_value(x))).collect(),
        ),
    }
}

/// A list of texts.
pub open spec fn is_text_list(v: JsonView) -> bool {
    v matches JsonView::List(l) && forall|i: int| 0 <= i < l.len() ==> #[trigger] l[i] is Text
}

/// A value with at most so many lists and objects inside one another, whose numbers are
/// integers or zero. A `Neg` is negative.
pub open spec fn settled(v: JsonView, depth: nat) -> bool
    decreases depth,
{
    match v {
        JsonView::Neg(n) => n < 0,
        JsonView::Float(s) => s == "0.0"@,
        JsonView::List(l) => depth > 0 && forall|i: int|
            0 <= i < l.len() ==> settled(#[trigger] l[i], (depth - 1) as nat),
        JsonView::Object(m) => depth > 0 && forall|k: Seq<char>| #[trigger]
            m.dom().contains(k) ==> settled(m[k], (depth - 1) as nat),
        _ => true,
    }
}

/// A value that is read back as it was written. `serde_json` reads no deeper than 127 lists
/// and objects, and may read another fraction than it wrote.
pub open spec fn reads_back(v: JsonView) -> bool {
    settled(v, 100)
}

/// Builds a `serde_json::Value`, one variant for one. A `Float` whose text is no number
/// becomes null. The document depends on the value alone, and says what a settled value
/// says. Of values with fractions that is not stated.
#[verifier::external_body]
fn close_value(j: &Json) -> (r: serde_json::Value)
    ensures
        r == value_for(j@),
        reads_back(j@) ==> value_contents(r) == j@,
{
    match j {
        Json::Null => serde_json::Value::Null,
        Json::Bool(b) => serde_json::Value::from(*b),
        Json::Pos(n) => serde_json::Value::from(*n),
        Json::Neg(n) => serde_json::Value::from(*n),
        Json::Float(s) => s.parse().map_or(serde_json::Value::Null, serde_json::Value::Number),
        Json::Text(s) => serde_json::Value::from(s.as_str()),
        Json::List(v) => v.iter().map(close_value).collect(),
        Json::Object(v) => v.iter().map(|p| (p.0.clone(), close_value(&p.1))).collect(),
    }
}

/// Calls `serde_json::Value::to_string`. The text depends on the document alone, and reads
/// back as the document where that is settled. That of a list of texts is one line in
/// brackets.
#[verifier::external_body]
fn show_value(v: &serde_json::Value) -> (r: String)
    ensures
        r@ == value_text(*v),
        (reads_back(value_contents(*v)) ==> json_read(r@) == Ok::<JsonView, Seq<char>>(
            value_contents(*v),
        )),
        is_text_list(value_contents(*v)) ==> r@.len() >= 2 && r@[0] == '[' && r@.last() == ']'
            && !r@.contains('\n'),
{
    v.to_string()
}

/// The indented text that `serde_json` writes for a document.
pub uninterp spec fn value_pretty(v: serde_json::Value) -> Seq<char>;

/// Calls `serde_json::to_string_pretty`, which cannot fail on a document. The text depends
/// on the document alone, and reads back as the document where that is settled.
#[verifier::external_body]
fn show_pretty(v: &serde_json::Value) -> (r: Option<String>)
    ensures
        r is Some,
        r.unwrap()@ == value_pretty(*v),
        (reads_back(value_contents(*v)) ==> json_read(r.unwrap()@) == Ok::<JsonView, Seq<char>>(
            value_contents(*v),
        )),
{
    serde_json::to_string_pretty(v).ok()
}

/// The indented text of a value.
pub open spec fn json_pretty(v: JsonView) -> Seq<char> {
    value_pretty(value_for(v))
}

/// Writes a value as indented text. A settled value is read back from it.
pub fn write_pretty(j: &Json) -> (r: String)
    ensures
        r@ == json_pretty(j@),
        reads_back(j@) ==> json_read(r@) == Ok::<JsonView, Seq<char>>(j@),
{
    match show_pretty(&close_value(j)) {
        Some(t) => t,
        None => String::new(),
    }
}

/// The text of a value.
pub open spec fn json_text(v: JsonView) -> Seq<char> {
    value_text(value_for(v))
}

/// Reads a value from its text, or gives the words of the error.
pub fn parse_json(text: &str) -> (r: Result<Json, String>)
    ensures
        (match r {
            Ok(j) => json_read(text@) == Ok::<JsonView, Seq<char>>(j@),
            Err(e) => json_read(text@) == Err::<JsonView, Seq<char>>(e@),
        }),
{
    match read_value(text) {
        Ok(v) => Ok(open_value(v)),
        Err(e) => Err(e),
    }
}

/// Writes a value as text. A settled value is read back from it. The text of a list of
/// texts is one line in brackets.
pub fn write_json(j: &Json) -> (r: String)
    ensures
        r@ == json_text(j@),
        reads_back(j@) ==> json_read(r@) == Ok::<JsonView, Seq<char>>(j@),
        is_text_list(j@) ==> reads_back(j@),
        is_text_list(j@) ==> r@.len() >= 2 && r@[0] == '[' && r@.last() == ']' && !r@.contains(
            '\n',
        ),
{
    proof {
        reveal_with_fuel(settled, 2);
    }
    show_value(&close_value(j))
}

} // verus!
