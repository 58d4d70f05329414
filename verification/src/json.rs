//! JSON documents as plain values, with the lookups that the provider
//! stream decoder and the tool layer read them by.
use crate::text::{chars_eq, chars_of, decimal, digit_char, replace, replace_all, views_of};
use vstd::prelude::*;

verus! {

/// A JSON document in mathematical form.
pub enum JsonV {
    Null,
    Bool(bool),
    /// The value as an unsigned integer where it is one, and its text.
    Number(Option<u64>, Seq<char>),
    Str(Seq<char>),
    Array(Seq<JsonV>),
    /// Members in document order.
    Object(Seq<(Seq<char>, JsonV)>),
}

/// A JSON number: its value where it is a non-negative integer that fits in
/// `u64`, and its decimal text.
#[derive(Debug, Clone, PartialEq)]
pub struct JsonNumber {
    pub unsigned: Option<u64>,
    pub text: String,
}

/// A JSON document.
#[derive(Debug, PartialEq)]
pub enum Json {
    Null,
    Bool(bool),
    Number(JsonNumber),
    Str(String),
    Array(Vec<Json>),
    Object(Vec<(String, Json)>),
}

impl View for Json {
    type V = JsonV;

    open spec fn view(&self) -> JsonV {
        json_view(*self)
    }
}

/// The mathematical form of a document.
pub open spec fn json_view(j: Json) -> JsonV
    decreases j, 2int,
{
    match j {
        Json::Null => JsonV::Null,
        Json::Bool(b) => JsonV::Bool(b),
        Json::Number(n) => JsonV::Number(n.unsigned, n.text@),
        Json::Str(s) => JsonV::Str(s@),
        Json::Array(v) => JsonV::Array(json_seq_view(v@)),
        Json::Object(m) => JsonV::Object(json_members_view(m@)),
    }
}

/// The mathematical form of a sequence of documents.
pub open spec fn json_seq_view(s: Seq<Json>) -> Seq<JsonV>
    decreases s, 1int,
{
    if s.len() == 0 {
        Seq::empty()
    } else {
        json_seq_view(s.drop_last()).push(json_view(s.last()))
    }
}

/// The mathematical form of a sequence of object members.
pub open spec fn json_members_view(s: Seq<(String, Json)>) -> Seq<(Seq<char>, JsonV)>
    decreases s, 1int,
{
    if s.len() == 0 {
        Seq::empty()
    } else {
        json_members_view(s.drop_last()).push((s.last().0@, json_view(s.last().1)))
    }
}

/// Element `i` of a viewed sequence is the view of element `i`.
pub proof fn lemma_seq_view(s: Seq<Json>)
    ensures
        json_seq_view(s).len() == s.len(),
        forall|i: int| 0 <= i < s.len() ==> #[trigger] json_seq_view(s)[i] == json_view(s[i]),
    decreases s.len(),
{
    if s.len() > 0 {
        lemma_seq_view(s.drop_last());
    }
}

/// Member `i` of a viewed member sequence is the view of member `i`.
pub proof fn lemma_members_view(s: Seq<(String, Json)>)
    ensures
        json_members_view(s).len() == s.len(),
        forall|i: int|
            0 <= i < s.len() ==> #[trigger] json_members_view(s)[i] == (s[i].0@, json_view(s[i].1)),
    decreases s.len(),
{
    if s.len() > 0 {
        lemma_members_view(s.drop_last());
    }
}

/// The value of the first member named `key`.
pub open spec fn member_of(members: Seq<(Seq<char>, JsonV)>, key: Seq<char>) -> Option<JsonV>
    decreases members.len(),
{
    if members.len() == 0 {
        None
    } else if members[0].0 == key {
        Some(members[0].1)
    } else {
        member_of(members.skip(1), key)
    }
}

/// Index of the first member named `key`, if any.
pub open spec fn member_index(members: Seq<(Seq<char>, JsonV)>, key: Seq<char>) -> int
    decreases members.len(),
{
    if members.len() == 0 {
        -1
    } else if members[0].0 == key {
        0
    } else {
        let k = member_index(members.skip(1), key);
        if k < 0 { -1 } else { k + 1 }
    }
}

pub proof fn lemma_member_index(members: Seq<(Seq<char>, JsonV)>, key: Seq<char>)
    ensures
        member_index(members, key) < members.len(),
        member_index(members, key) >= 0 ==> members[member_index(members, key)].0 == key
            && member_of(members, key) == Some(members[member_index(members, key)].1)
            && forall|j: int| 0 <= j < member_index(members, key) ==> members[j].0 != key,
        member_index(members, key) < 0 ==> member_of(members, key) is None
            && forall|j: int| 0 <= j < members.len() ==> members[j].0 != key,
    decreases members.len(),
{
    if members.len() > 0 && members[0].0 != key {
        lemma_member_index(members.skip(1), key);
        let k = member_index(members.skip(1), key);
        assert forall|j: int| 0 <= j < members.len() && (k < 0 || j < k + 1) implies members[j].0 != key by {
            if j > 0 {
                assert(members[j] == members.skip(1)[j - 1]);
            }
        }
    }
}

/// `value.get(key)`: the member named `key` of an object.
pub open spec fn json_get(v: JsonV, key: Seq<char>) -> Option<JsonV> {
    match v {
        JsonV::Object(m) => member_of(m, key),
        _ => None,
    }
}

/// `value[key]`: the member named `key` of an object, or null.
pub open spec fn json_field(v: JsonV, key: Seq<char>) -> JsonV {
    match json_get(v, key) {
        Some(x) => x,
        None => JsonV::Null,
    }
}

/// `value.as_u64()`.
pub open spec fn json_as_u64(v: JsonV) -> Option<u64> {
    match v {
        JsonV::Number(u, _) => u,
        _ => None,
    }
}

/// `value.as_str()`.
pub open spec fn json_as_str(v: JsonV) -> Option<Seq<char>> {
    match v {
        JsonV::Str(s) => Some(s),
        _ => None,
    }
}

/// `s.split(c)`: the pieces of `s` between occurrences of `c` (always at
/// least one piece).
pub open spec fn split_on(s: Seq<char>, c: char) -> Seq<Seq<char>>
    decreases s.len(),
{
    if s.len() == 0 {
        seq![Seq::empty()]
    } else if s[0] == c {
        seq![Seq::empty()] + split_on(s.skip(1), c)
    } else {
        let rest = split_on(s.skip(1), c);
        rest.update(0, seq![s[0]] + rest[0])
    }
}

proof fn lemma_split_nonempty(s: Seq<char>, c: char)
    ensures
        split_on(s, c).len() >= 1,
    decreases s.len(),
{
    if s.len() > 0 {
        lemma_split_nonempty(s.skip(1), c);
    }
}

/// Decimal value of a digit sequence.
pub open spec fn digits_value(t: Seq<char>) -> nat
    decreases t.len(),
{
    if t.len() == 0 {
        0
    } else {
        digits_value(t.drop_last()) * 10 + ((t.last() as nat) - ('0' as nat)) as nat
    }
}

/// Every character of `t` is an ASCII digit.
pub open spec fn all_digits(t: Seq<char>) -> bool {
    forall|i: int| 0 <= i < t.len() ==> '0' <= #[trigger] t[i] <= '9'
}

/// How a JSON pointer token is read as an array index: decimal digits, no
/// sign, no leading zero, and within `usize`.
pub open spec fn pointer_index(t: Seq<char>) -> Option<nat> {
    if t.len() > 0 && all_digits(t) && (t.len() == 1 || t[0] != '0') && digits_value(t)
        <= usize::MAX {
        Some(digits_value(t))
    } else {
        None
    }
}

/// A pointer token with its escapes `~1` and `~0` resolved, in that order.
pub open spec fn unescape_token(t: Seq<char>) -> Seq<char> {
    replace_all(replace_all(t, seq!['~', '1'], seq!['/']), seq!['~', '0'], seq!['~'])
}

/// One step of a pointer walk.
pub open spec fn pointer_step(v: JsonV, token: Seq<char>) -> Option<JsonV> {
    match v {
        JsonV::Object(m) => member_of(m, token),
        JsonV::Array(a) => match pointer_index(token) {
            Some(n) => if n < a.len() { Some(a[n as int]) } else { None },
            None => None,
        },
        _ => None,
    }
}

/// Follows the raw tokens `tokens` from `v`.
pub open spec fn pointer_walk(v: JsonV, tokens: Seq<Seq<char>>) -> Option<JsonV>
    decreases tokens.len(),
{
    if tokens.len() == 0 {
        Some(v)
    } else {
        match pointer_step(v, unescape_token(tokens[0])) {
            Some(next) => pointer_walk(next, tokens.skip(1)),
            None => None,
        }
    }
}

/// `value.pointer(p)`: the value that the JSON pointer `p` designates.
pub open spec fn json_pointer(v: JsonV, p: Seq<char>) -> Option<JsonV> {
    if p.len() == 0 {
        Some(v)
    } else if p[0] != '/' {
        None
    } else {
        pointer_walk(v, split_on(p, '/').skip(1))
    }
}

/// The mathematical form of a parse outcome.
pub open spec fn parse_outcome(r: Result<Json, String>) -> Result<JsonV, Seq<char>> {
    match r {
        Ok(j) => Ok(j@),
        Err(e) => Err(e@),
    }
}

/// What `serde_json::from_str::<serde_json::Value>` gives for a text: the
/// document, or the text of the error.
pub uninterp spec fn serde_json_parse(text: Seq<char>) -> Result<JsonV, Seq<char>>;

/// `serde_json::Value`, a document as the crate holds it.
#[verifier::external_type_specification]
#[verifier::external_body]
pub struct ExSerdeJsonValue(serde_json::Value);

/// Converts a `serde_json::Value` into this crate's document type, member by
/// member; nothing is claimed of it on its own (the parse below states the
/// outcome).
#[verifier::external_body]
fn json_from_serde(value: &serde_json::Value) -> Json {
    match value {
        serde_json::Value::Null => Json::Null,
        serde_json::Value::Bool(b) => Json::Bool(*b),
        serde_json::Value::Number(n) => Json::Number(JsonNumber { unsigned: n.as_u64(), text: n.to_string() }),
        serde_json::Value::String(s) => Json::Str(s.clone()),
        serde_json::Value::Array(items) => Json::Array(items.iter().map(json_from_serde).collect()),
        serde_json::Value::Object(m) => Json::Object(m.iter().map(|(k, x)| (k.clone(), json_from_serde(x))).collect()),
    }
}

/// Converts this crate's document into a `serde_json::Value`, member by
/// member (a later member of a repeated name replacing an earlier one, as
/// `serde_json::Map::insert` does); nothing is claimed of it on its own.
#[verifier::external_body]
fn json_to_serde(value: &Json) -> serde_json::Value {
    match value {
        Json::Null => serde_json::Value::Null,
        Json::Bool(b) => serde_json::Value::Bool(*b),
        Json::Number(n) => serde_json::from_str(&n.text).unwrap_or(serde_json::Value::Null),
        Json::Str(s) => serde_json::Value::String(s.clone()),
        Json::Array(items) => serde_json::Value::Array(items.iter().map(json_to_serde).collect()),
        Json::Object(m) => serde_json::Value::Object(m.iter().map(|(k, x)| (k.clone(), json_to_serde(x))).collect()),
    }
}

/// The compact text `serde_json` writes for a document.
pub uninterp spec fn serde_json_text(v: JsonV) -> Seq<char>;

/// Writes a document as compact JSON text (`serde_json::Value`'s
/// `Display`); the text is named, not restated.
#[verifier::external_body]
pub(crate) fn json_text(value: &Json) -> (s: String)
    ensures
        s@ == serde_json_text(value@),
{
    json_to_serde(value).to_string()
}

/// Parses JSON text with `serde_json::from_str::<serde_json::Value>`; the
/// contract names the outcome `serde_json_parse`, which a document or an error
/// text, both determined by the input text alone.
#[verifier::external_body]
fn serde_parse(text: &str) -> (r: Result<Json, String>)
    ensures
        parse_outcome(r) == serde_json_parse(text@),
{
    match serde_json::from_str::<serde_json::Value>(text) {
        Ok(value) => Ok(json_from_serde(&value)),
        Err(error) => Err(error.to_string()),
    }
}

impl Json {
    /// Parses JSON text.
    pub fn parse(text: &str) -> (r: Result<Json, String>)
        ensures
            parse_outcome(r) == serde_json_parse(text@),
    {
        serde_parse(text)
    }

    /// An independent copy of this document.
    pub fn copy(&self) -> (r: Json)
        ensures
            r@ == self@,
        decreases self,
    {
        match self {
            Json::Null => Json::Null,
            Json::Bool(b) => Json::Bool(*b),
            Json::Number(n) => Json::Number(JsonNumber { unsigned: n.unsigned, text: n.text.clone() }),
            Json::Str(s) => Json::Str(s.clone()),
            Json::Array(items) => {
                let mut out: Vec<Json> = Vec::new();
                let mut i: usize = 0;
                while i < items.len()
                    invariant
                        *self == Json::Array(*items),
                        i <= items@.len(),
                        json_seq_view(out@) == json_seq_view(items@.take(i as int)),
                    decreases items@.len() - i,
                {
                    proof {
                        assert(decreases_to!(*self => (*self)->Array_0));
                        assert(decreases_to!(*items => items@));
                        assert(decreases_to!(items@ => items@[i as int]));
                        assert(decreases_to!(*self => items@[i as int]));
                    }
                    let x = items[i].copy();
                    let ghost before = out@;
                    out.push(x);
                    proof {
                        assert(out@.drop_last() =~= before);
                        assert(items@.take(i + 1).drop_last() =~= items@.take(i as int));
                    }
                    i = i + 1;
                }
                assert(items@.take(items@.len() as int) =~= items@);
                Json::Array(out)
            },
            Json::Object(members) => {
                let mut out: Vec<(String, Json)> = Vec::new();
                let mut i: usize = 0;
                while i < members.len()
                    invariant
                        *self == Json::Object(*members),
                        i <= members@.len(),
                        json_members_view(out@) == json_members_view(members@.take(i as int)),
                    decreases members@.len() - i,
                {
                    proof {
                        assert(decreases_to!(*self => (*self)->Object_0));
                        assert(decreases_to!(*members => members@));
                        assert(decreases_to!(members@ => members@[i as int]));
                        assert(decreases_to!(members@[i as int] => members@[i as int].1));
                    }
                    let x = (members[i].0.clone(), members[i].1.copy());
                    let ghost before = out@;
                    out.push(x);
                    proof {
                        assert(out@.drop_last() =~= before);
                        assert(members@.take(i + 1).drop_last() =~= members@.take(i as int));
                    }
                    i = i + 1;
                }
                assert(members@.take(members@.len() as int) =~= members@);
                Json::Object(out)
            },
        }
    }
}

/// The mathematical form of an optional borrowed document.
pub open spec fn opt_view(o: Option<&Json>) -> Option<JsonV> {
    match o {
        Some(j) => Some(j@),
        None => None,
    }
}

/// `s.split(c)` over characters.
pub fn split_chars(s: &[char], c: char) -> (r: Vec<Vec<char>>)
    ensures
        views_of(r@) == split_on(s@, c),
        r@.len() >= 1,
{
    let mut done: Vec<Vec<char>> = Vec::new();
    let mut cur: Vec<char> = Vec::new();
    let mut i: usize = 0;
    proof {
        lemma_split_nonempty(s@, c);
        assert(s@.skip(0) =~= s@);
        assert(split_on(s@, c).update(0, seq![] + split_on(s@, c)[0]) =~= split_on(s@, c));
        assert(views_of(done@) + split_on(s@, c) =~= split_on(s@, c));
    }
    while i < s.len()
        invariant
            i <= s@.len(),
            split_on(s@, c) == views_of(done@) + {
                let rest = split_on(s@.skip(i as int), c);
                rest.update(0, cur@ + rest[0])
            },
        decreases s@.len() - i,
    {
        let ghost t = s@.skip(i as int);
        let ghost old_done = views_of(done@);
        let ghost old_cur = cur@;
        proof {
            assert(t.skip(1) =~= s@.skip(i + 1));
            lemma_split_nonempty(t.skip(1), c);
        }
        let ghost r = split_on(s@.skip(i + 1), c);
        if s[i] == c {
            proof {
                assert(split_on(t, c) == seq![Seq::<char>::empty()] + r);
                assert((seq![Seq::<char>::empty()] + r).update(0, old_cur + (seq![Seq::<char>::empty()] + r)[0])
                    =~= seq![old_cur] + r);
            }
            let piece = cur;
            done.push(piece);
            cur = Vec::new();
            proof {
                assert(views_of(done@) =~= old_done.push(old_cur));
                assert(r.update(0, cur@ + r[0]) =~= r);
                assert(split_on(s@, c) =~= views_of(done@) + r.update(0, cur@ + r[0]));
            }
        } else {
            proof {
                assert(split_on(t, c) == r.update(0, seq![t[0]] + r[0]));
                assert(old_cur + (seq![t[0]] + r[0]) =~= old_cur.push(t[0]) + r[0]);
                assert(r.update(0, seq![t[0]] + r[0]).update(0, old_cur + (seq![t[0]] + r[0]))
                    =~= r.update(0, old_cur.push(t[0]) + r[0]));
            }
            cur.push(s[i]);
            proof {
                assert(cur@ == old_cur.push(t[0]));
                assert(split_on(s@, c) =~= views_of(done@) + r.update(0, cur@ + r[0]));
            }
        }
        i = i + 1;
    }
    let piece = cur;
    done.push(piece);
    proof {
        assert(s@.skip(i as int).len() == 0);
        assert(views_of(done@) =~= split_on(s@, c));
    }
    done
}

proof fn lemma_digits_prefix(t: Seq<char>, i: int)
    requires
        0 <= i < t.len(),
    ensures
        digits_value(t.take(i + 1)) == digits_value(t.take(i)) * 10 + (((t[i] as nat) - ('0' as nat)) as nat),
{
    assert(t.take(i + 1).drop_last() =~= t.take(i));
}

proof fn lemma_digits_monotone(t: Seq<char>, i: int)
    requires
        0 <= i <= t.len(),
        all_digits(t),
    ensures
        digits_value(t) >= digits_value(t.take(i)),
    decreases t.len() - i,
{
    if i < t.len() {
        lemma_digits_prefix(t, i);
        lemma_digits_monotone(t, i + 1);
        let a = digits_value(t.take(i));
        assert(a * 10 >= a) by (nonlinear_arith);
    } else {
        assert(t.take(i) =~= t);
    }
}

/// Reads a pointer token as an array index.
pub fn parse_index(t: &[char]) -> (r: Option<usize>)
    ensures
        match r {
            Some(n) => pointer_index(t@) == Some(n as nat),
            None => pointer_index(t@) is None,
        },
{
    if t.len() == 0 || (t.len() > 1 && t[0] == '0') {
        return None;
    }
    let mut v: usize = 0;
    let mut i: usize = 0;
    assert(t@.take(0) =~= Seq::<char>::empty());
    while i < t.len()
        invariant
            i <= t@.len(),
            all_digits(t@.take(i as int)),
            v == digits_value(t@.take(i as int)),
        decreases t@.len() - i,
    {
        let c = t[i];
        if !('0' <= c && c <= '9') {
            assert(!all_digits(t@));
            return None;
        }
        let d = ((c as u32) - ('0' as u32)) as usize;
        proof {
            lemma_digits_prefix(t@, i as int);
            assert(all_digits(t@.take(i + 1))) by {
                assert forall|j: int| 0 <= j < i + 1 implies '0' <= #[trigger] t@.take(i + 1)[j] <= '9' by {
                    if j < i {
                        assert(t@.take(i + 1)[j] == t@.take(i as int)[j]);
                    }
                }
            }
        }
        if v > (usize::MAX - d) / 10 {
            proof {
                assert(v * 10 + d > usize::MAX) by (nonlinear_arith)
                    requires v > (usize::MAX - d) / 10, d <= 9;
                if all_digits(t@) {
                    lemma_digits_monotone(t@, i + 1);
                }
            }
            return None;
        }
        assert(v * 10 + d <= usize::MAX) by (nonlinear_arith)
            requires v <= (usize::MAX - d) / 10, d <= 9;
        v = v * 10 + d;
        i = i + 1;
    }
    assert(t@.take(i as int) =~= t@);
    Some(v)
}

impl Json {
    /// `value.get(key)`: the member named `key` of an object.
    pub fn get(&self, key: &[char]) -> (r: Option<&Json>)
        ensures
            opt_view(r) == json_get(self@, key@),
    {
        match self {
            Json::Object(members) => {
                proof {
                    lemma_members_view(members@);
                    lemma_member_index(json_members_view(members@), key@);
                }
                let mut i: usize = 0;
                while i < members.len()
                    invariant
                        *self == Json::Object(*members),
                        i <= members@.len(),
                        json_members_view(members@).len() == members@.len(),
                        forall|k: int| 0 <= k < members@.len() ==> #[trigger] json_members_view(members@)[k]
                            == (members@[k].0@, json_view(members@[k].1)),
                        forall|j: int| 0 <= j < i ==> members@[j].0@ != key@,
                        member_index(json_members_view(members@), key@) < 0 ==> member_of(json_members_view(members@), key@) is None,
                        member_index(json_members_view(members@), key@) >= 0 ==> ({
                            let m = member_index(json_members_view(members@), key@);
                            &&& json_members_view(members@)[m].0 == key@
                            &&& member_of(json_members_view(members@), key@) == Some(json_members_view(members@)[m].1)
                            &&& forall|j: int| 0 <= j < m ==> json_members_view(members@)[j].0 != key@
                        }),
                        member_index(json_members_view(members@), key@) < 0 ==> forall|j: int| 0 <= j < members@.len() ==> json_members_view(members@)[j].0 != key@,
                    decreases members@.len() - i,
                {
                    let name = chars_of(members[i].0.as_str());
                    if chars_eq(&name, key) {
                        proof {
                            let m = member_index(json_members_view(members@), key@);
                            assert(json_members_view(members@)[i as int].0 == key@);
                            if m >= 0 && m < i {
                                assert(members@[m].0@ != key@);
                            }
                            assert(m >= 0);
                            assert(m == i);
                        }
                        return Some(&members[i].1);
                    }
                    i = i + 1;
                }
                proof {
                    let m = member_index(json_members_view(members@), key@);
                    if m >= 0 {
                        assert(members@[m].0@ != key@);
                    }
                }
                None
            },
            _ => None,
        }
    }

    /// `value.get(key)` for a key given as text.
    pub fn get_str(&self, key: &str) -> (r: Option<&Json>)
        ensures
            opt_view(r) == json_get(self@, key@),
    {
        let k = chars_of(key);
        self.get(&k)
    }

    /// `value.as_u64()`.
    pub fn as_u64(&self) -> (r: Option<u64>)
        ensures
            r == json_as_u64(self@),
    {
        match self {
            Json::Number(n) => n.unsigned,
            _ => None,
        }
    }

    /// `value.as_str()`.
    pub fn as_str(&self) -> (r: Option<&String>)
        ensures
            match r {
                Some(s) => json_as_str(self@) == Some(s@),
                None => json_as_str(self@) is None,
            },
    {
        match self {
            Json::Str(s) => Some(s),
            _ => None,
        }
    }

    /// `value.as_array()`.
    pub fn as_array(&self) -> (r: Option<&Vec<Json>>)
        ensures
            match r {
                Some(v) => self@ == JsonV::Array(json_seq_view(v@)),
                None => !(self@ is Array),
            },
    {
        match self {
            Json::Array(v) => Some(v),
            _ => None,
        }
    }

    /// One step of a pointer walk: an object member or an array element.
    fn step(&self, token: &[char]) -> (r: Option<&Json>)
        ensures
            opt_view(r) == pointer_step(self@, token@),
    {
        match self {
            Json::Object(_) => self.get(token),
            Json::Array(items) => {
                proof {
                    lemma_seq_view(items@);
                }
                match parse_index(token) {
                    Some(n) => if n < items.len() {
                        Some(&items[n])
                    } else {
                        None
                    },
                    None => None,
                }
            },
            _ => None,
        }
    }

    /// `value.pointer(p)`: the value that the JSON pointer `p` designates.
    pub fn pointer(&self, p: &str) -> (r: Option<&Json>)
        ensures
            opt_view(r) == json_pointer(self@, p@),
    {
        let pc = chars_of(p);
        if pc.len() == 0 {
            return Some(self);
        }
        if pc[0] != '/' {
            return None;
        }
        let tokens = split_chars(&pc, '/');
        let ghost all = views_of(tokens@);
        let tilde_one = ['~', '1'];
        let tilde_zero = ['~', '0'];
        let slash = ['/'];
        let tilde = ['~'];
        assert(tilde_one@ =~= seq!['~', '1']);
        assert(tilde_zero@ =~= seq!['~', '0']);
        assert(slash@ =~= seq!['/']);
        assert(tilde@ =~= seq!['~']);
        let mut cur: &Json = self;
        let mut k: usize = 1;
        assert(all.skip(1).skip(0) =~= all.skip(1));
        assert(json_pointer(self@, p@) == pointer_walk(self@, all.skip(1)));
        while k < tokens.len()
            invariant
                json_pointer(self@, p@) == pointer_walk(self@, all.skip(1)),
                1 <= k <= tokens@.len(),
                all == views_of(tokens@),
                all.len() == tokens@.len(),
                tilde_one@ == seq!['~', '1'],
                tilde_zero@ == seq!['~', '0'],
                slash@ == seq!['/'],
                tilde@ == seq!['~'],
                pointer_walk(self@, all.skip(1)) == pointer_walk(cur@, all.skip(k as int)),
            decreases tokens@.len() - k,
        {
            let once = replace(tokens[k].as_slice(), &tilde_one, &slash);
            let tok = replace(once.as_slice(), &tilde_zero, &tilde);
            proof {
                assert(all.skip(k as int)[0] == tokens@[k as int]@);
                assert(tok@ == unescape_token(all.skip(k as int)[0]));
                assert(all.skip(k as int).skip(1) =~= all.skip(k + 1));
            }
            match cur.step(&tok) {
                Some(next) => {
                    cur = next;
                },
                None => {
                    proof {
                        assert(all.skip(k as int).len() > 0);
                        assert(pointer_walk(cur@, all.skip(k as int)) is None);
                        assert(json_pointer(self@, p@) == pointer_walk(self@, all.skip(1)));
                    }
                    return None;
                },
            }
            k = k + 1;
        }
        assert(all.skip(k as int).len() == 0);
        Some(cur)
    }
}

/// `members` with member `key` set to `value`: the first member of that
/// name takes the value in place, or a new member is appended.
pub open spec fn with_member(members: Seq<(Seq<char>, JsonV)>, key: Seq<char>, value: JsonV) -> Seq<(Seq<char>, JsonV)> {
    let k = member_index(members, key);
    if k >= 0 {
        members.update(k, (key, value))
    } else {
        members.push((key, value))
    }
}

/// Sets member `key` of an object's members to `value` (`Map::insert`).
pub fn set_member(members: &mut Vec<(String, Json)>, key: String, value: Json)
    ensures
        json_members_view(final(members)@) == with_member(json_members_view(old(members)@), key@, value@),
{
    let ghost mv = json_members_view(members@);
    proof {
        lemma_members_view(members@);
        lemma_member_index(mv, key@);
    }
    let mut i: usize = 0;
    while i < members.len()
        invariant
            i <= members@.len(),
            members@ == old(members)@,
            mv == json_members_view(members@),
            mv.len() == members@.len(),
            forall|j: int| 0 <= j < members@.len() ==> #[trigger] mv[j] == (members@[j].0@, json_view(members@[j].1)),
            forall|j: int| 0 <= j < i ==> mv[j].0 != key@,
        decreases members@.len() - i,
    {
        if chars_eq(&chars_of(members[i].0.as_str()), &chars_of(key.as_str())) {
            proof {
                lemma_member_index(mv, key@);
                assert(mv[i as int].0 == key@);
            }
            members.set(i, (key, value));
            proof {
                lemma_members_view(members@);
                assert(json_members_view(members@) =~= mv.update(i as int, (key@, value@)));
            }
            return;
        }
        i = i + 1;
    }
    proof {
        lemma_member_index(mv, key@);
    }
    members.push((key, value));
    proof {
        lemma_members_view(members@);
        assert(json_members_view(members@) =~= mv.push((key@, value@)));
    }
}

/// How `str::parse` reads an unsigned integer: an optional `+`, then one or
/// more ASCII digits; the value, however large.
pub open spec fn unsigned_text(t: Seq<char>) -> Option<nat> {
    let body = if t.len() > 0 && t[0] == '+' {
        t.skip(1)
    } else {
        t
    };
    if body.len() > 0 && all_digits(body) {
        Some(digits_value(body))
    } else {
        None
    }
}

/// `str::parse::<u64>`: the value of an unsigned integer text that fits.
#[verifier::loop_isolation(false)]
pub fn parse_u64(t: &[char]) -> (r: Option<u64>)
    ensures
        match unsigned_text(t@) {
            Some(n) => if n <= u64::MAX {
                r == Some(n as u64)
            } else {
                r is None
            },
            None => r is None,
        },
{
    let start: usize = if t.len() > 0 && t[0] == '+' {
        1
    } else {
        0
    };
    let ghost body = if t@.len() > 0 && t@[0] == '+' {
        t@.skip(1)
    } else {
        t@
    };
    assert(body =~= t@.skip(start as int));
    if start >= t.len() {
        return None;
    }
    let mut v: u64 = 0;
    let mut i: usize = start;
    assert(body.take(0) =~= Seq::<char>::empty());
    while i < t.len()
        invariant
            start <= i <= t@.len(),
            start < t@.len(),
            body == t@.skip(start as int),
            all_digits(body.take(i - start)),
            v == digits_value(body.take(i - start)),
        decreases t@.len() - i,
    {
        let c = t[i];
        let k: usize = i - start;
        assert(body[k as int] == t@[i as int]);
        if !('0' <= c && c <= '9') {
            assert(!all_digits(body));
            return None;
        }
        let d = ((c as u32) - ('0' as u32)) as u64;
        proof {
            lemma_digits_prefix(body, k as int);
            assert(all_digits(body.take(k + 1))) by {
                assert forall|j: int| 0 <= j < k + 1 implies '0' <= #[trigger] body.take(k + 1)[j] <= '9' by {
                    if j < k {
                        assert(body.take(k + 1)[j] == body.take(k as int)[j]);
                    }
                }
            }
        }
        if v > (u64::MAX - d) / 10 {
            proof {
                assert(v * 10 + d > u64::MAX) by (nonlinear_arith)
                    requires v > (u64::MAX - d) / 10, d <= 9;
                if all_digits(body) {
                    lemma_digits_monotone(body, k + 1);
                }
            }
            return None;
        }
        assert(v * 10 + d <= u64::MAX) by (nonlinear_arith)
            requires v <= (u64::MAX - d) / 10, d <= 9;
        v = v * 10 + d;
        i = i + 1;
    }
    assert(body.take(i - start) =~= body);
    Some(v)
}

/// Decimal text reads back as its number.
pub proof fn lemma_decimal_reads_back(n: nat)
    ensures
        all_digits(decimal(n)),
        decimal(n).len() > 0,
        digits_value(decimal(n)) == n,
        decimal(n)[0] != '+',
    decreases n,
{
    let d = n % 10;
    assert(d < 10);
    assert((digit_char(d) as nat) - ('0' as nat) == d);
    if n < 10 {
        assert(d == n);
        let t = decimal(n);
        assert(t.drop_last() =~= Seq::<char>::empty());
        assert(digits_value(t) == digits_value(t.drop_last()) * 10 + ((t.last() as nat) - ('0' as nat)) as nat);
    } else {
        lemma_decimal_reads_back(n / 10);
        let t = decimal(n);
        assert(t.drop_last() =~= decimal(n / 10));
        assert(t.last() == digit_char(d));
        assert((n / 10) * 10 + n % 10 == n) by (nonlinear_arith);
        assert(digits_value(t) == digits_value(t.drop_last()) * 10 + ((t.last() as nat) - ('0' as nat)) as nat);
        assert forall|i: int| 0 <= i < t.len() implies '0' <= #[trigger] t[i] <= '9' by {
            if i < t.len() - 1 {
                assert(t[i] == decimal(n / 10)[i]);
            }
        }
        assert(t[0] == decimal(n / 10)[0]);
    }
}

/// A number's decimal text, read as an unsigned integer, is that number.
pub proof fn law_unsigned_decimal_round_trip(n: nat)
    ensures
        unsigned_text(decimal(n)) == Some(n),
{
    lemma_decimal_reads_back(n);
}

/// What is set is what is read: after member `key` of an object is set to
/// `value`, reading `key` gives `value`, and every other member reads as
/// before.
pub proof fn law_set_then_get(members: Seq<(Seq<char>, JsonV)>, key: Seq<char>, value: JsonV, other: Seq<char>)
    ensures
        member_of(with_member(members, key, value), key) == Some(value),
        other != key ==> member_of(with_member(members, key, value), other) == member_of(members, other),
    decreases members.len(),
{
    lemma_member_index(members, key);
    let m2 = with_member(members, key, value);
    if members.len() > 0 {
        if members[0].0 == key {
            assert(m2[0] == (key, value));
            assert(m2.skip(1) =~= members.skip(1));
            if other != key {
                assert(member_of(m2, other) == member_of(m2.skip(1), other));
                assert(member_of(members, other) == member_of(members.skip(1), other));
            }
        } else {
            law_set_then_get(members.skip(1), key, value, other);
            let k = member_index(members, key);
            assert(m2[0] == members[0]);
            if k >= 0 {
                assert(member_index(members.skip(1), key) == k - 1);
                assert(m2.skip(1) =~= with_member(members.skip(1), key, value));
            } else {
                assert(member_index(members.skip(1), key) < 0);
                assert(m2.skip(1) =~= with_member(members.skip(1), key, value));
            }
            if other != key && members[0].0 != other {
                assert(member_of(m2, other) == member_of(m2.skip(1), other));
            }
        }
    } else {
        assert(m2 =~= seq![(key, value)]);
        assert(m2.skip(1) =~= Seq::<(Seq<char>, JsonV)>::empty());
    }
}

} // verus!
