//! JSON documents as the persistence formats read them, through
//! `serde_json`'s `Value`.
//!
//! A `Value` is seen as the map from each JSON pointer (RFC 6901) inside it
//! to the node found there, children left out: `""` is the value itself,
//! `"/k"` a member of an object, `"/0"` an element of an array.

use vstd::prelude::*;
use crate::text::{dec, digit_char, lemma_dec_injective};

verus! {

#[verifier::external_type_specification]
#[verifier::external_body]
pub struct ExJsonValue(serde_json::Value);

/// One node of a JSON document, without its children.
pub enum Node {
    Null,
    Bool(bool),
    /// A number, with the value `Value::as_u64` gives: `Some` when it was
    /// written as an integer in `0..=u64::MAX` (not `1.0`, not `-1`).
    Num(Option<u64>),
    Str(Seq<char>),
    /// An array of that many elements.
    Arr(nat),
    Obj,
}

/// The nodes of a parsed document, by JSON pointer.
pub uninterp spec fn json_nodes(v: serde_json::Value) -> Map<Seq<char>, Node>;

/// The document `text` holds, when it is JSON.
pub uninterp spec fn json_parse(text: Seq<char>) -> Option<Map<Seq<char>, Node>>;

/// A reference token of a JSON pointer: `~` as `~0`, `/` as `~1`.
pub open spec fn escape_token(k: Seq<char>) -> Seq<char>
    decreases k.len(),
{
    if k.len() == 0 {
        seq![]
    } else {
        escape_token(k.drop_last()) + if k.last() == '~' {
            seq!['~', '0']
        } else if k.last() == '/' {
            seq!['~', '1']
        } else {
            seq![k.last()]
        }
    }
}

/// The node at the top of `m`.
pub open spec fn root(m: Map<Seq<char>, Node>) -> Option<Node> {
    if m.contains_key(Seq::empty()) {
        Some(m[Seq::empty()])
    } else {
        None
    }
}

/// The nodes below pointer `p`, as pointers relative to it.
pub open spec fn subtree(m: Map<Seq<char>, Node>, p: Seq<char>) -> Map<Seq<char>, Node> {
    Map::new(
        |k: Seq<char>| m.contains_key(p + k) && (k.len() == 0 || k[0] == '/'),
        |k: Seq<char>| m[p + k],
    )
}

/// `Value::get(key)`: the member `key` of an object.
pub open spec fn get_s(m: Map<Seq<char>, Node>, key: Seq<char>) -> Option<Map<Seq<char>, Node>> {
    let p = seq!['/'] + escape_token(key);
    if root(m) == Some(Node::Obj) && m.contains_key(p) {
        Some(subtree(m, p))
    } else {
        None
    }
}

/// `Value::as_str`.
pub open spec fn as_str_s(m: Map<Seq<char>, Node>) -> Option<Seq<char>> {
    match root(m) {
        Some(Node::Str(s)) => Some(s),
        _ => None,
    }
}

/// `Value::as_u64`.
pub open spec fn as_u64_s(m: Map<Seq<char>, Node>) -> Option<u64> {
    match root(m) {
        Some(Node::Num(n)) => n,
        _ => None,
    }
}

/// `Value::as_bool`.
pub open spec fn as_bool_s(m: Map<Seq<char>, Node>) -> Option<bool> {
    match root(m) {
        Some(Node::Bool(b)) => Some(b),
        _ => None,
    }
}

/// `Value::as_array`: the elements of an array.
pub open spec fn as_array_s(m: Map<Seq<char>, Node>) -> Option<Seq<Map<Seq<char>, Node>>> {
    match root(m) {
        Some(Node::Arr(n)) => Some(Seq::new(n, |i: int| subtree(m, seq!['/'] + dec(i as nat)))),
        _ => None,
    }
}

pub open spec fn get_str_s(m: Map<Seq<char>, Node>, key: Seq<char>) -> Option<Seq<char>> {
    match get_s(m, key) {
        Some(c) => as_str_s(c),
        None => None,
    }
}

pub open spec fn get_array_s(m: Map<Seq<char>, Node>, key: Seq<char>) -> Option<Seq<Map<Seq<char>, Node>>> {
    match get_s(m, key) {
        Some(c) => as_array_s(c),
        None => None,
    }
}

pub open spec fn get_bool_s(m: Map<Seq<char>, Node>, key: Seq<char>) -> Option<bool> {
    match get_s(m, key) {
        Some(c) => as_bool_s(c),
        None => None,
    }
}

pub open spec fn get_u64_s(m: Map<Seq<char>, Node>, key: Seq<char>) -> Option<u64> {
    match get_s(m, key) {
        Some(c) => as_u64_s(c),
        None => None,
    }
}

/// The `Some` results of `f` over `s`, in order.
pub open spec fn keep_some<A, B>(s: Seq<A>, f: spec_fn(A) -> Option<B>) -> Seq<B>
    decreases s.len(),
{
    if s.len() == 0 {
        seq![]
    } else {
        keep_some(s.drop_last(), f) + match f(s.last()) {
            Some(b) => seq![b],
            None => seq![],
        }
    }
}

pub proof fn lemma_keep_some_step<A, B>(s: Seq<A>, f: spec_fn(A) -> Option<B>, i: int)
    requires
        0 <= i < s.len(),
    ensures
        keep_some(s.take(i + 1), f) == keep_some(s.take(i), f) + match f(s[i]) {
            Some(b) => seq![b],
            None => seq![],
        },
{
    assert(s.take(i + 1).drop_last() =~= s.take(i));
}

/// A key that is its own JSON-pointer token: no `/` and no `~`.
pub open spec fn plain_key(k: Seq<char>) -> bool {
    forall|i: int| 0 <= i < k.len() ==> #[trigger] k[i] != '/' && k[i] != '~'
}

/// A document of one node.
pub open spec fn leaf(n: Node) -> Map<Seq<char>, Node> {
    Map::<Seq<char>, Node>::empty().insert(Seq::empty(), n)
}

/// Every pointer is the root or starts with `/`.
pub open spec fn rooted(m: Map<Seq<char>, Node>) -> bool {
    forall|k: Seq<char>| #[trigger] m.contains_key(k) ==> k.len() == 0 || k[0] == '/'
}

/// Pointer `p` is `/t` or lies below it.
pub open spec fn under(p: Seq<char>, t: Seq<char>) -> bool {
    let n = t.len() + 1;
    &&& n <= p.len()
    &&& p.take(n as int) == seq!['/'] + t
    &&& (p.len() == n || p[n as int] == '/')
}

/// `m` with the member or element at token `t` set to the document `c`.
pub open spec fn put_member(
    m: Map<Seq<char>, Node>,
    t: Seq<char>,
    c: Map<Seq<char>, Node>,
) -> Map<Seq<char>, Node> {
    Map::new(
        |p: Seq<char>|
            if under(p, t) {
                c.contains_key(p.skip(t.len() + 1 as int))
            } else {
                m.contains_key(p)
            },
        |p: Seq<char>|
            if under(p, t) {
                c[p.skip(t.len() + 1 as int)]
            } else {
                m[p]
            },
    )
}

/// An array of the documents `cs`.
pub open spec fn arr_nodes(cs: Seq<Map<Seq<char>, Node>>) -> Map<Seq<char>, Node>
    decreases cs.len(),
{
    if cs.len() == 0 {
        leaf(Node::Arr(0))
    } else {
        put_member(arr_nodes(cs.drop_last()), dec((cs.len() - 1) as nat), cs.last()).insert(
            Seq::empty(),
            Node::Arr(cs.len()),
        )
    }
}

/// An object with the members `ms`, in insertion order.
pub open spec fn obj_nodes(ms: Seq<(Seq<char>, Map<Seq<char>, Node>)>) -> Map<Seq<char>, Node>
    decreases ms.len(),
{
    if ms.len() == 0 {
        leaf(Node::Obj)
    } else {
        put_member(obj_nodes(ms.drop_last()), ms.last().0, ms.last().1)
    }
}

/// The number of `/` in a pointer: how deep it reaches.
pub open spec fn slashes(p: Seq<char>) -> nat
    decreases p.len(),
{
    if p.len() == 0 {
        0
    } else {
        slashes(p.drop_last()) + if p.last() == '/' {
            1nat
        } else {
            0nat
        }
    }
}

/// No pointer reaches deeper than `d` levels.
pub open spec fn depth_at_most(m: Map<Seq<char>, Node>, d: nat) -> bool {
    forall|k: Seq<char>| #[trigger] m.contains_key(k) ==> slashes(k) <= d
}

/// Nested well inside `serde_json`'s parsing limit of 128 levels.
pub open spec fn shallow(m: Map<Seq<char>, Node>) -> bool {
    depth_at_most(m, 100)
}

pub proof fn lemma_escape_plain(k: Seq<char>)
    requires
        plain_key(k),
    ensures
        escape_token(k) == k,
    decreases k.len(),
{
    if k.len() > 0 {
        assert(plain_key(k.drop_last()));
        lemma_escape_plain(k.drop_last());
        assert(k.last() == k[k.len() - 1]);
        assert(k =~= k.drop_last() + seq![k.last()]);
    }
}

pub proof fn lemma_dec_plain(n: nat)
    ensures
        plain_key(dec(n)),
        dec(n).len() > 0,
    decreases n,
{
    if n >= 10 {
        lemma_dec_plain(n / 10);
        assert forall|i: int| 0 <= i < dec(n).len() implies #[trigger] dec(n)[i] != '/' && dec(n)[i] != '~' by {
            if i < dec(n / 10).len() {
                assert(dec(n)[i] == dec(n / 10)[i]);
            } else {
                assert(dec(n)[i] == digit_char(n % 10));
                assert(digit_char(n % 10) as u32 == 48 + n % 10);
            }
        }
    } else {
        assert(digit_char(n) as u32 == 48 + n);
    }
}

proof fn lemma_slashes_concat(a: Seq<char>, b: Seq<char>)
    ensures
        slashes(a + b) == slashes(a) + slashes(b),
    decreases b.len(),
{
    if b.len() > 0 {
        lemma_slashes_concat(a, b.drop_last());
        assert((a + b).drop_last() =~= a + b.drop_last());
    } else {
        assert(a + b =~= a);
    }
}

proof fn lemma_slashes_plain(t: Seq<char>)
    requires
        plain_key(t),
    ensures
        slashes(t) == 0,
    decreases t.len(),
{
    if t.len() > 0 {
        assert(plain_key(t.drop_last()));
        lemma_slashes_plain(t.drop_last());
        assert(t.last() == t[t.len() - 1]);
    }
}

/// A pointer below `/t` splits as `/t` and the rest.
proof fn lemma_under_split(p: Seq<char>, t: Seq<char>)
    requires
        under(p, t),
    ensures
        p == seq!['/'] + t + p.skip(t.len() + 1 as int),
        p.skip(t.len() + 1 as int).len() == 0 || p.skip(t.len() + 1 as int)[0] == '/',
{
    assert(p =~= p.take(t.len() + 1 as int) + p.skip(t.len() + 1 as int));
}

/// `/t` followed by a rooted rest lies below `/t`, and below no other plain token.
proof fn lemma_under_join(t: Seq<char>, k: Seq<char>, u: Seq<char>)
    requires
        plain_key(t),
        plain_key(u),
        k.len() == 0 || k[0] == '/',
    ensures
        under(seq!['/'] + t + k, t),
        (seq!['/'] + t + k).skip(t.len() + 1 as int) == k,
        under(seq!['/'] + t + k, u) ==> t == u,
{
    let p = seq!['/'] + t + k;
    assert(p.take(t.len() + 1 as int) =~= seq!['/'] + t);
    assert(p.skip(t.len() + 1 as int) =~= k);
    if under(p, u) && t != u {
        if u.len() == t.len() {
            assert forall|i: int| 0 <= i < t.len() implies t[i] == u[i] by {
                assert(p.take(u.len() + 1 as int)[i + 1] == (seq!['/'] + u)[i + 1]);
            }
            assert(t =~= u);
        } else if u.len() < t.len() {
            assert(p[u.len() + 1 as int] == t[u.len() as int]);
        } else {
            assert(p.take(u.len() + 1 as int)[t.len() + 1 as int] == (seq!['/'] + u)[t.len() + 1 as int]);
            assert(p[t.len() + 1 as int] == k[0]);
            assert(u[t.len() as int] == '/');
        }
    }
}

pub proof fn lemma_leaf(n: Node)
    ensures
        rooted(leaf(n)),
        depth_at_most(leaf(n), 0),
        root(leaf(n)) == Some(n),
{
    assert(slashes(Seq::<char>::empty()) == 0);
}

/// Setting a plain member keeps the root, stays rooted, and nests one level
/// deeper than the member.
pub proof fn lemma_put(m: Map<Seq<char>, Node>, t: Seq<char>, c: Map<Seq<char>, Node>, d: nat)
    requires
        plain_key(t),
        rooted(m),
        rooted(c),
        depth_at_most(m, d + 1),
        depth_at_most(c, d),
    ensures
        rooted(put_member(m, t, c)),
        depth_at_most(put_member(m, t, c), d + 1),
        root(put_member(m, t, c)) == root(m),
{
    let r = put_member(m, t, c);
    assert forall|k: Seq<char>| #[trigger] r.contains_key(k) implies (k.len() == 0 || k[0] == '/')
        && slashes(k) <= d + 1 by {
        if under(k, t) {
            lemma_under_split(k, t);
            let q = k.skip(t.len() + 1 as int);
            lemma_slashes_concat(seq!['/'] + t, q);
            lemma_slashes_concat(seq!['/'], t);
            lemma_slashes_plain(t);
            assert(slashes(seq!['/']) == 1) by {
                assert(seq!['/'].drop_last() =~= Seq::<char>::empty());
                assert(seq!['/'].last() == '/');
                reveal_with_fuel(slashes, 2);
            }
            assert(k[0] == '/');
        }
    }
    assert(!under(Seq::<char>::empty(), t));
}

/// The member at plain token `t` of `put_member(m, t, c)` is `c`; other plain
/// members are those of `m`.
pub proof fn lemma_subtree_put(m: Map<Seq<char>, Node>, t: Seq<char>, c: Map<Seq<char>, Node>, u: Seq<char>)
    requires
        plain_key(t),
        plain_key(u),
        rooted(c),
    ensures
        u == t ==> subtree(put_member(m, t, c), seq!['/'] + u) == c,
        u == t ==> put_member(m, t, c).contains_key(seq!['/'] + u) == c.contains_key(Seq::empty()),
        u != t ==> subtree(put_member(m, t, c), seq!['/'] + u) == subtree(m, seq!['/'] + u),
        u != t ==> put_member(m, t, c).contains_key(seq!['/'] + u) == m.contains_key(seq!['/'] + u),
{
    let r = put_member(m, t, c);
    let pu = seq!['/'] + u;
    assert forall|k: Seq<char>| k.len() == 0 || k[0] == '/' implies #[trigger] r.contains_key(pu + k) == (
    if u == t {
        c.contains_key(k)
    } else {
        m.contains_key(pu + k)
    }) && (r.contains_key(pu + k) ==> r[pu + k] == if u == t {
        c[k]
    } else {
        m[pu + k]
    }) by {
        lemma_under_join(u, k, t);
        assert(pu + k =~= seq!['/'] + u + k);
    }
    assert(pu =~= pu + Seq::<char>::empty());
    if u == t {
        assert forall|k: Seq<char>| #[trigger] c.contains_key(k) implies k.len() == 0 || k[0] == '/' by {}
        assert(subtree(r, pu) =~= c);
    } else {
        assert(subtree(r, pu) =~= subtree(m, pu));
    }
}

/// Members of an object built from distinct plain keys.
pub proof fn lemma_obj(ms: Seq<(Seq<char>, Map<Seq<char>, Node>)>, d: nat)
    requires
        forall|i: int| 0 <= i < ms.len() ==> plain_key(#[trigger] ms[i].0),
        forall|i: int| 0 <= i < ms.len() ==> rooted(#[trigger] ms[i].1),
        forall|i: int| 0 <= i < ms.len() ==> (#[trigger] ms[i].1).contains_key(Seq::empty()),
        forall|i: int| 0 <= i < ms.len() ==> depth_at_most(#[trigger] ms[i].1, d),
        forall|i: int, j: int| 0 <= i < j < ms.len() ==> ms[i].0 != ms[j].0,
    ensures
        rooted(obj_nodes(ms)),
        depth_at_most(obj_nodes(ms), d + 1),
        root(obj_nodes(ms)) == Some(Node::Obj),
        forall|i: int| 0 <= i < ms.len() ==> get_s(obj_nodes(ms), #[trigger] ms[i].0) == Some(ms[i].1),
    decreases ms.len(),
{
    if ms.len() == 0 {
        lemma_leaf(Node::Obj);
    } else {
        let pre = ms.drop_last();
        lemma_obj(pre, d);
        let last = ms.last();
        lemma_put(obj_nodes(pre), last.0, last.1, d);
        assert forall|i: int| 0 <= i < ms.len() implies get_s(obj_nodes(ms), #[trigger] ms[i].0) == Some(ms[i].1) by {
            lemma_escape_plain(ms[i].0);
            lemma_subtree_put(obj_nodes(pre), last.0, last.1, ms[i].0);
            if i < ms.len() - 1 {
                assert(pre[i] == ms[i]);
                assert(get_s(obj_nodes(pre), pre[i].0) == Some(pre[i].1));
            }
        }
    }
}

/// The elements of an array built from rooted documents.
pub proof fn lemma_arr(cs: Seq<Map<Seq<char>, Node>>, d: nat)
    requires
        forall|i: int| 0 <= i < cs.len() ==> rooted(#[trigger] cs[i]),
        forall|i: int| 0 <= i < cs.len() ==> depth_at_most(#[trigger] cs[i], d),
    ensures
        rooted(arr_nodes(cs)),
        depth_at_most(arr_nodes(cs), d + 1),
        root(arr_nodes(cs)) == Some(Node::Arr(cs.len())),
        forall|i: int| 0 <= i < cs.len() ==> subtree(arr_nodes(cs), seq!['/'] + dec(i as nat)) == #[trigger] cs[i],
    decreases cs.len(),
{
    if cs.len() == 0 {
        lemma_leaf(Node::Arr(0));
    } else {
        let pre = cs.drop_last();
        lemma_arr(pre, d);
        let n = (cs.len() - 1) as nat;
        lemma_dec_plain(n);
        lemma_put(arr_nodes(pre), dec(n), cs.last(), d);
        let r0 = put_member(arr_nodes(pre), dec(n), cs.last());
        let r = r0.insert(Seq::empty(), Node::Arr(cs.len()));
        assert forall|i: int| 0 <= i < cs.len() implies subtree(r, seq!['/'] + dec(i as nat)) == #[trigger] cs[i] by {
            lemma_dec_plain(i as nat);
            lemma_subtree_put(arr_nodes(pre), dec(n), cs.last(), dec(i as nat));
            assert(subtree(r, seq!['/'] + dec(i as nat)) =~= subtree(r0, seq!['/'] + dec(i as nat)));
            if i < cs.len() - 1 {
                if dec(i as nat) == dec(n) {
                    lemma_dec_injective(i as nat, n);
                }
                assert(pre[i] == cs[i]);
            }
        }
        assert forall|k: Seq<char>| #[trigger] r.contains_key(k) implies (k.len() == 0 || k[0] == '/')
            && slashes(k) <= d + 1 by {
            if k != Seq::<char>::empty() {
                assert(r0.contains_key(k));
            }
        }
    }
}

/// One more member: the object of the first `i + 1` members, with the same
/// root.
pub proof fn lemma_obj_step(ms: Seq<(Seq<char>, Map<Seq<char>, Node>)>, i: int)
    requires
        0 <= i < ms.len(),
    ensures
        obj_nodes(ms.take(i + 1)) == put_member(obj_nodes(ms.take(i)), ms[i].0, ms[i].1),
        root(obj_nodes(ms.take(i + 1))) == root(obj_nodes(ms.take(i))),
{
    assert(ms.take(i + 1).drop_last() =~= ms.take(i));
    assert(ms.take(i + 1).last() == ms[i]);
    assert(!under(Seq::<char>::empty(), ms[i].0));
}

/// `keep_some` over entries that all give a value gives those values.
pub proof fn lemma_keep_some_all<A, B>(s: Seq<A>, f: spec_fn(A) -> Option<B>, out: Seq<B>)
    requires
        s.len() == out.len(),
        forall|i: int| 0 <= i < s.len() ==> f(#[trigger] s[i]) == Some(out[i]),
    ensures
        keep_some(s, f) == out,
    decreases s.len(),
{
    if s.len() > 0 {
        assert(f(s[s.len() - 1]) == Some(out[s.len() - 1]));
        lemma_keep_some_all(s.drop_last(), f, out.drop_last());
        assert(keep_some(s, f) =~= out.drop_last() + seq![out.last()]);
        assert(out =~= out.drop_last() + seq![out.last()]);
    }
}

/// Reading back an array built from rooted documents gives them.
pub proof fn lemma_as_array(cs: Seq<Map<Seq<char>, Node>>, d: nat)
    requires
        forall|i: int| 0 <= i < cs.len() ==> rooted(#[trigger] cs[i]),
        forall|i: int| 0 <= i < cs.len() ==> depth_at_most(#[trigger] cs[i], d),
    ensures
        as_array_s(arr_nodes(cs)) == Some(cs),
{
    lemma_arr(cs, d);
    let got = Seq::new(cs.len(), |i: int| subtree(arr_nodes(cs), seq!['/'] + dec(i as nat)));
    assert(got =~= cs);
}

/// `serde_json::from_str::<Value>`: the document `text` holds; `None` when
/// it is not JSON.
#[verifier::external_body]
pub(crate) fn parse_value(text: &str) -> (r: Option<serde_json::Value>)
    ensures
        match r {
            Some(v) => json_parse(text@) == Some(json_nodes(v)),
            None => json_parse(text@) is None,
        },
{
    serde_json::from_str::<serde_json::Value>(text).ok()
}

/// `Value::get` with a string key: the member `key` of an object, `None`
/// for a missing key or a value that is no object.
#[verifier::external_body]
pub(crate) fn value_get<'a>(v: &'a serde_json::Value, key: &str) -> (r: Option<&'a serde_json::Value>)
    ensures
        match r {
            Some(c) => get_s(json_nodes(*v), key@) == Some(json_nodes(*c)),
            None => get_s(json_nodes(*v), key@) is None,
        },
{
    v.get(key)
}

/// `Value::as_str`: the text of a string value.
#[verifier::external_body]
pub(crate) fn value_as_str<'a>(v: &'a serde_json::Value) -> (r: Option<&'a str>)
    ensures
        match r {
            Some(s) => as_str_s(json_nodes(*v)) == Some(s@),
            None => as_str_s(json_nodes(*v)) is None,
        },
{
    v.as_str()
}

/// `Value::as_u64`: an integer value in `0..=u64::MAX`.
#[verifier::external_body]
pub(crate) fn value_as_u64(v: &serde_json::Value) -> (r: Option<u64>)
    ensures
        r == as_u64_s(json_nodes(*v)),
{
    v.as_u64()
}

/// `Value::as_bool`: a boolean value.
#[verifier::external_body]
pub(crate) fn value_as_bool(v: &serde_json::Value) -> (r: Option<bool>)
    ensures
        r == as_bool_s(json_nodes(*v)),
{
    v.as_bool()
}

/// `Value::as_array`: the elements of an array value, in order.
#[verifier::external_body]
pub(crate) fn value_as_array<'a>(v: &'a serde_json::Value) -> (r: Option<&'a Vec<serde_json::Value>>)
    ensures
        match r {
            Some(a) => as_array_s(json_nodes(*v)) matches Some(s) && s.len() == a@.len() && forall|i: int|
                0 <= i < s.len() ==> #[trigger] s[i] == json_nodes(a@[i]),
            None => as_array_s(json_nodes(*v)) is None,
        },
{
    v.as_array()
}

/// `Value::String`: a string value.
#[verifier::external_body]
pub(crate) fn value_string(s: String) -> (r: serde_json::Value)
    ensures
        json_nodes(r) == leaf(Node::Str(s@)),
{
    serde_json::Value::String(s)
}

/// `Value::from(u64)`: a non-negative integer value.
#[verifier::external_body]
pub(crate) fn value_u64(n: u64) -> (r: serde_json::Value)
    ensures
        json_nodes(r) == leaf(Node::Num(Some(n))),
{
    serde_json::Value::from(n)
}

/// `Value::Bool`: a boolean value.
#[verifier::external_body]
pub(crate) fn value_bool(b: bool) -> (r: serde_json::Value)
    ensures
        json_nodes(r) == leaf(Node::Bool(b)),
{
    serde_json::Value::Bool(b)
}

/// `Value::Array`: an array of the given values, in order; element `i` is
/// reached by the token `i` written without leading zeros.
#[verifier::external_body]
pub(crate) fn value_array(items: Vec<serde_json::Value>) -> (r: serde_json::Value)
    ensures
        json_nodes(r) == arr_nodes(items@.map_values(|v: serde_json::Value| json_nodes(v))),
{
    serde_json::Value::Array(items)
}

/// `Value::Object(Map::new())`: an object with no members.
#[verifier::external_body]
pub(crate) fn value_object() -> (r: serde_json::Value)
    ensures
        json_nodes(r) == leaf(Node::Obj),
{
    serde_json::Value::Object(serde_json::Map::new())
}

/// `Map::insert` on an object value: sets member `key` to `v`, replacing
/// any member of that key. A plain key is reached by itself as a pointer
/// token and by nothing else.
#[verifier::external_body]
pub(crate) fn object_insert(o: &mut serde_json::Value, key: &str, v: serde_json::Value)
    requires
        root(json_nodes(*old(o))) == Some(Node::Obj),
        plain_key(key@),
    ensures
        json_nodes(*final(o)) == put_member(json_nodes(*old(o)), key@, json_nodes(v)),
{
    if let serde_json::Value::Object(m) = o {
        m.insert(key.to_owned(), v);
    }
}

/// `serde_json::to_string` of a value. Writing a `Value` into memory cannot
/// fail, so the error arm is never taken. `from_str` reads the text back as
/// the same document whenever it nests within its recursion limit of 128
/// levels; `shallow` asks for at most 100.
#[verifier::external_body]
pub(crate) fn value_text(v: &serde_json::Value) -> (r: String)
    ensures
        shallow(json_nodes(*v)) ==> json_parse(r@) == Some(json_nodes(*v)),
{
    serde_json::to_string(v).unwrap_or_default()
}

/// The string member `key` of an object value.
pub fn get_str<'a>(v: &'a serde_json::Value, key: &str) -> (r: Option<&'a str>)
    ensures
        match r {
            Some(s) => get_str_s(json_nodes(*v), key@) == Some(s@),
            None => get_str_s(json_nodes(*v), key@) is None,
        },
{
    match value_get(v, key) {
        Some(c) => value_as_str(c),
        None => None,
    }
}

/// The array member `key` of an object value.
pub fn get_array<'a>(v: &'a serde_json::Value, key: &str) -> (r: Option<&'a Vec<serde_json::Value>>)
    ensures
        match r {
            Some(a) => get_array_s(json_nodes(*v), key@) matches Some(s) && s.len() == a@.len()
                && forall|i: int| 0 <= i < s.len() ==> #[trigger] s[i] == json_nodes(a@[i]),
            None => get_array_s(json_nodes(*v), key@) is None,
        },
{
    match value_get(v, key) {
        Some(c) => value_as_array(c),
        None => None,
    }
}

/// The boolean member `key` of an object value.
pub fn get_bool(v: &serde_json::Value, key: &str) -> (r: Option<bool>)
    ensures
        r == get_bool_s(json_nodes(*v), key@),
{
    match value_get(v, key) {
        Some(c) => value_as_bool(c),
        None => None,
    }
}

/// The integer member `key` (in `0..=u64::MAX`) of an object value.
pub fn get_u64(v: &serde_json::Value, key: &str) -> (r: Option<u64>)
    ensures
        r == get_u64_s(json_nodes(*v), key@),
{
    match value_get(v, key) {
        Some(c) => value_as_u64(c),
        None => None,
    }
}

} // verus!
