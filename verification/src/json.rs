//! Decoded JSON-RPC response values, their canonical form, and structural
//! equality that is insensitive to the order of object fields.

use vstd::prelude::*;

verus! {

/// A decoded JSON value. Numbers carry their canonical decimal rendering so
/// that no floating point arithmetic is ever performed here; two numbers are
/// equal exactly when their canonical texts are.
pub enum Json {
    Null,
    Bool(bool),
    Num(String),
    Str(String),
    Arr(Vec<Json>),
    Obj(Vec<(String, Json)>),
}

/// The mathematical value of a [`Json`] tree.
#[verifier::ext_equal]
pub enum JsonV {
    Null,
    Bool(bool),
    Num(Seq<char>),
    Str(Seq<char>),
    Arr(Seq<JsonV>),
    Obj(Seq<(Seq<char>, JsonV)>),
}

/// The values of the elements of a JSON array.
pub open spec fn arr_view(items: Seq<Json>) -> Seq<JsonV>
    decreases items,
{
    Seq::new(
        items.len(),
        |i: int|
            if 0 <= i < items.len() {
                items[i]@
            } else {
                JsonV::Null
            },
    )
}

/// The values of the fields of a JSON object.
pub open spec fn fields_view(fields: Seq<(String, Json)>) -> Seq<(Seq<char>, JsonV)>
    decreases fields,
{
    Seq::new(
        fields.len(),
        |i: int|
            if 0 <= i < fields.len() {
                (fields[i].0@, fields[i].1@)
            } else {
                (Seq::empty(), JsonV::Null)
            },
    )
}

impl View for Json {
    type V = JsonV;

    open spec fn view(&self) -> JsonV
        decreases self,
    {
        match self {
            Json::Null => JsonV::Null,
            Json::Bool(b) => JsonV::Bool(*b),
            Json::Num(s) => JsonV::Num(s@),
            Json::Str(s) => JsonV::Str(s@),
            Json::Arr(items) => JsonV::Arr(arr_view(items@)),
            Json::Obj(fields) => JsonV::Obj(fields_view(fields@)),
        }
    }
}

/// Lexicographic order on strings by Unicode scalar value, the order in
/// which canonical objects list their keys.
pub open spec fn lex_le(a: Seq<char>, b: Seq<char>) -> bool
    decreases a.len(),
{
    if a.len() == 0 {
        true
    } else if b.len() == 0 {
        false
    } else if (a[0] as u32) < (b[0] as u32) {
        true
    } else if (a[0] as u32) > (b[0] as u32) {
        false
    } else {
        lex_le(a.drop_first(), b.drop_first())
    }
}

/// Any two strings are comparable.
pub proof fn lemma_lex_le_total(a: Seq<char>, b: Seq<char>)
    ensures
        lex_le(a, b) || lex_le(b, a),
    decreases a.len(),
{
    if a.len() == 0 || b.len() == 0 {
    } else if (a[0] as u32) == (b[0] as u32) {
        lemma_lex_le_total(a.drop_first(), b.drop_first());
    }
}

/// Strings ordered both ways are equal.
pub proof fn lemma_lex_le_antisym(a: Seq<char>, b: Seq<char>)
    requires
        lex_le(a, b),
        lex_le(b, a),
    ensures
        a == b,
    decreases a.len(),
{
    if a.len() == 0 {
        assert(b.len() == 0);
        assert(a =~= b);
    } else {
        assert((a[0] as u32) == (b[0] as u32));
        assert(a[0] == b[0]) by {
            vstd::utf8::char_u32_cast(a[0], a[0] as u32);
            vstd::utf8::char_u32_cast(b[0], b[0] as u32);
        }
        lemma_lex_le_antisym(a.drop_first(), b.drop_first());
        assert(a =~= b) by {
            assert(a.drop_first() =~= b.drop_first());
            assert forall|i: int| 0 <= i < a.len() implies a[i] == b[i] by {
                if i > 0 {
                    assert(a.drop_first()[i - 1] == b.drop_first()[i - 1]);
                }
            }
        }
    }
}

/// The order is transitive.
pub proof fn lemma_lex_le_trans(a: Seq<char>, b: Seq<char>, c: Seq<char>)
    requires
        lex_le(a, b),
        lex_le(b, c),
    ensures
        lex_le(a, c),
    decreases a.len(),
{
    if a.len() == 0 || b.len() == 0 || c.len() == 0 {
    } else if (a[0] as u32) == (b[0] as u32) && (b[0] as u32) == (c[0] as u32) {
        lemma_lex_le_trans(a.drop_first(), b.drop_first(), c.drop_first());
    }
}

/// Comparing under a common prefix compares the remainders.
proof fn lemma_lex_le_skip(a: Seq<char>, b: Seq<char>, i: int)
    requires
        0 <= i <= a.len(),
        i <= b.len(),
        forall|k: int| 0 <= k < i ==> a[k] == b[k],
    ensures
        lex_le(a, b) == lex_le(a.skip(i), b.skip(i)),
    decreases i,
{
    if i > 0 {
        assert(a.len() > 0 && b.len() > 0);
        assert((a[0] as u32) == (b[0] as u32));
        lemma_lex_le_skip(a.drop_first(), b.drop_first(), i - 1);
        assert(a.drop_first().skip(i - 1) =~= a.skip(i));
        assert(b.drop_first().skip(i - 1) =~= b.skip(i));
    } else {
        assert(a.skip(0) =~= a);
        assert(b.skip(0) =~= b);
    }
}

/// Decides the lexicographic order on two strings.
pub fn str_le(a: &str, b: &str) -> (r: bool)
    ensures
        r == lex_le(a@, b@),
{
    let alen = a.unicode_len();
    let blen = b.unicode_len();
    let mut i: usize = 0;
    proof {
        lemma_lex_le_skip(a@, b@, 0);
    }
    while i < alen && i < blen
        invariant
            i <= alen && i <= blen,
            alen == a@.len() && blen == b@.len(),
            forall|k: int| 0 <= k < i ==> a@[k] == b@[k],
            lex_le(a@, b@) == lex_le(a@.skip(i as int), b@.skip(i as int)),
        decreases alen - i,
    {
        let ca = a.get_char(i);
        let cb = b.get_char(i);
        if (ca as u32) < (cb as u32) {
            proof {
                assert(a@.skip(i as int)[0] == ca && b@.skip(i as int)[0] == cb);
            }
            return true;
        }
        if (ca as u32) > (cb as u32) {
            proof {
                assert(a@.skip(i as int)[0] == ca && b@.skip(i as int)[0] == cb);
            }
            return false;
        }
        i += 1;
        proof {
            lemma_lex_le_skip(a@, b@, i as int);
        }
    }
    proof {
        if i >= alen {
            assert(a@.skip(i as int).len() == 0);
        } else {
            assert(b@.skip(i as int).len() == 0);
            assert(a@.skip(i as int).len() > 0);
        }
    }
    i >= alen
}

} // verus!

verus! {

/// Keys never repeat inside one object.
pub open spec fn keys_unique(fields: Seq<(Seq<char>, JsonV)>) -> bool {
    forall|i: int, j: int| 0 <= i < j < fields.len() ==> fields[i].0 != fields[j].0
}

/// Some field of the object carries the key `k`.
pub open spec fn has_key(fields: Seq<(Seq<char>, JsonV)>, k: Seq<char>) -> bool {
    exists|i: int| 0 <= i < fields.len() && fields[i].0 == k
}

/// The fields are listed in ascending key order.
pub open spec fn fields_sorted(s: Seq<(Seq<char>, JsonV)>) -> bool {
    forall|i: int, j: int| 0 <= i < j < s.len() ==> lex_le(s[i].0, s[j].0)
}

/// Places `x` before the first field whose key is not below `x`'s.
pub open spec fn insert_sorted(
    x: (Seq<char>, JsonV),
    s: Seq<(Seq<char>, JsonV)>,
) -> Seq<(Seq<char>, JsonV)>
    decreases s.len(),
{
    if s.len() == 0 {
        seq![x]
    } else if lex_le(x.0, s[0].0) {
        seq![x] + s
    } else {
        seq![s[0]] + insert_sorted(x, s.drop_first())
    }
}

/// The fields rearranged into ascending key order by insertion.
pub open spec fn sort_fields(s: Seq<(Seq<char>, JsonV)>) -> Seq<(Seq<char>, JsonV)>
    decreases s.len(),
{
    if s.len() == 0 {
        Seq::empty()
    } else {
        insert_sorted(s[0], sort_fields(s.drop_first()))
    }
}

/// What `insert_sorted` yields: one element longer, the same elements plus
/// `x`, order and key uniqueness preserved.
pub proof fn lemma_insert_sorted_props(x: (Seq<char>, JsonV), s: Seq<(Seq<char>, JsonV)>)
    ensures
        insert_sorted(x, s).len() == s.len() + 1,
        forall|e: (Seq<char>, JsonV)|
            #[trigger] insert_sorted(x, s).contains(e) <==> e == x || s.contains(e),
        forall|k: Seq<char>| #[trigger] has_key(insert_sorted(x, s), k) <==> k == x.0 || has_key(s, k),
        fields_sorted(s) ==> fields_sorted(insert_sorted(x, s)),
        keys_unique(s) && !has_key(s, x.0) ==> keys_unique(insert_sorted(x, s)),
    decreases s.len(),
{
    let r = insert_sorted(x, s);
    if s.len() == 0 {
        assert forall|e: (Seq<char>, JsonV)| #[trigger] r.contains(e) <==> e == x || s.contains(e) by {
            if e == x {
                assert(r[0] == x);
            }
        }
        assert forall|k: Seq<char>| #[trigger] has_key(r, k) <==> k == x.0 || has_key(s, k) by {
            if k == x.0 {
                assert(r[0].0 == k);
            }
        }
    } else if lex_le(x.0, s[0].0) {
        assert(r == seq![x] + s);
        assert forall|e: (Seq<char>, JsonV)| #[trigger] r.contains(e) <==> e == x || s.contains(e) by {
            if r.contains(e) {
                let i = choose|i: int| 0 <= i < r.len() && r[i] == e;
                if i > 0 {
                    assert(s[i - 1] == e);
                    assert(s.contains(e));
                }
            }
            if e == x {
                assert(r[0] == e);
            }
            if s.contains(e) {
                let i = choose|i: int| 0 <= i < s.len() && s[i] == e;
                assert(r[i + 1] == e);
            }
        }
        assert forall|k: Seq<char>| #[trigger] has_key(r, k) <==> k == x.0 || has_key(s, k) by {
            if has_key(r, k) {
                let i = choose|i: int| 0 <= i < r.len() && r[i].0 == k;
                if i > 0 {
                    assert(s[i - 1].0 == k);
                }
            }
            if k == x.0 {
                assert(r[0].0 == k);
            }
            if has_key(s, k) {
                let i = choose|i: int| 0 <= i < s.len() && s[i].0 == k;
                assert(r[i + 1].0 == k);
            }
        }
        if fields_sorted(s) {
            assert forall|i: int, j: int| 0 <= i < j < r.len() implies lex_le(r[i].0, r[j].0) by {
                if i == 0 {
                    if j == 1 {
                        assert(r[j] == s[0]);
                    } else {
                        assert(r[j] == s[j - 1]);
                        lemma_lex_le_trans(x.0, s[0].0, s[j - 1].0);
                    }
                } else {
                    assert(r[i] == s[i - 1] && r[j] == s[j - 1]);
                }
            }
        }
        if keys_unique(s) && !has_key(s, x.0) {
            assert forall|i: int, j: int| 0 <= i < j < r.len() implies r[i].0 != r[j].0 by {
                if i == 0 {
                    assert(r[j] == s[j - 1]);
                    if r[j].0 == x.0 {
                        assert(has_key(s, x.0));
                    }
                } else {
                    assert(r[i] == s[i - 1] && r[j] == s[j - 1]);
                }
            }
        }
    } else {
        let tail = s.drop_first();
        let rt = insert_sorted(x, tail);
        lemma_insert_sorted_props(x, tail);
        assert(r == seq![s[0]] + rt);
        lemma_lex_le_total(x.0, s[0].0);
        assert(lex_le(s[0].0, x.0));
        assert forall|e: (Seq<char>, JsonV)| #[trigger] r.contains(e) <==> e == x || s.contains(e) by {
            if r.contains(e) {
                let i = choose|i: int| 0 <= i < r.len() && r[i] == e;
                if i == 0 {
                    assert(s[0] == e);
                } else {
                    assert(rt[i - 1] == e);
                    assert(rt.contains(e));
                    if e != x {
                        let m = choose|m: int| 0 <= m < tail.len() && tail[m] == e;
                        assert(s[m + 1] == e);
                    }
                }
            }
            if e == x {
                assert(rt.contains(e));
                let m = choose|m: int| 0 <= m < rt.len() && rt[m] == e;
                assert(r[m + 1] == e);
            }
            if s.contains(e) {
                let i = choose|i: int| 0 <= i < s.len() && s[i] == e;
                if i == 0 {
                    assert(r[0] == e);
                } else {
                    assert(tail[i - 1] == e);
                    assert(tail.contains(e));
                    assert(rt.contains(e));
                    let m = choose|m: int| 0 <= m < rt.len() && rt[m] == e;
                    assert(r[m + 1] == e);
                }
            }
        }
        assert forall|k: Seq<char>| #[trigger] has_key(r, k) <==> k == x.0 || has_key(s, k) by {
            if has_key(r, k) {
                let i = choose|i: int| 0 <= i < r.len() && r[i].0 == k;
                if i == 0 {
                    assert(s[0].0 == k);
                } else {
                    assert(rt[i - 1].0 == k);
                    assert(has_key(rt, k));
                    if k != x.0 {
                        let m = choose|m: int| 0 <= m < tail.len() && tail[m].0 == k;
                        assert(s[m + 1].0 == k);
                    }
                }
            }
            if k == x.0 {
                assert(has_key(rt, k));
                let m = choose|m: int| 0 <= m < rt.len() && rt[m].0 == k;
                assert(r[m + 1].0 == k);
            }
            if has_key(s, k) {
                let i = choose|i: int| 0 <= i < s.len() && s[i].0 == k;
                if i == 0 {
                    assert(r[0].0 == k);
                } else {
                    assert(tail[i - 1].0 == k);
                    assert(has_key(tail, k));
                    assert(has_key(rt, k));
                    let m = choose|m: int| 0 <= m < rt.len() && rt[m].0 == k;
                    assert(r[m + 1].0 == k);
                }
            }
        }
        if fields_sorted(s) {
            assert(fields_sorted(tail)) by {
                assert forall|i: int, j: int| 0 <= i < j < tail.len() implies lex_le(
                    tail[i].0,
                    tail[j].0,
                ) by {
                    assert(tail[i] == s[i + 1] && tail[j] == s[j + 1]);
                }
            }
            assert forall|i: int, j: int| 0 <= i < j < r.len() implies lex_le(r[i].0, r[j].0) by {
                if i == 0 {
                    assert(r[j] == rt[j - 1]);
                    assert(rt.contains(rt[j - 1]));
                    if rt[j - 1] == x {
                        assert(lex_le(s[0].0, x.0));
                    } else {
                        assert(tail.contains(rt[j - 1]));
                        let m = choose|m: int| 0 <= m < tail.len() && tail[m] == rt[j - 1];
                        assert(tail[m] == s[m + 1]);
                        assert(lex_le(s[0].0, s[m + 1].0));
                    }
                } else {
                    assert(r[i] == rt[i - 1] && r[j] == rt[j - 1]);
                }
            }
        }
        if keys_unique(s) && !has_key(s, x.0) {
            assert(keys_unique(tail)) by {
                assert forall|i: int, j: int| 0 <= i < j < tail.len() implies tail[i].0 != tail[j].0 by {
                    assert(tail[i] == s[i + 1] && tail[j] == s[j + 1]);
                }
            }
            assert(!has_key(tail, x.0)) by {
                if has_key(tail, x.0) {
                    let m = choose|m: int| 0 <= m < tail.len() && tail[m].0 == x.0;
                    assert(s[m + 1].0 == x.0);
                }
            }
            assert forall|i: int, j: int| 0 <= i < j < r.len() implies r[i].0 != r[j].0 by {
                if i == 0 {
                    assert(r[j] == rt[j - 1]);
                    if has_key(rt, r[j].0) && r[j].0 == s[0].0 {
                        assert(r[j].0 == x.0 || has_key(tail, r[j].0));
                        if r[j].0 == x.0 {
                            assert(has_key(s, x.0)) by {
                                assert(s[0].0 == x.0);
                            }
                        } else {
                            let m = choose|m: int| 0 <= m < tail.len() && tail[m].0 == r[j].0;
                            assert(s[m + 1].0 == s[0].0);
                        }
                    }
                    assert(has_key(rt, r[j].0)) by {
                        assert(rt[j - 1].0 == r[j].0);
                    }
                } else {
                    assert(r[i] == rt[i - 1] && r[j] == rt[j - 1]);
                }
            }
        }
    }
}

/// What `sort_fields` yields: the same elements and keys in ascending key
/// order, key uniqueness preserved.
pub proof fn lemma_sort_fields_props(s: Seq<(Seq<char>, JsonV)>)
    ensures
        sort_fields(s).len() == s.len(),
        forall|e: (Seq<char>, JsonV)| #[trigger] sort_fields(s).contains(e) <==> s.contains(e),
        forall|k: Seq<char>| #[trigger] has_key(sort_fields(s), k) <==> has_key(s, k),
        fields_sorted(sort_fields(s)),
        keys_unique(s) ==> keys_unique(sort_fields(s)),
    decreases s.len(),
{
    if s.len() == 0 {
        assert forall|e: (Seq<char>, JsonV)| #[trigger] sort_fields(s).contains(e) <==> s.contains(e) by {}
        assert forall|k: Seq<char>| #[trigger] has_key(sort_fields(s), k) <==> has_key(s, k) by {}
    } else {
        let tail = s.drop_first();
        let st = sort_fields(tail);
        lemma_sort_fields_props(tail);
        lemma_insert_sorted_props(s[0], st);
        let r = insert_sorted(s[0], st);
        assert(sort_fields(s) == r);
        assert forall|e: (Seq<char>, JsonV)| #[trigger] r.contains(e) <==> s.contains(e) by {
            if r.contains(e) {
                if e == s[0] {
                    assert(s.contains(e));
                } else {
                    assert(st.contains(e));
                    assert(tail.contains(e));
                    let m = choose|m: int| 0 <= m < tail.len() && tail[m] == e;
                    assert(s[m + 1] == e);
                }
            }
            if s.contains(e) {
                let i = choose|i: int| 0 <= i < s.len() && s[i] == e;
                if i == 0 {
                    assert(r.contains(e));
                } else {
                    assert(tail[i - 1] == e);
                    assert(tail.contains(e));
                    assert(st.contains(e));
                }
            }
        }
        assert forall|k: Seq<char>| #[trigger] has_key(r, k) <==> has_key(s, k) by {
            if has_key(r, k) {
                if k == s[0].0 {
                    assert(s[0].0 == k);
                } else {
                    assert(has_key(st, k));
                    assert(has_key(tail, k));
                    let m = choose|m: int| 0 <= m < tail.len() && tail[m].0 == k;
                    assert(s[m + 1].0 == k);
                }
            }
            if has_key(s, k) {
                let i = choose|i: int| 0 <= i < s.len() && s[i].0 == k;
                if i == 0 {
                    assert(k == s[0].0);
                } else {
                    assert(tail[i - 1].0 == k);
                    assert(has_key(tail, k));
                    assert(has_key(st, k));
                }
            }
        }
        if keys_unique(s) {
            assert(keys_unique(tail)) by {
                assert forall|i: int, j: int| 0 <= i < j < tail.len() implies tail[i].0 != tail[j].0 by {
                    assert(tail[i] == s[i + 1] && tail[j] == s[j + 1]);
                }
            }
            assert(!has_key(tail, s[0].0)) by {
                if has_key(tail, s[0].0) {
                    let m = choose|m: int| 0 <= m < tail.len() && tail[m].0 == s[0].0;
                    assert(s[m + 1].0 == s[0].0);
                }
            }
            assert(!has_key(st, s[0].0));
        }
    }
}

} // verus!

verus! {

/// The canonical forms of the elements of an array.
pub open spec fn canon_elems(items: Seq<JsonV>) -> Seq<JsonV>
    decreases items,
{
    Seq::new(
        items.len(),
        |i: int|
            if 0 <= i < items.len() {
                canon(items[i])
            } else {
                JsonV::Null
            },
    )
}

/// The fields of an object with each value in canonical form, order kept.
pub open spec fn canon_fields(fields: Seq<(Seq<char>, JsonV)>) -> Seq<(Seq<char>, JsonV)>
    decreases fields,
{
    Seq::new(
        fields.len(),
        |i: int|
            if 0 <= i < fields.len() {
                (fields[i].0, canon(fields[i].1))
            } else {
                (Seq::empty(), JsonV::Null)
            },
    )
}

/// The canonical form of a value: every object's fields in ascending key
/// order, at every depth. Comparison and rendering both use it.
pub open spec fn canon(v: JsonV) -> JsonV
    decreases v,
{
    match v {
        JsonV::Null => v,
        JsonV::Bool(_) => v,
        JsonV::Num(_) => v,
        JsonV::Str(_) => v,
        JsonV::Arr(items) => JsonV::Arr(canon_elems(items)),
        JsonV::Obj(fields) => JsonV::Obj(sort_fields(canon_fields(fields))),
    }
}

/// A well-formed value: no object repeats a key, at any depth. Values
/// decoded from JSON text always satisfy this.
pub open spec fn wf(v: JsonV) -> bool
    decreases v,
{
    match v {
        JsonV::Arr(items) => forall|i: int| 0 <= i < items.len() ==> wf(#[trigger] items[i]),
        JsonV::Obj(fields) => keys_unique(fields) && forall|i: int|
            0 <= i < fields.len() ==> wf(#[trigger] fields[i].1),
        _ => true,
    }
}

/// The position of the field carrying key `k`, when one exists.
pub open spec fn key_index(s: Seq<(Seq<char>, JsonV)>, k: Seq<char>) -> int {
    choose|i: int| 0 <= i < s.len() && s[i].0 == k
}

/// The value stored under key `k`, when one exists.
pub open spec fn value_of(s: Seq<(Seq<char>, JsonV)>, k: Seq<char>) -> JsonV {
    s[key_index(s, k)].1
}

/// With `k` present, `key_index` points at a field carrying `k`.
pub proof fn lemma_key_index(s: Seq<(Seq<char>, JsonV)>, k: Seq<char>)
    requires
        has_key(s, k),
    ensures
        0 <= key_index(s, k) < s.len(),
        s[key_index(s, k)].0 == k,
{
    let i = choose|i: int| 0 <= i < s.len() && s[i].0 == k;
    assert(0 <= i < s.len() && s[i].0 == k);
}

/// With unique keys, `key_index` is the only position carrying `k`.
pub proof fn lemma_key_index_unique(s: Seq<(Seq<char>, JsonV)>, i: int)
    requires
        keys_unique(s),
        0 <= i < s.len(),
    ensures
        key_index(s, s[i].0) == i,
{
    assert(has_key(s, s[i].0));
    lemma_key_index(s, s[i].0);
    let j = key_index(s, s[i].0);
    if i < j {
        assert(s[i].0 != s[j].0);
    } else if j < i {
        assert(s[j].0 != s[i].0);
    }
}

/// `a` and `b` differ at most in the order in which objects list their
/// fields: same scalars, same array elements in order, and objects with
/// unique keys carrying the same key set with equivalent values.
pub open spec fn equivalent(a: JsonV, b: JsonV) -> bool
    decreases a,
{
    match (a, b) {
        (JsonV::Null, JsonV::Null) => true,
        (JsonV::Bool(x), JsonV::Bool(y)) => x == y,
        (JsonV::Num(x), JsonV::Num(y)) => x == y,
        (JsonV::Str(x), JsonV::Str(y)) => x == y,
        (JsonV::Arr(x), JsonV::Arr(y)) => x.len() == y.len() && forall|i: int|
            0 <= i < x.len() ==> equivalent(#[trigger] x[i], y[i]),
        (JsonV::Obj(x), JsonV::Obj(y)) => {
            &&& x.len() == y.len()
            &&& keys_unique(x)
            &&& keys_unique(y)
            &&& forall|i: int|
                0 <= i < x.len() ==> has_key(y, (#[trigger] x[i]).0) && equivalent(
                    x[i].1,
                    value_of(y, x[i].0),
                )
            &&& forall|j: int| 0 <= j < y.len() ==> has_key(x, (#[trigger] y[j]).0)
        },
        _ => false,
    }
}

/// Every string is ordered below itself.
pub proof fn lemma_lex_le_refl(a: Seq<char>)
    ensures
        lex_le(a, a),
    decreases a.len(),
{
    if a.len() > 0 {
        lemma_lex_le_refl(a.drop_first());
    }
}

/// Two sorted field lists with unique keys and the same elements are equal.
proof fn lemma_sorted_fields_eq(u: Seq<(Seq<char>, JsonV)>, v: Seq<(Seq<char>, JsonV)>)
    requires
        fields_sorted(u),
        fields_sorted(v),
        keys_unique(u),
        keys_unique(v),
        u.len() == v.len(),
        forall|e: (Seq<char>, JsonV)| u.contains(e) <==> v.contains(e),
    ensures
        u == v,
    decreases u.len(),
{
    if u.len() == 0 {
        assert(u =~= v);
    } else {
        assert(u.contains(u[0]));
        assert(v.contains(u[0]));
        assert(v.contains(v[0]));
        assert(u.contains(v[0]));
        let i0 = choose|i: int| 0 <= i < u.len() && u[i] == v[0];
        let j0 = choose|j: int| 0 <= j < v.len() && v[j] == u[0];
        assert(lex_le(u[0].0, u[i0].0)) by {
            if i0 == 0 {
                lemma_lex_le_refl(u[0].0);
            }
        }
        assert(lex_le(v[0].0, v[j0].0)) by {
            if j0 == 0 {
                lemma_lex_le_refl(v[0].0);
            }
        }
        assert(u[i0].0 == v[0].0 && v[j0].0 == u[0].0);
        lemma_lex_le_antisym(u[0].0, v[0].0);
        assert(u[0].0 == v[0].0);
        assert(i0 == 0) by {
            if i0 > 0 {
                assert(u[0].0 != u[i0].0);
            }
        }
        assert(v[0] == u[0]);
        let ut = u.drop_first();
        let vt = v.drop_first();
        assert forall|i: int, j: int| 0 <= i < j < ut.len() implies lex_le(ut[i].0, ut[j].0)
            && ut[i].0 != ut[j].0 by {
            assert(ut[i] == u[i + 1] && ut[j] == u[j + 1]);
        }
        assert forall|i: int, j: int| 0 <= i < j < vt.len() implies lex_le(vt[i].0, vt[j].0)
            && vt[i].0 != vt[j].0 by {
            assert(vt[i] == v[i + 1] && vt[j] == v[j + 1]);
        }
        assert forall|e: (Seq<char>, JsonV)| ut.contains(e) <==> vt.contains(e) by {
            if ut.contains(e) {
                let i = choose|i: int| 0 <= i < ut.len() && ut[i] == e;
                assert(u[i + 1] == e);
                assert(u.contains(e));
                assert(v.contains(e));
                let j = choose|j: int| 0 <= j < v.len() && v[j] == e;
                assert(e.0 != u[0].0) by {
                    assert(u[0].0 != u[i + 1].0);
                }
                assert(j != 0);
                assert(vt[j - 1] == e);
                assert(vt.contains(e));
            }
            if vt.contains(e) {
                let j = choose|j: int| 0 <= j < vt.len() && vt[j] == e;
                assert(v[j + 1] == e);
                assert(v.contains(e));
                assert(u.contains(e));
                let i = choose|i: int| 0 <= i < u.len() && u[i] == e;
                assert(e.0 != v[0].0) by {
                    assert(v[0].0 != v[j + 1].0);
                }
                assert(i != 0);
                assert(ut[i - 1] == e);
                assert(ut.contains(e));
            }
        }
        lemma_sorted_fields_eq(ut, vt);
        assert(u =~= v) by {
            assert forall|i: int| 0 <= i < u.len() implies u[i] == v[i] by {
                if i > 0 {
                    assert(ut[i - 1] == vt[i - 1]);
                }
            }
        }
    }
}

/// Sorting two field lists with unique keys, equal length and the same
/// elements yields the same list.
proof fn lemma_sort_of_same_contains(cx: Seq<(Seq<char>, JsonV)>, cy: Seq<(Seq<char>, JsonV)>)
    requires
        keys_unique(cx),
        keys_unique(cy),
        cx.len() == cy.len(),
        forall|e: (Seq<char>, JsonV)| cx.contains(e) <==> cy.contains(e),
    ensures
        sort_fields(cx) == sort_fields(cy),
{
    lemma_sort_fields_props(cx);
    lemma_sort_fields_props(cy);
    assert forall|e: (Seq<char>, JsonV)|
        sort_fields(cx).contains(e) <==> sort_fields(cy).contains(e) by {
        if sort_fields(cx).contains(e) {
            assert(cx.contains(e));
        }
        if sort_fields(cy).contains(e) {
            assert(cy.contains(e));
        }
    }
    lemma_sorted_fields_eq(sort_fields(cx), sort_fields(cy));
}

/// Canonicalization is invariant under reordering of object fields: values
/// that differ only in field order share one canonical form, so comparing
/// their canonical forms yields equality.
pub proof fn lemma_equivalent_canon(a: JsonV, b: JsonV)
    requires
        equivalent(a, b),
    ensures
        canon(a) == canon(b),
    decreases a,
{
    match (a, b) {
        (JsonV::Arr(x), JsonV::Arr(y)) => {
            assert forall|i: int| 0 <= i < x.len() implies canon_elems(x)[i] == canon_elems(
                y,
            )[i] by {
                assert(equivalent(x[i], y[i]));
                lemma_equivalent_canon(x[i], y[i]);
            }
            assert(canon_elems(x) =~= canon_elems(y));
        }
        (JsonV::Obj(x), JsonV::Obj(y)) => {
            let cx = canon_fields(x);
            let cy = canon_fields(y);
            assert forall|i: int, j: int| 0 <= i < j < cx.len() implies cx[i].0 != cx[j].0 by {
                assert(x[i].0 != x[j].0);
            }
            assert forall|i: int, j: int| 0 <= i < j < cy.len() implies cy[i].0 != cy[j].0 by {
                assert(y[i].0 != y[j].0);
            }
            assert forall|e: (Seq<char>, JsonV)| cx.contains(e) implies cy.contains(e) by {
                let i = choose|i: int| 0 <= i < cx.len() && cx[i] == e;
                assert(e == (x[i].0, canon(x[i].1)));
                assert(has_key(y, x[i].0) && equivalent(x[i].1, value_of(y, x[i].0)));
                lemma_key_index(y, x[i].0);
                let j = key_index(y, x[i].0);
                lemma_equivalent_canon(x[i].1, y[j].1);
                assert(cy[j] == e);
                assert(cy.contains(e));
            }
            assert forall|e: (Seq<char>, JsonV)| cy.contains(e) implies cx.contains(e) by {
                let j = choose|j: int| 0 <= j < cy.len() && cy[j] == e;
                assert(e == (y[j].0, canon(y[j].1)));
                assert(has_key(x, y[j].0));
                lemma_key_index(x, y[j].0);
                let i = key_index(x, y[j].0);
                assert(has_key(y, x[i].0) && equivalent(x[i].1, value_of(y, x[i].0)));
                assert(x[i].0 == y[j].0);
                lemma_key_index_unique(y, j);
                assert(key_index(y, x[i].0) == j);
                assert(equivalent(x[i].1, y[j].1));
                lemma_equivalent_canon(x[i].1, y[j].1);
                assert(cx[i] == e);
                assert(cx.contains(e));
            }
            assert forall|e: (Seq<char>, JsonV)| cx.contains(e) <==> cy.contains(e) by {}
            lemma_sort_of_same_contains(cx, cy);
        }
        _ => {}
    }
}

/// Every well-formed value is equivalent to itself, so its canonical form
/// compared with itself is always equal.
pub proof fn lemma_equivalent_refl(v: JsonV)
    requires
        wf(v),
    ensures
        equivalent(v, v),
    decreases v,
{
    match v {
        JsonV::Arr(items) => {
            assert forall|i: int| 0 <= i < items.len() implies equivalent(
                #[trigger] items[i],
                items[i],
            ) by {
                lemma_equivalent_refl(items[i]);
            }
            assert(equivalent(v, v));
        }
        JsonV::Obj(fields) => {
            assert forall|i: int| 0 <= i < fields.len() implies has_key(
                fields,
                (#[trigger] fields[i]).0,
            ) && equivalent(fields[i].1, value_of(fields, fields[i].0)) by {
                assert(has_key(fields, fields[i].0));
                lemma_key_index_unique(fields, i);
                lemma_equivalent_refl(fields[i].1);
            }
            assert(equivalent(v, v));
        }
        _ => {}
    }
}

} // verus!

verus! {

/// Inserting before position `p` realizes `insert_sorted` when everything
/// earlier is strictly below `x` and position `p`, if any, is not.
proof fn lemma_insert_sorted_at(x: (Seq<char>, JsonV), s: Seq<(Seq<char>, JsonV)>, p: int)
    requires
        0 <= p <= s.len(),
        forall|k: int| 0 <= k < p ==> !lex_le(x.0, (#[trigger] s[k]).0),
        p < s.len() ==> lex_le(x.0, s[p].0),
    ensures
        insert_sorted(x, s) == s.take(p) + seq![x] + s.skip(p),
    decreases p,
{
    if p == 0 {
        if s.len() == 0 {
            assert(insert_sorted(x, s) =~= s.take(0) + seq![x] + s.skip(0));
        } else {
            assert(insert_sorted(x, s) =~= s.take(0) + seq![x] + s.skip(0));
        }
    } else {
        assert(!lex_le(x.0, s[0].0));
        let tail = s.drop_first();
        assert forall|k: int| 0 <= k < p - 1 implies !lex_le(x.0, (#[trigger] tail[k]).0) by {
            assert(tail[k] == s[k + 1]);
        }
        assert(p - 1 < tail.len() ==> lex_le(x.0, tail[p - 1].0)) by {
            if p - 1 < tail.len() {
                assert(tail[p - 1] == s[p]);
            }
        }
        lemma_insert_sorted_at(x, tail, p - 1);
        assert(insert_sorted(x, s) == seq![s[0]] + insert_sorted(x, tail));
        assert(seq![s[0]] + (tail.take(p - 1) + seq![x] + tail.skip(p - 1)) =~= s.take(p) + seq![x]
            + s.skip(p));
    }
}

/// Inserts one field into a key-sorted list, keeping it sorted.
fn insert_field(x: (String, Json), sorted: Vec<(String, Json)>) -> (r: Vec<(String, Json)>)
    ensures
        fields_view(r@) == insert_sorted((x.0@, x.1@), fields_view(sorted@)),
{
    let ghost xs = (x.0@, x.1@);
    let ghost sv = fields_view(sorted@);
    let mut p: usize = 0;
    while p < sorted.len() && !str_le(x.0.as_str(), sorted[p].0.as_str())
        invariant
            0 <= p <= sorted.len(),
            sv == fields_view(sorted@),
            xs == (x.0@, x.1@),
            forall|k: int| 0 <= k < p ==> !lex_le(xs.0, (#[trigger] sv[k]).0),
        decreases sorted.len() - p,
    {
        p += 1;
    }
    proof {
        lemma_insert_sorted_at(xs, sv, p as int);
    }
    let mut out = sorted;
    out.insert(p, x);
    proof {
        assert(fields_view(out@) =~= sv.take(p as int) + seq![xs] + sv.skip(p as int)) by {
            assert forall|i: int|
                0 <= i < out@.len() implies fields_view(out@)[i] == (sv.take(p as int) + seq![xs]
                + sv.skip(p as int))[i] by {
                if i < p as int {
                    assert(out@[i] == sorted@[i]);
                } else if i == p as int {
                    assert(out@[i] == x);
                } else {
                    assert(out@[i] == sorted@[i - 1]);
                }
            }
        }
    }
    out
}

/// Rearranges the fields of one object into ascending key order.
fn sort_fields_exec(v: Vec<(String, Json)>) -> (r: Vec<(String, Json)>)
    ensures
        fields_view(r@) == sort_fields(fields_view(v@)),
{
    let ghost full = fields_view(v@);
    let mut rest = v;
    let mut out: Vec<(String, Json)> = Vec::new();
    proof {
        assert(fields_view(out@) =~= full.skip(full.len() as int));
        assert(sort_fields(full.skip(full.len() as int)) =~= fields_view(out@));
    }
    while rest.len() > 0
        invariant
            rest@.len() <= full.len(),
            forall|i: int| 0 <= i < rest@.len() ==> (#[trigger] fields_view(rest@)[i]) == full[i],
            fields_view(out@) == sort_fields(full.skip(rest@.len() as int)),
        decreases rest.len(),
    {
        let ghost n = rest@.len() as int;
        let ghost prev = rest@;
        let x = match rest.pop() {
            Some(x) => x,
            None => {
                proof {
                    assert(false);
                }
                unreached()
            },
        };
        proof {
            assert(x == prev[n - 1]);
            assert(fields_view(prev)[n - 1] == full[n - 1]);
            assert(full[n - 1] == (x.0@, x.1@));
        }
        out = insert_field(x, out);
        proof {
            assert forall|i: int|
                0 <= i < rest@.len() implies (#[trigger] fields_view(rest@)[i]) == full[i] by {
                assert(rest@[i] == prev[i]);
                assert(fields_view(prev)[i] == full[i]);
            }
            let tail = full.skip(n);
            let cur = full.skip(n - 1);
            assert(cur.drop_first() =~= tail);
            assert(cur[0] == full[n - 1]);
            assert(full[n - 1] == (x.0@, x.1@));
            assert(sort_fields(cur) == insert_sorted((x.0@, x.1@), sort_fields(tail)));
        }
    }
    proof {
        assert(full.skip(0) =~= full);
    }
    out
}

impl Json {
    /// The canonical form of this value: every object's fields rearranged
    /// into ascending key order, at every depth.
    pub fn canonical(&self) -> (r: Json)
        ensures
            r@ == canon(self@),
        decreases self,
    {
        match self {
            Json::Null => Json::Null,
            Json::Bool(b) => Json::Bool(*b),
            Json::Num(s) => Json::Num(s.clone()),
            Json::Str(s) => Json::Str(s.clone()),
            Json::Arr(items) => {
                let mut out: Vec<Json> = Vec::new();
                let mut i: usize = 0;
                while i < items.len()
                    invariant
                        *self == Json::Arr(*items),
                        out@.len() == i <= items@.len(),
                        forall|k: int| 0 <= k < i ==> (#[trigger] out@[k])@ == canon(items@[k]@),
                    decreases items.len() - i,
                {
                    proof {
                        assert(*self == Json::Arr(*items));
                        assert(decreases_to!(*self => self->Arr_0));
                        assert(self->Arr_0 == *items);
                        assert(decreases_to!(*items => items@));
                        assert(decreases_to!(items@ => items@[i as int]));
                    }
                    let c = items[i].canonical();
                    out.push(c);
                    i += 1;
                }
                proof {
                    assert(arr_view(out@) =~= canon_elems(arr_view(items@)));
                }
                Json::Arr(out)
            },
            Json::Obj(fields) => {
                let mut out: Vec<(String, Json)> = Vec::new();
                let mut i: usize = 0;
                while i < fields.len()
                    invariant
                        *self == Json::Obj(*fields),
                        out@.len() == i <= fields@.len(),
                        forall|k: int|
                            0 <= k < i ==> (#[trigger] out@[k]).0@ == fields@[k].0@ && out@[k].1@
                                == canon(fields@[k].1@),
                    decreases fields.len() - i,
                {
                    let key = fields[i].0.clone();
                    proof {
                        assert(*self == Json::Obj(*fields));
                        assert(decreases_to!(*self => self->Obj_0));
                        assert(self->Obj_0 == *fields);
                        assert(decreases_to!(*fields => fields@));
                        assert(decreases_to!(fields@ => fields@[i as int]));
                        assert(decreases_to!(fields@[i as int] => fields@[i as int].1));
                    }
                    let c = fields[i].1.canonical();
                    out.push((key, c));
                    i += 1;
                }
                proof {
                    assert(fields_view(out@) =~= canon_fields(fields_view(fields@)));
                }
                let sorted = sort_fields_exec(out);
                Json::Obj(sorted)
            },
        }
    }
}

} // verus!

verus! {

/// Decides structural equality of two values, field order included.
fn value_eq(a: &Json, b: &Json) -> (r: bool)
    ensures
        r == (a@ == b@),
    decreases a,
{
    match (a, b) {
        (Json::Null, Json::Null) => true,
        (Json::Bool(x), Json::Bool(y)) => *x == *y,
        (Json::Num(x), Json::Num(y)) => *x == *y,
        (Json::Str(x), Json::Str(y)) => *x == *y,
        (Json::Arr(x), Json::Arr(y)) => {
            if x.len() != y.len() {
                proof {
                    assert(arr_view(x@).len() != arr_view(y@).len());
                }
                return false;
            }
            let mut i: usize = 0;
            while i < x.len()
                invariant
                    *a == Json::Arr(*x) && *b == Json::Arr(*y),
                    i <= x@.len() && x@.len() == y@.len(),
                    forall|k: int| 0 <= k < i ==> (#[trigger] arr_view(x@)[k]) == arr_view(y@)[k],
                decreases x@.len() - i,
            {
                proof {
                    assert(decreases_to!(*a => a->Arr_0));
                    assert(decreases_to!(x@ => x@[i as int]));
                }
                if !value_eq(&x[i], &y[i]) {
                    proof {
                        assert(arr_view(x@)[i as int] != arr_view(y@)[i as int]);
                    }
                    return false;
                }
                i += 1;
            }
            proof {
                assert(arr_view(x@) =~= arr_view(y@));
            }
            true
        },
        (Json::Obj(x), Json::Obj(y)) => {
            if x.len() != y.len() {
                proof {
                    assert(fields_view(x@).len() != fields_view(y@).len());
                }
                return false;
            }
            let mut i: usize = 0;
            while i < x.len()
                invariant
                    *a == Json::Obj(*x) && *b == Json::Obj(*y),
                    i <= x@.len() && x@.len() == y@.len(),
                    forall|k: int|
                        0 <= k < i ==> (#[trigger] fields_view(x@)[k]) == fields_view(y@)[k],
                decreases x@.len() - i,
            {
                proof {
                    assert(decreases_to!(*a => a->Obj_0));
                    assert(decreases_to!(x@ => x@[i as int]));
                    assert(decreases_to!(x@[i as int] => x@[i as int].1));
                }
                if !(x[i].0 == y[i].0) {
                    proof {
                        assert(fields_view(x@)[i as int].0 != fields_view(y@)[i as int].0);
                    }
                    return false;
                }
                if !value_eq(&x[i].1, &y[i].1) {
                    proof {
                        assert(fields_view(x@)[i as int].1 != fields_view(y@)[i as int].1);
                    }
                    return false;
                }
                i += 1;
            }
            proof {
                assert(fields_view(x@) =~= fields_view(y@));
            }
            true
        },
        _ => {
            proof {
                assert(a@ != b@);
            }
            false
        },
    }
}

/// Decides whether two decoded values are structurally equal up to object
/// field order: their canonical forms are compared.
pub fn json_eq(a: &Json, b: &Json) -> (r: bool)
    ensures
        r == (canon(a@) == canon(b@)),
{
    let ca = a.canonical();
    let cb = b.canonical();
    value_eq(&ca, &cb)
}

} // verus!

verus! {

/// The escape sequence a character occupies inside a rendered string.
pub open spec fn esc_char(c: char) -> Seq<char> {
    if c == '"' {
        seq!['\\', '"']
    } else if c == '\\' {
        seq!['\\', '\\']
    } else if c == '\n' {
        seq!['\\', 'n']
    } else if c == '\r' {
        seq!['\\', 'r']
    } else if c == '\t' {
        seq!['\\', 't']
    } else {
        seq![c]
    }
}

/// The escaped text of `s` from position `i` on.
pub open spec fn esc_from(s: Seq<char>, i: nat) -> Seq<char>
    decreases s.len() - i,
{
    if i >= s.len() {
        Seq::empty()
    } else {
        esc_char(s[i as int]) + esc_from(s, i + 1)
    }
}

/// The escaped text of a whole string.
pub open spec fn spec_escape(s: Seq<char>) -> Seq<char> {
    esc_from(s, 0)
}

/// `n` space characters, the indentation of one rendered line.
pub open spec fn spaces(n: nat) -> Seq<char>
    decreases n,
{
    if n == 0 {
        Seq::empty()
    } else {
        spaces((n - 1) as nat).push(' ')
    }
}

/// The indentation one level deeper, capped so that rendering never
/// overflows a machine word at absurd nesting depths.
pub open spec fn next_indent(ind: nat) -> nat {
    if ind < 65534 {
        (ind + 2) as nat
    } else {
        ind
    }
}

/// The rendered text of a value at indentation `ind`: scalars on one line,
/// arrays and objects with one element per line, two spaces per level.
pub open spec fn spec_text(v: JsonV, ind: nat) -> Seq<char>
    decreases v, 0int,
{
    match v {
        JsonV::Null => "null"@,
        JsonV::Bool(b) => if b {
            "true"@
        } else {
            "false"@
        },
        JsonV::Num(s) => s,
        JsonV::Str(s) => seq!['"'] + spec_escape(s) + seq!['"'],
        JsonV::Arr(items) => if items.len() == 0 {
            "[]"@
        } else {
            seq!['[', '\n'] + items_text_from(items, next_indent(ind), 0) + spaces(ind) + seq![']']
        },
        JsonV::Obj(fields) => if fields.len() == 0 {
            "{}"@
        } else {
            seq!['{', '\n'] + fields_text_from(fields, next_indent(ind), 0) + spaces(ind)
                + seq!['}']
        },
    }
}

/// The rendered lines of the array elements from position `i` on.
pub open spec fn items_text_from(items: Seq<JsonV>, ind: nat, i: nat) -> Seq<char>
    decreases items, items.len() - i,
{
    if i >= items.len() {
        Seq::empty()
    } else {
        spaces(ind) + spec_text(items[i as int], ind) + (if i + 1 < items.len() {
            seq![',']
        } else {
            Seq::empty()
        }) + seq!['\n'] + items_text_from(items, ind, i + 1)
    }
}

/// The rendered lines of the object fields from position `i` on.
pub open spec fn fields_text_from(fields: Seq<(Seq<char>, JsonV)>, ind: nat, i: nat) -> Seq<char>
    decreases fields, fields.len() - i,
{
    if i >= fields.len() {
        Seq::empty()
    } else {
        spaces(ind) + seq!['"'] + spec_escape(fields[i as int].0) + seq!['"', ':', ' ']
            + spec_text(fields[i as int].1, ind) + (if i + 1 < fields.len() {
            seq![',']
        } else {
            Seq::empty()
        }) + seq!['\n'] + fields_text_from(fields, ind, i + 1)
    }
}

/// Appends `n` spaces.
fn write_spaces(n: usize, out: &mut String)
    ensures
        final(out)@ == old(out)@ + spaces(n as nat),
{
    let mut i: usize = 0;
    proof {
        assert(old(out)@ + spaces(0) =~= old(out)@);
    }
    while i < n
        invariant
            i <= n,
            out@ == old(out)@ + spaces(i as nat),
        decreases n - i,
    {
        crate::text::push_char(out, ' ');
        i += 1;
    }
}

/// Appends the escaped text of `s`.
fn write_escaped(s: &str, out: &mut String)
    ensures
        final(out)@ == old(out)@ + spec_escape(s@),
{
    let n = s.unicode_len();
    let mut i: usize = 0;
    while i < n
        invariant
            i <= n,
            n == s@.len(),
            out@ + esc_from(s@, i as nat) == old(out)@ + esc_from(s@, 0),
        decreases n - i,
    {
        let c = s.get_char(i);
        let ghost pre = out@;
        if c == '"' {
            crate::text::push_char(out, '\\');
            crate::text::push_char(out, '"');
        } else if c == '\\' {
            crate::text::push_char(out, '\\');
            crate::text::push_char(out, '\\');
        } else if c == '\n' {
            crate::text::push_char(out, '\\');
            crate::text::push_char(out, 'n');
        } else if c == '\r' {
            crate::text::push_char(out, '\\');
            crate::text::push_char(out, 'r');
        } else if c == '\t' {
            crate::text::push_char(out, '\\');
            crate::text::push_char(out, 't');
        } else {
            crate::text::push_char(out, c);
        }
        proof {
            assert(out@ =~= pre + esc_char(s@[i as int]));
            assert(pre + (esc_char(s@[i as int]) + esc_from(s@, i as nat + 1)) =~= (pre + esc_char(
                s@[i as int],
            )) + esc_from(s@, i as nat + 1));
        }
        i += 1;
    }
    proof {
        assert(esc_from(s@, n as nat) =~= Seq::<char>::empty());
        assert(out@ + Seq::<char>::empty() =~= out@);
    }
}

/// Appends the rendered text of `v` at indentation `ind`.
fn write_value(v: &Json, ind: usize, out: &mut String)
    ensures
        final(out)@ == old(out)@ + spec_text(v@, ind as nat),
    decreases v,
{
    match v {
        Json::Null => {
            out.append("null");
        },
        Json::Bool(b) => {
            if *b {
                out.append("true");
            } else {
                out.append("false");
            }
        },
        Json::Num(s) => {
            out.append(s.as_str());
        },
        Json::Str(s) => {
            crate::text::push_char(out, '"');
            write_escaped(s.as_str(), out);
            crate::text::push_char(out, '"');
            proof {
                assert(out@ =~= old(out)@ + (seq!['"'] + spec_escape(s@) + seq!['"']));
            }
        },
        Json::Arr(items) => {
            if items.len() == 0 {
                out.append("[]");
                return;
            }
            crate::text::push_char(out, '[');
            crate::text::push_char(out, '\n');
            let ind2 = if ind < 65534 {
                ind + 2
            } else {
                ind
            };
            let ghost s = arr_view(items@);
            let ghost base = old(out)@;
            let mut i: usize = 0;
            proof {
                assert(out@ + items_text_from(s, ind2 as nat, 0) =~= base + seq!['[', '\n']
                    + items_text_from(s, ind2 as nat, 0));
            }
            while i < items.len()
                invariant
                    *v == Json::Arr(*items),
                    i <= items@.len(),
                    s == arr_view(items@),
                    ind2 as nat == next_indent(ind as nat),
                    out@ + items_text_from(s, ind2 as nat, i as nat) == base + seq!['[', '\n']
                        + items_text_from(s, ind2 as nat, 0),
                decreases items@.len() - i,
            {
                let ghost pre = out@;
                write_spaces(ind2, out);
                proof {
                    assert(decreases_to!(*v => v->Arr_0));
                    assert(decreases_to!(items@ => items@[i as int]));
                }
                write_value(&items[i], ind2, out);
                if i + 1 < items.len() {
                    crate::text::push_char(out, ',');
                }
                crate::text::push_char(out, '\n');
                proof {
                    let entry = spaces(ind2 as nat) + spec_text(s[i as int], ind2 as nat) + (if i
                        + 1 < items@.len() {
                        seq![',']
                    } else {
                        Seq::<char>::empty()
                    }) + seq!['\n'];
                    assert(out@ =~= pre + entry);
                    assert(items_text_from(s, ind2 as nat, i as nat) =~= entry + items_text_from(
                        s,
                        ind2 as nat,
                        i as nat + 1,
                    ));
                    assert((pre + entry) + items_text_from(s, ind2 as nat, i as nat + 1) =~= pre + (
                    entry + items_text_from(s, ind2 as nat, i as nat + 1)));
                }
                i += 1;
            }
            write_spaces(ind, out);
            crate::text::push_char(out, ']');
            proof {
                assert(items_text_from(s, ind2 as nat, items@.len() as nat)
                    =~= Seq::<char>::empty());
                assert(out@ =~= base + (seq!['[', '\n'] + items_text_from(s, ind2 as nat, 0)
                    + spaces(ind as nat) + seq![']']));
            }
        },
        Json::Obj(fields) => {
            if fields.len() == 0 {
                out.append("{}");
                return;
            }
            crate::text::push_char(out, '{');
            crate::text::push_char(out, '\n');
            let ind2 = if ind < 65534 {
                ind + 2
            } else {
                ind
            };
            let ghost s = fields_view(fields@);
            let ghost base = old(out)@;
            let mut i: usize = 0;
            proof {
                assert(out@ + fields_text_from(s, ind2 as nat, 0) =~= base + seq!['{', '\n']
                    + fields_text_from(s, ind2 as nat, 0));
            }
            while i < fields.len()
                invariant
                    *v == Json::Obj(*fields),
                    i <= fields@.len(),
                    s == fields_view(fields@),
                    ind2 as nat == next_indent(ind as nat),
                    out@ + fields_text_from(s, ind2 as nat, i as nat) == base + seq!['{', '\n']
                        + fields_text_from(s, ind2 as nat, 0),
                decreases fields@.len() - i,
            {
                let ghost pre = out@;
                write_spaces(ind2, out);
                crate::text::push_char(out, '"');
                write_escaped(fields[i].0.as_str(), out);
                crate::text::push_char(out, '"');
                crate::text::push_char(out, ':');
                crate::text::push_char(out, ' ');
                proof {
                    assert(decreases_to!(*v => v->Obj_0));
                    assert(decreases_to!(fields@ => fields@[i as int]));
                    assert(decreases_to!(fields@[i as int] => fields@[i as int].1));
                }
                write_value(&fields[i].1, ind2, out);
                if i + 1 < fields.len() {
                    crate::text::push_char(out, ',');
                }
                crate::text::push_char(out, '\n');
                proof {
                    let entry = spaces(ind2 as nat) + seq!['"'] + spec_escape(s[i as int].0)
                        + seq!['"', ':', ' '] + spec_text(s[i as int].1, ind2 as nat) + (if i + 1
                        < fields@.len() {
                        seq![',']
                    } else {
                        Seq::<char>::empty()
                    }) + seq!['\n'];
                    assert(out@ =~= pre + entry);
                    assert(fields_text_from(s, ind2 as nat, i as nat) =~= entry + fields_text_from(
                        s,
                        ind2 as nat,
                        i as nat + 1,
                    ));
                    assert((pre + entry) + fields_text_from(s, ind2 as nat, i as nat + 1) =~= pre
                        + (entry + fields_text_from(s, ind2 as nat, i as nat + 1)));
                }
                i += 1;
            }
            write_spaces(ind, out);
            crate::text::push_char(out, '}');
            proof {
                assert(fields_text_from(s, ind2 as nat, fields@.len() as nat)
                    =~= Seq::<char>::empty());
                assert(out@ =~= base + (seq!['{', '\n'] + fields_text_from(s, ind2 as nat, 0)
                    + spaces(ind as nat) + seq!['}']));
            }
        },
    }
}

impl Json {
    /// The rendered, line-oriented text of this value, as the report's
    /// diffs show it.
    pub fn to_text(&self) -> (r: String)
        ensures
            r@ == spec_text(self@, 0),
    {
        let mut out = String::new();
        write_value(self, 0, &mut out);
        proof {
            assert(Seq::<char>::empty() + spec_text(self@, 0) =~= spec_text(self@, 0));
        }
        out
    }
}

} // verus!

verus! {

/// The value under the first field carrying key `k`, when one exists.
pub open spec fn fields_get(fields: Seq<(Seq<char>, JsonV)>, k: Seq<char>) -> Option<JsonV>
    decreases fields.len(),
{
    if fields.len() == 0 {
        None
    } else if fields[0].0 == k {
        Some(fields[0].1)
    } else {
        fields_get(fields.drop_first(), k)
    }
}

/// Object field lookup; anything but an object holds no fields.
pub open spec fn jv_get(v: JsonV, k: Seq<char>) -> Option<JsonV> {
    match v {
        JsonV::Obj(fields) => fields_get(fields, k),
        _ => None,
    }
}

impl Json {
    /// Looks the key up among this object's fields.
    pub fn get<'a>(&'a self, key: &str) -> (r: Option<&'a Json>)
        ensures
            match r {
                Some(f) => jv_get(self@, key@) == Some(f@),
                None => jv_get(self@, key@) is None,
            },
    {
        match self {
            Json::Obj(fields) => {
                let ghost fv = fields_view(fields@);
                let mut i: usize = 0;
                proof {
                    assert(fv.skip(0) =~= fv);
                }
                while i < fields.len()
                    invariant
                        *self == Json::Obj(*fields),
                        i <= fields@.len(),
                        fv == fields_view(fields@),
                        fields_get(fv, key@) == fields_get(fv.skip(i as int), key@),
                    decreases fields@.len() - i,
                {
                    if crate::text::str_eq(fields[i].0.as_str(), key) {
                        proof {
                            assert(fv.skip(i as int)[0] == fv[i as int]);
                        }
                        return Some(&fields[i].1);
                    }
                    proof {
                        assert(fv.skip(i as int)[0] == fv[i as int]);
                        assert(fv.skip(i as int).drop_first() =~= fv.skip(i as int + 1));
                    }
                    i += 1;
                }
                proof {
                    assert(fv.skip(fields@.len() as int).len() == 0);
                }
                None
            },
            _ => None,
        }
    }
}

} // verus!
