//! The JSON tree that the wire codec produces and consumes.
//!
//! [`Json`] is the executable tree. Its mathematical counterpart is
//! [`JsonView`], where strings are character sequences and arrays and objects
//! are sequences; every codec contract is stated over [`JsonView`]. An object
//! is an ordered list of key/value entries, so an encoder controls the exact
//! entry order and a decoder can state lookups positionally.

use crate::strutil::str_eq;
use vstd::prelude::*;

verus! {

broadcast use vstd::std_specs::vec::group_vec_axioms;

/// A specification-level JSON value: the view of [`Json`].
pub enum JsonView {
    /// The JSON `null` value.
    Null,
    /// A JSON boolean.
    Bool(bool),
    /// A JSON number; this wire format only ever carries integral numbers.
    Int(i64),
    /// A JSON string.
    Str(Seq<char>),
    /// A JSON array.
    Arr(Seq<JsonView>),
    /// A JSON object: key/value entries in emission order.
    Obj(Seq<(Seq<char>, JsonView)>),
}

/// An executable JSON value.
///
/// Numbers are restricted to 64-bit integers: every number this wire format
/// emits is integral, and 64-bit fields are transmitted as decimal strings
/// anyway. The boundary layer that parses wire text maps any other numeric
/// token to a decode failure before the value reaches this codec.
#[derive(Debug)]
pub enum Json {
    /// The JSON `null` value.
    Null,
    /// A JSON boolean.
    Bool(bool),
    /// An integral JSON number.
    Int(i64),
    /// A JSON string.
    Str(String),
    /// A JSON array.
    Arr(Vec<Json>),
    /// A JSON object: key/value entries in emission order.
    Obj(Vec<(String, Json)>),
}

impl View for Json {
    type V = JsonView;

    open spec fn view(&self) -> JsonView
        decreases self,
    {
        match self {
            Json::Null => JsonView::Null,
            Json::Bool(b) => JsonView::Bool(*b),
            Json::Int(i) => JsonView::Int(*i),
            Json::Str(s) => JsonView::Str(s@),
            Json::Arr(items) => JsonView::Arr(
                Seq::new(
                    items@.len(),
                    |i: int|
                        if 0 <= i < items@.len() {
                            items@[i]@
                        } else {
                            JsonView::Null
                        },
                ),
            ),
            Json::Obj(entries) => JsonView::Obj(
                Seq::new(
                    entries@.len(),
                    |i: int|
                        if 0 <= i < entries@.len() {
                            (entries@[i].0@, entries@[i].1@)
                        } else {
                            (Seq::empty(), JsonView::Null)
                        },
                ),
            ),
        }
    }
}

/// The view of an array's executable item list.
pub open spec fn items_view(items: Vec<Json>) -> Seq<JsonView> {
    Seq::new(
        items@.len(),
        |i: int|
            if 0 <= i < items@.len() {
                items@[i]@
            } else {
                JsonView::Null
            },
    )
}

/// The view of an array value is the view of its item list.
pub broadcast proof fn lemma_arr_view(items: Vec<Json>)
    ensures
        #[trigger] Json::Arr(items)@ == JsonView::Arr(items_view(items)),
{
    reveal_with_fuel(<Json as View>::view, 2);
    assert(Json::Arr(items)@->Arr_0 =~= items_view(items));
}

/// The view of an object's executable entry list.
pub open spec fn entries_view(entries: Vec<(String, Json)>) -> Seq<(Seq<char>, JsonView)> {
    Seq::new(
        entries@.len(),
        |i: int|
            if 0 <= i < entries@.len() {
                (entries@[i].0@, entries@[i].1@)
            } else {
                (Seq::empty(), JsonView::Null)
            },
    )
}

/// The view of an object value is the view of its entry list.
pub broadcast proof fn lemma_obj_view(entries: Vec<(String, Json)>)
    ensures
        #[trigger] Json::Obj(entries)@ == JsonView::Obj(entries_view(entries)),
{
    reveal_with_fuel(<Json as View>::view, 2);
    assert(Json::Obj(entries)@->Obj_0 =~= entries_view(entries));
}

impl Clone for Json {
    /// A deep copy whose view is the view of the original.
    fn clone(&self) -> (r: Self)
        ensures
            r@ == self@,
        decreases *self,
    {
        match self {
            Json::Null => Json::Null,
            Json::Bool(b) => Json::Bool(*b),
            Json::Int(i) => Json::Int(*i),
            Json::Str(s) => Json::Str(s.clone()),
            Json::Arr(items) => {
                let mut out: Vec<Json> = Vec::new();
                let mut i: usize = 0;
                while i < items.len()
                    invariant
                        i <= items.len(),
                        out@.len() == i as int,
                        *self == Json::Arr(*items),
                        forall|j: int| 0 <= j < i ==> out@[j]@ == items@[j]@,
                    decreases items.len() - i,
                {
                    proof {
                        assert(decreases_to!(*self => self->Arr_0));
                        assert(decreases_to!((*items) => (*items)[i as int]));
                    }
                    out.push(items[i].clone());
                    i += 1;
                }
                let r = Json::Arr(out);
                proof {
                    lemma_arr_view(out);
                    lemma_arr_view(*items);
                    assert(items_view(out) =~= items_view(*items));
                }
                r
            },
            Json::Obj(entries) => {
                let mut out: Vec<(String, Json)> = Vec::new();
                let mut i: usize = 0;
                while i < entries.len()
                    invariant
                        i <= entries.len(),
                        out@.len() == i as int,
                        *self == Json::Obj(*entries),
                        forall|j: int| 0 <= j < i
                            ==> out@[j].0@ == entries@[j].0@ && out@[j].1@ == entries@[j].1@,
                    decreases entries.len() - i,
                {
                    proof {
                        assert(decreases_to!(*self => self->Obj_0));
                        assert(decreases_to!((*entries) => (*entries)[i as int]));
                        assert(decreases_to!((*entries)[i as int] => (*entries)[i as int].1));
                    }
                    let key = entries[i].0.clone();
                    let val = entries[i].1.clone();
                    out.push((key, val));
                    i += 1;
                }
                let r = Json::Obj(out);
                proof {
                    lemma_obj_view(out);
                    lemma_obj_view(*entries);
                    assert(entries_view(out) =~= entries_view(*entries));
                }
                r
            },
        }
    }
}

/// The value of the first entry of `entries` whose key is `key`, or `None`
/// if no entry has that key. Decoders read object fields through this
/// function, so unknown keys are never consulted.
pub open spec fn obj_lookup(entries: Seq<(Seq<char>, JsonView)>, key: Seq<char>) -> Option<
    JsonView,
>
    decreases entries.len(),
{
    if entries.len() == 0 {
        None
    } else if entries[0].0 == key {
        Some(entries[0].1)
    } else {
        obj_lookup(entries.skip(1), key)
    }
}

/// Whether some entry of `entries` has key `key`.
pub open spec fn obj_has_key(entries: Seq<(Seq<char>, JsonView)>, key: Seq<char>) -> bool {
    obj_lookup(entries, key) is Some
}

/// Lookup distributes over concatenation: the left part is consulted first.
pub proof fn lemma_obj_lookup_concat(
    a: Seq<(Seq<char>, JsonView)>,
    b: Seq<(Seq<char>, JsonView)>,
    key: Seq<char>,
)
    ensures
        obj_lookup(a + b, key) == if obj_has_key(a, key) {
            obj_lookup(a, key)
        } else {
            obj_lookup(b, key)
        },
    decreases a.len(),
{
    if a.len() == 0 {
        assert(a + b =~= b);
    } else {
        if a[0].0 == key {
        } else {
            lemma_obj_lookup_concat(a.skip(1), b, key);
            assert((a + b).skip(1) =~= a.skip(1) + b);
        }
    }
}

/// A lookup that skips a key-free prefix equals the lookup in the rest.
pub proof fn lemma_obj_lookup_skip_prefix(
    entries: Seq<(Seq<char>, JsonView)>,
    key: Seq<char>,
    i: int,
)
    requires
        0 <= i <= entries.len(),
        forall|j: int| 0 <= j < i ==> entries[j].0 != key,
    ensures
        obj_lookup(entries, key) == obj_lookup(entries.skip(i), key),
    decreases i,
{
    if i > 0 {
        lemma_obj_lookup_skip_prefix(entries.skip(1), key, i - 1);
        assert(entries.skip(1).skip(i - 1) =~= entries.skip(i));
    } else {
        assert(entries.skip(0) =~= entries);
    }
}

impl Json {
    /// Looks up the first entry with key `key` in an object's entry list.
    pub fn obj_get<'a>(entries: &'a Vec<(String, Json)>, key: &str) -> (r: Option<&'a Json>)
        ensures
            match r {
                Some(v) => obj_lookup(entries_view(*entries), key@) == Some(v@),
                None => !obj_has_key(entries_view(*entries), key@),
            },
    {
        let ghost es = entries_view(*entries);
        let mut i: usize = 0;
        while i < entries.len()
            invariant
                i <= entries.len(),
                es == entries_view(*entries),
                es.len() == entries@.len(),
                forall|j: int| 0 <= j < i ==> es[j].0 != key@,
            decreases entries.len() - i,
        {
            assert(es[i as int] == (entries[i as int].0@, entries[i as int].1@));
            if str_eq(entries[i].0.as_str(), key) {
                proof {
                    lemma_obj_lookup_skip_prefix(es, key@, i as int);
                    assert(es.skip(i as int)[0] == es[i as int]);
                }
                return Some(&entries[i].1);
            }
            i += 1;
        }
        proof {
            lemma_obj_lookup_skip_prefix(es, key@, i as int);
            assert(es.skip(i as int).len() == 0);
        }
        None
    }
}

} // verus!
